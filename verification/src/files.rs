//! What the filesystem tools decide around their reads and writes: which
//! method a call names, which files are read as binary data and with what
//! MIME type, how many files `read_many_files` reads and how much of each,
//! which entries a listing shows, the bounds of a chunked read, and the
//! messages the tools answer with. The reads and writes are the caller's part.
use vstd::prelude::*;
use crate::documents::{extension, path_extension};
use crate::memory::{to_lowercase, unicode_lowercase};
use crate::text::{chars_of, concat2, concat3, owned, str_eq, str_views};

verus! {

/// A filesystem method.
#[derive(Debug, Clone, Copy, PartialEq, Eq, Structural)]
pub enum FsMethod {
    ReadFile,
    ReadManyFiles,
    ListFiles,
    ListFilesDetailed,
    FileExists,
    GetFileInfo,
    SearchFiles,
    ReadFileChunk,
    WriteFile,
    AppendFile,
    MakeDir,
    DeleteFile,
    MoveFile,
}

pub open spec fn fs_method_of(name: Seq<char>) -> Option<FsMethod> {
    if name == "read_file"@ {
        Some(FsMethod::ReadFile)
    } else if name == "read_many_files"@ {
        Some(FsMethod::ReadManyFiles)
    } else if name == "list_files"@ {
        Some(FsMethod::ListFiles)
    } else if name == "list_files_detailed"@ {
        Some(FsMethod::ListFilesDetailed)
    } else if name == "file_exists"@ {
        Some(FsMethod::FileExists)
    } else if name == "get_file_info"@ {
        Some(FsMethod::GetFileInfo)
    } else if name == "search_files"@ {
        Some(FsMethod::SearchFiles)
    } else if name == "read_file_chunk"@ {
        Some(FsMethod::ReadFileChunk)
    } else if name == "write_file"@ {
        Some(FsMethod::WriteFile)
    } else if name == "append_file"@ {
        Some(FsMethod::AppendFile)
    } else if name == "mkdir"@ {
        Some(FsMethod::MakeDir)
    } else if name == "delete_file"@ {
        Some(FsMethod::DeleteFile)
    } else if name == "move_file"@ {
        Some(FsMethod::MoveFile)
    } else {
        None
    }
}

pub fn filesystem_method(name: &str) -> (r: Option<FsMethod>)
    ensures
        r == fs_method_of(name@),
{
    if str_eq(name, "read_file") {
        Some(FsMethod::ReadFile)
    } else if str_eq(name, "read_many_files") {
        Some(FsMethod::ReadManyFiles)
    } else if str_eq(name, "list_files") {
        Some(FsMethod::ListFiles)
    } else if str_eq(name, "list_files_detailed") {
        Some(FsMethod::ListFilesDetailed)
    } else if str_eq(name, "file_exists") {
        Some(FsMethod::FileExists)
    } else if str_eq(name, "get_file_info") {
        Some(FsMethod::GetFileInfo)
    } else if str_eq(name, "search_files") {
        Some(FsMethod::SearchFiles)
    } else if str_eq(name, "read_file_chunk") {
        Some(FsMethod::ReadFileChunk)
    } else if str_eq(name, "write_file") {
        Some(FsMethod::WriteFile)
    } else if str_eq(name, "append_file") {
        Some(FsMethod::AppendFile)
    } else if str_eq(name, "mkdir") {
        Some(FsMethod::MakeDir)
    } else if str_eq(name, "delete_file") {
        Some(FsMethod::DeleteFile)
    } else if str_eq(name, "move_file") {
        Some(FsMethod::MoveFile)
    } else {
        None
    }
}

pub fn unknown_filesystem_method(name: &str) -> (r: String)
    ensures
        r@ == "Unknown filesystem method: "@ + name@,
{
    concat2("Unknown filesystem method: ", name)
}

/// The MIME type of a file that `read_file` returns as a data URI, by its
/// extension in lower case; other files are read as text.
pub open spec fn mime_of(ext: Seq<char>) -> Option<Seq<char>> {
    if ext == "png"@ {
        Some("image/png"@)
    } else if ext == "jpg"@ || ext == "jpeg"@ {
        Some("image/jpeg"@)
    } else if ext == "webp"@ {
        Some("image/webp"@)
    } else if ext == "gif"@ {
        Some("image/gif"@)
    } else if ext == "pdf"@ {
        Some("application/pdf"@)
    } else {
        None
    }
}

pub open spec fn binary_mime(path: Seq<char>) -> Option<Seq<char>> {
    mime_of(unicode_lowercase(match extension(path) {
        Some(e) => e,
        None => Seq::empty(),
    }))
}

pub fn binary_mime_type(path: &str) -> (r: Option<&'static str>)
    ensures
        match binary_mime(path@) {
            Some(m) => r matches Some(x) && x@ == m,
            None => r is None,
        },
{
    let ext = match path_extension(path) {
        Some(e) => e,
        None => String::new(),
    };
    let e = to_lowercase(ext.as_str());
    let e = e.as_str();
    if str_eq(e, "png") {
        Some("image/png")
    } else if str_eq(e, "jpg") || str_eq(e, "jpeg") {
        Some("image/jpeg")
    } else if str_eq(e, "webp") {
        Some("image/webp")
    } else if str_eq(e, "gif") {
        Some("image/gif")
    } else if str_eq(e, "pdf") {
        Some("application/pdf")
    } else {
        None
    }
}

/// `read_many_files` reads at most twenty files...
pub const MAX_READ_MANY_FILES: usize = 20;

/// ...and at most 128 KiB of each.
pub const MAX_READ_MANY_FILE_BYTES: usize = 131072;

/// The paths `read_many_files` reads: the first twenty asked; an empty
/// request is refused.
pub fn files_to_read(paths: &Vec<String>) -> (r: Result<Vec<String>, String>)
    ensures
        paths@.len() == 0 ==> (r matches Err(e) && e@ == "paths cannot be empty"@),
        paths@.len() > 0 ==> (r matches Ok(v) && str_views(v@) == str_views(paths@).take(
            if paths@.len() < 20 { paths@.len() as int } else { 20 },
        )),
{
    if paths.len() == 0 {
        return Err(owned("paths cannot be empty"));
    }
    let n = if paths.len() < MAX_READ_MANY_FILES { paths.len() } else { MAX_READ_MANY_FILES };
    let mut out: Vec<String> = Vec::new();
    let mut i: usize = 0;
    while i < n
        invariant
            n <= paths@.len(),
            i <= n,
            str_views(out@) == str_views(paths@).take(i as int),
        decreases n - i,
    {
        let x = paths[i].clone();
        assert(str_views(out@.push(x)) =~= str_views(out@).push(x@));
        assert(str_views(paths@).take(i + 1) =~= str_views(paths@).take(i as int).push(x@));
        out.push(x);
        i = i + 1;
    }
    Ok(out)
}

/// How much of a file of `len` bytes `read_many_files` keeps, and whether
/// it was cut.
pub fn clipped_length(len: usize) -> (r: (usize, bool))
    ensures
        r.1 == (len > MAX_READ_MANY_FILE_BYTES),
        r.0 == if r.1 { MAX_READ_MANY_FILE_BYTES } else { len },
{
    if len > MAX_READ_MANY_FILE_BYTES {
        (MAX_READ_MANY_FILE_BYTES, true)
    } else {
        (len, false)
    }
}

/// A detailed listing shows an entry unless it is hidden (its name starts
/// with a dot) and hidden entries were not asked for.
pub open spec fn listed_entry(name: Seq<char>, include_hidden: bool) -> bool {
    include_hidden || !(name.len() > 0 && name[0] == '.')
}

pub fn lists_entry(name: &str, include_hidden: bool) -> (r: bool)
    ensures
        r == listed_entry(name@, include_hidden),
{
    let v = chars_of(name);
    include_hidden || !(v.len() > 0 && v[0] == '.')
}

/// Why a chunked read cannot start: the path is a directory, or the offset
/// lies beyond the end of the file.
pub open spec fn chunk_refusal(is_dir: bool, offset: u64, file_size: u64) -> Option<Seq<char>> {
    if is_dir {
        Some("Path is a directory; expected a text file"@)
    } else if offset > file_size {
        Some("Offset is beyond end of file"@)
    } else {
        None
    }
}

pub fn check_chunk_request(is_dir: bool, offset: u64, file_size: u64) -> (r: Result<(), String>)
    ensures
        match chunk_refusal(is_dir, offset, file_size) {
            Some(e) => r matches Err(m) && m@ == e,
            None => r is Ok,
        },
{
    if is_dir {
        Err(owned("Path is a directory; expected a text file"))
    } else if offset > file_size {
        Err(owned("Offset is beyond end of file"))
    } else {
        Ok(())
    }
}

/// Where the next chunk starts after `read` bytes were read at `offset`
/// (saturating), and whether that is the end of the file.
pub fn chunk_progress(offset: u64, read: usize, file_size: u64) -> (r: (u64, bool))
    ensures
        r.0 == if offset + read > u64::MAX { u64::MAX as int } else { offset + read },
        r.1 == (r.0 >= file_size),
{
    let next = offset.saturating_add(read as u64);
    (next, next >= file_size)
}

pub open spec fn written_message() -> Seq<char> {
    "File written successfully"@
}

pub open spec fn appended_message() -> Seq<char> {
    "Content appended successfully"@
}

/// The answer of `mkdir`, naming the path as asked.
pub fn made_dir_message(path: &str) -> (r: String)
    ensures
        r@ == "Successfully created directory "@ + path@,
{
    concat2("Successfully created directory ", path)
}

/// The answer of `delete_file`, naming the path as asked.
pub fn deleted_message(path: &str, was_dir: bool) -> (r: String)
    ensures
        r@ == (if was_dir { "Successfully deleted directory "@ } else { "Successfully deleted file "@ }) + path@,
{
    if was_dir {
        concat2("Successfully deleted directory ", path)
    } else {
        concat2("Successfully deleted file ", path)
    }
}

/// The answer of `move_file`, naming the paths as asked.
pub fn moved_message(source: &str, destination: &str) -> (r: String)
    ensures
        r@ == "Successfully moved "@ + source@ + " to "@ + destination@,
{
    let a = concat3("Successfully moved ", source, " to ");
    concat2(a.as_str(), destination)
}

} // verus!
