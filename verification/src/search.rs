//! The walk of `search_files`: which directories it enters, which files it
//! reads to search their text, how many entries it looks at, and the list of
//! matches it answers with. Reading directories and files, and matching the
//! query (a regular expression), are the caller's part.
use vstd::prelude::*;
use crate::args::{clamp, SearchFilesArgs};
use crate::documents::{extension, path_extension};

use crate::text::{chars_of, chars_of_all, str_eq, str_views, string_of, views};

verus! {

/// The text that `serde_json::to_string` writes for a list of strings.
pub uninterp spec fn json_text_list(items: Seq<Seq<char>>) -> Seq<char>;

/// `serde_json::to_string` of a list of strings. It writes into a
/// `Vec<u8>`, and writing strings there cannot fail, so it succeeds; its
/// text is named by `json_text_list`.
#[verifier::external_body]
fn strings_json(items: &Vec<String>) -> (r: Result<String, String>)
    ensures
        r is Ok,
        r matches Ok(t) ==> t@ == json_text_list(str_views(items@)),
{
    serde_json::to_string(items).map_err(|e| e.to_string())
}

/// The walk enters a directory unless its name starts with a dot or it is
/// `node_modules` or `target`.
pub open spec fn descends_into(name: Seq<char>) -> bool {
    !(name.len() > 0 && name[0] == '.') && name != "node_modules"@ && name != "target"@
}

pub fn search_descends(name: &str) -> (r: bool)
    ensures
        r == descends_into(name@),
{
    let v = chars_of(name);
    !(v.len() > 0 && v[0] == '.') && !str_eq(name, "node_modules") && !str_eq(name, "target")
}

/// Extensions of files whose text is searched.
pub open spec fn text_extension(e: Seq<char>) -> bool {
    e == "txt"@ || e == "md"@ || e == "rs"@ || e == "ts"@ || e == "tsx"@ || e == "js"@ || e == "jsx"@
        || e == "json"@ || e == "toml"@ || e == "yml"@ || e == "yaml"@ || e == "css"@ || e == "html"@
        || e == "lock"@ || e == "cfg"@ || e == "conf"@ || e == "ini"@ || e == "env"@ || e == "sh"@
        || e == "py"@ || e == "go"@ || e == "java"@ || e == "c"@ || e == "cpp"@ || e == "h"@
        || e == "hpp"@ || e == "sql"@ || e == "graphql"@
}

/// Names of files without an extension whose text is searched.
pub open spec fn text_file_name(n: Seq<char>) -> bool {
    n == "Dockerfile"@ || n == "Makefile"@ || n == "justfile"@ || n == "Procfile"@ || n == ".env"@
        || n == ".env.local"@ || n == ".env.example"@
}

/// A file's text is searched where its extension is a text extension, or,
/// where it has no extension, where its name is a text file name.
pub open spec fn content_searchable(file_name: Seq<char>) -> bool {
    match extension(file_name) {
        Some(e) => text_extension(e),
        None => text_file_name(file_name),
    }
}

fn text_extension_exec(e: &str) -> (r: bool)
    ensures
        r == text_extension(e@),
{
    str_eq(e, "txt") || str_eq(e, "md") || str_eq(e, "rs") || str_eq(e, "ts") || str_eq(e, "tsx")
        || str_eq(e, "js") || str_eq(e, "jsx") || str_eq(e, "json") || str_eq(e, "toml")
        || str_eq(e, "yml") || str_eq(e, "yaml") || str_eq(e, "css") || str_eq(e, "html")
        || str_eq(e, "lock") || str_eq(e, "cfg") || str_eq(e, "conf") || str_eq(e, "ini")
        || str_eq(e, "env") || str_eq(e, "sh") || str_eq(e, "py") || str_eq(e, "go")
        || str_eq(e, "java") || str_eq(e, "c") || str_eq(e, "cpp") || str_eq(e, "h")
        || str_eq(e, "hpp") || str_eq(e, "sql") || str_eq(e, "graphql")
}

pub fn is_content_searchable(file_name: &str) -> (r: bool)
    ensures
        r == content_searchable(file_name@),
{
    match path_extension(file_name) {
        Some(e) => text_extension_exec(e.as_str()),
        None => str_eq(file_name, "Dockerfile") || str_eq(file_name, "Makefile")
            || str_eq(file_name, "justfile") || str_eq(file_name, "Procfile")
            || str_eq(file_name, ".env") || str_eq(file_name, ".env.local")
            || str_eq(file_name, ".env.example"),
    }
}

/// What the walk does with the entry it has just counted.
#[derive(Debug, PartialEq, Eq)]
pub enum SearchVisit {
    /// The walk has looked at more entries than it may: it stops here.
    Stop,
    /// A directory that the walk will enter.
    Descend,
    /// A directory that the walk passes by.
    Skip,
    /// A file: match its name, then, where `read_content`, its text.
    Check { read_content: bool },
}

/// The state of a `search_files` walk: the directories still to read (the
/// last one found is read first), the entries looked at, and the matches.
#[derive(Debug)]
pub struct SearchWalk {
    queue: Vec<String>,
    scanned: usize,
    max_files: usize,
    search_content: bool,
    results: Vec<String>,
}

impl SearchWalk {
    pub closed spec fn queue_spec(&self) -> Seq<Seq<char>> {
        str_views(self.queue@)
    }

    pub closed spec fn scanned_spec(&self) -> nat {
        self.scanned as nat
    }

    pub closed spec fn max_spec(&self) -> nat {
        self.max_files as nat
    }

    pub closed spec fn content_spec(&self) -> bool {
        self.search_content
    }

    pub closed spec fn results_spec(&self) -> Seq<Seq<char>> {
        str_views(self.results@)
    }

    /// The walk under `root`: at most `max_files` entries (2000 unless
    /// asked, kept within 100 and 20000); text is searched unless the call
    /// says not to.
    pub fn new(root: String, args: &SearchFilesArgs) -> (r: Self)
        ensures
            r.queue_spec() == seq![root@],
            r.scanned_spec() == 0,
            r.max_spec() == clamp(
                match args.max_files {
                    Some(v) => v as int,
                    None => 2000,
                },
                100,
                20000,
            ),
            r.content_spec() == match args.search_content {
                Some(b) => b,
                None => true,
            },
            r.results_spec().len() == 0,
    {
        let ghost rv = root@;
        let r = SearchWalk {
            queue: vec![root],
            scanned: 0,
            max_files: args.effective_max_files(),
            search_content: match args.search_content {
                Some(b) => b,
                None => true,
            },
            results: Vec::new(),
        };
        assert(r.queue_spec() =~= seq![rv]);
        assert(r.results_spec() =~= Seq::<Seq<char>>::empty());
        r
    }

    /// The next directory to read: the last one queued.
    pub fn next_dir(&mut self) -> (r: Option<String>)
        ensures
            old(self).queue_spec().len() == 0 ==> r is None && final(self).queue_spec() == old(self).queue_spec(),
            old(self).queue_spec().len() > 0 ==> (r matches Some(d) && d@ == old(self).queue_spec().last()
                && final(self).queue_spec() == old(self).queue_spec().drop_last()),
            final(self).scanned_spec() == old(self).scanned_spec(),
            final(self).max_spec() == old(self).max_spec(),
            final(self).content_spec() == old(self).content_spec(),
            final(self).results_spec() == old(self).results_spec(),
    {
        let ghost q = self.queue_spec();
        let r = self.queue.pop();
        proof {
            if q.len() > 0 {
                assert(self.queue_spec() =~= q.drop_last());
            }
        }
        r
    }

    /// Counts an entry found in a directory and says what to do with it.
    /// `path` is the entry's path and `name` its file name.
    pub fn visit(&mut self, path: String, name: &str, is_dir: bool) -> (r: SearchVisit)
        ensures
            final(self).scanned_spec() == if old(self).scanned_spec() < usize::MAX { old(self).scanned_spec() + 1 } else { old(self).scanned_spec() },
            final(self).max_spec() == old(self).max_spec(),
            final(self).content_spec() == old(self).content_spec(),
            final(self).results_spec() == old(self).results_spec(),
            if final(self).scanned_spec() > old(self).max_spec() {
                r == SearchVisit::Stop && final(self).queue_spec() == old(self).queue_spec()
            } else if is_dir {
                if descends_into(name@) {
                    r == SearchVisit::Descend && final(self).queue_spec() == old(self).queue_spec().push(path@)
                } else {
                    r == SearchVisit::Skip && final(self).queue_spec() == old(self).queue_spec()
                }
            } else {
                r == (SearchVisit::Check { read_content: old(self).content_spec() && content_searchable(name@) })
                    && final(self).queue_spec() == old(self).queue_spec()
            },
    {
        self.scanned = self.scanned.saturating_add(1);
        if self.scanned > self.max_files {
            return SearchVisit::Stop;
        }
        if is_dir {
            if search_descends(name) {
                let ghost q = self.queue_spec();
                let ghost pv = path@;
                self.queue.push(path);
                assert(self.queue_spec() =~= q.push(pv));
                SearchVisit::Descend
            } else {
                SearchVisit::Skip
            }
        } else {
            let read_content = self.search_content && is_content_searchable(name);
            SearchVisit::Check { read_content }
        }
    }

    /// Records a file that matched the query.
    pub fn record_match(&mut self, path: String)
        ensures
            final(self).results_spec() == old(self).results_spec().push(path@),
            final(self).queue_spec() == old(self).queue_spec(),
            final(self).scanned_spec() == old(self).scanned_spec(),
            final(self).max_spec() == old(self).max_spec(),
            final(self).content_spec() == old(self).content_spec(),
    {
        let ghost r = self.results_spec();
        let ghost pv = path@;
        self.results.push(path);
        assert(self.results_spec() =~= r.push(pv));
    }

    /// Whether the walk has looked at more entries than it may.
    pub fn exhausted(&self) -> (r: bool)
        ensures
            r == (self.scanned_spec() > self.max_spec()),
    {
        self.scanned > self.max_files
    }

    /// The answer: the matching paths, in the order they were found, as the
    /// JSON array that `serde_json` writes.
    pub fn results_json(&self) -> (r: String)
        ensures
            r@ == json_text_list(self.results_spec()),
    {
        match strings_json(&self.results) {
            Ok(t) => t,
            Err(_) => {
                proof {
                    assert(false);
                }
                String::new()
            },
        }
    }
}

} // verus!
