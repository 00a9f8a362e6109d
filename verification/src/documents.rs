//! Document tools: the limits that requests must respect before a PDF, a
//! spreadsheet, a Word document or an archive is built or read, and the
//! normalisation of extracted or generated text.
use vstd::prelude::*;
use crate::text::{
    chars_of, concat2, concat3, eq_ignore_ascii_case, eq_ignore_case, join, join_vecs, owned,
    push_all, replace, replace_vec, split_char, split_vec, string_of, trim, trim_start, trim_vec,
    views,
};
use crate::paths::{comps, comps_vec, dotdot};

verus! {

pub const PDF_CREATE_MAX_SECTIONS: usize = 100;
pub const PDF_CREATE_MAX_TEXT_BYTES: usize = 1000000;
pub const PDF_READ_DEFAULT_MAX_PAGES: usize = 50;
pub const PDF_READ_MAX_PAGES: usize = 200;
pub const EXCEL_WRITE_MAX_SHEETS: usize = 20;
pub const EXCEL_MAX_ROWS: usize = 10000;
pub const EXCEL_MAX_COLUMNS: usize = 100;
pub const EXCEL_MAX_TEXT_CELL_BYTES: usize = 32768;
pub const EXCEL_READ_DEFAULT_MAX_ROWS: usize = 1000;
pub const DOCX_CREATE_MAX_PARAGRAPHS: usize = 200;
pub const ARCHIVE_CREATE_MAX_FILES: usize = 100;

/// Bytes of the UTF-8 text `s`, as `str::len` reports them.
pub open spec fn nbytes(s: Seq<char>) -> int {
    (vstd::utf8::encode_utf8(s).len() as usize) as int
}

// ───────────────────────────── request types ─────────────────────────────

#[derive(Debug)]
pub struct PdfSection {
    pub heading: Option<String>,
    pub body: String,
}

#[derive(Debug)]
pub struct PdfCreateArgs {
    pub filename: String,
    pub title: Option<String>,
    pub sections: Vec<PdfSection>,
}

#[derive(Debug)]
pub struct PdfReadArgs {
    pub path: String,
    pub max_pages: Option<usize>,
}

/// A spreadsheet cell.  Numeric cells are written by the caller; the limits
/// only look at the text of text and formula cells.
#[derive(Debug)]
pub enum ExcelCell {
    Text(String),
    Formula(String),
    Bool(bool),
    Number,
    Empty,
}

#[derive(Debug)]
pub struct ExcelSheet {
    pub name: String,
    pub headers: Option<Vec<String>>,
    pub rows: Vec<Vec<ExcelCell>>,
}

#[derive(Debug)]
pub struct ExcelWriteArgs {
    pub filename: String,
    pub sheets: Vec<ExcelSheet>,
}

#[derive(Debug)]
pub struct ExcelReadArgs {
    pub path: String,
    pub max_rows: Option<usize>,
}

#[derive(Debug)]
pub struct DocxParagraph {
    pub text: String,
    pub heading_level: Option<u8>,
    pub bold: Option<bool>,
    pub italic: Option<bool>,
}

#[derive(Debug)]
pub struct DocxCreateArgs {
    pub filename: String,
    pub paragraphs: Vec<DocxParagraph>,
}

#[derive(Debug)]
pub struct ArchiveCreateArgs {
    pub filename: String,
    pub files: Vec<String>,
}

// ───────────────────────────── output extension ─────────────────────────────

/// `Path::extension`: the text after the last `.` of the file name, unless
/// that dot starts the name.
pub open spec fn extension(p: Seq<char>) -> Option<Seq<char>> {
    match file_name(p) {
        None => None,
        Some(name) => {
            let k = last_dot(name);
            if k <= 0 {
                None
            } else {
                Some(name.skip(k + 1))
            }
        },
    }
}

/// Index of the last `.` in `s`, or -1.
pub open spec fn last_dot(s: Seq<char>) -> int
    decreases s.len(),
{
    if s.len() == 0 {
        -1
    } else if s.last() == '.' {
        s.len() - 1
    } else {
        last_dot(s.drop_last())
    }
}

/// `Path::file_name`: the last component, unless it is `..`.
pub open spec fn file_name(p: Seq<char>) -> Option<Seq<char>> {
    let c = comps(p);
    if c.len() > 0 && c.last() != dotdot() {
        Some(c.last())
    } else {
        None
    }
}

fn last_dot_exec(s: &Vec<char>) -> (r: Option<usize>)
    ensures
        match r {
            Some(k) => k as int == last_dot(s@) && k < s.len(),
            None => last_dot(s@) == -1,
        },
{
    let mut n = s.len();
    assert(s@.take(n as int) =~= s@);
    while n > 0 && s[n - 1] != '.'
        invariant
            n <= s.len(),
            last_dot(s@) == last_dot(s@.take(n as int)),
        decreases n,
    {
        proof {
            assert(s@.take(n as int).drop_last() =~= s@.take(n - 1));
        }
        n = n - 1;
    }
    if n == 0 {
        None
    } else {
        Some(n - 1)
    }
}

fn file_name_exec(p: &Vec<char>) -> (r: Option<Vec<char>>)
    ensures
        match file_name(p@) {
            Some(n) => r matches Some(v) && v@ == n,
            None => r is None,
        },
{
    let c = comps_vec(p);
    if c.len() == 0 {
        return None;
    }
    let last = c[c.len() - 1].clone();
    assert(views(c@).last() == last@);
    if last.len() == 2 && last[0] == '.' && last[1] == '.' {
        assert(last@ =~= dotdot());
        return None;
    }
    proof {
        if last@ == dotdot() {
            assert(last@.len() == 2 && last@[0] == '.' && last@[1] == '.');
        }
    }
    Some(last)
}

/// `Path::extension` of `path`, as text.
pub fn path_extension(path: &str) -> (r: Option<String>)
    ensures
        match extension(path@) {
            Some(e) => r matches Some(x) && x@ == e,
            None => r is None,
        },
{
    let p = chars_of(path);
    let name = match file_name_exec(&p) {
        None => return None,
        Some(n) => n,
    };
    let k = match last_dot_exec(&name) {
        None => return None,
        Some(k) => k,
    };
    if k == 0 {
        return None;
    }
    let ext = crate::text::slice_vec(&name, k + 1, name.len());
    assert(ext@ =~= name@.skip(k + 1));
    Some(string_of(ext.as_slice()))
}

/// Does `p` end with `.<expected>`, in any ASCII case?
pub open spec fn has_extension(p: Seq<char>, expected: Seq<char>) -> bool {
    match extension(p) {
        Some(e) => eq_ignore_case(e, expected),
        None => false,
    }
}

/// Message when the output file does not end with `.<expected>`.
pub open spec fn extension_message(expected: Seq<char>) -> Seq<char> {
    "Output file must end with ."@ + expected
}

/// The output path must end with `.<expected>`, in any ASCII case.
pub fn ensure_output_extension(path: &str, expected: &str) -> (r: Result<(), String>)
    ensures
        if has_extension(path@, expected@) {
            r is Ok
        } else {
            r matches Err(m) && m@ == extension_message(expected@)
        },
{
    let p = chars_of(path);
    let name = match file_name_exec(&p) {
        None => return Err(concat2("Output file must end with .", expected)),
        Some(n) => n,
    };
    let k = match last_dot_exec(&name) {
        None => return Err(concat2("Output file must end with .", expected)),
        Some(k) => k,
    };
    if k == 0 {
        return Err(concat2("Output file must end with .", expected));
    }
    let ext = crate::text::slice_vec(&name, k + 1, name.len());
    assert(ext@ =~= name@.skip(k + 1));
    if eq_ignore_ascii_case(&ext, &chars_of(expected)) {
        Ok(())
    } else {
        Err(concat2("Output file must end with .", expected))
    }
}

/// A Word document's path must end with `.docx`, in any ASCII case.
pub fn ensure_docx_extension(path: &str) -> (r: Result<(), String>)
    ensures
        if has_extension(path@, "docx"@) {
            r is Ok
        } else {
            r matches Err(m) && m@ == "Path must end with .docx"@
        },
{
    match ensure_output_extension(path, "docx") {
        Ok(()) => Ok(()),
        Err(_) => Err(owned("Path must end with .docx")),
    }
}

/// Text of a Word XML run with the five predefined XML entities decoded, each
/// in one left-to-right pass, `&amp;` first.
pub open spec fn xml_entities_decoded(s: Seq<char>) -> Seq<char> {
    let s = replace(s, "&amp;"@, "&"@);
    let s = replace(s, "&lt;"@, "<"@);
    let s = replace(s, "&gt;"@, ">"@);
    let s = replace(s, "&quot;"@, "\""@);
    replace(s, "&apos;"@, "'"@)
}

pub fn decode_xml_entities(input: &str) -> (r: String)
    ensures
        r@ == xml_entities_decoded(input@),
{
    let v = chars_of(input);
    let v = replace_lit(&v, "&amp;", "&");
    let v = replace_lit(&v, "&lt;", "<");
    let v = replace_lit(&v, "&gt;", ">");
    let v = replace_lit(&v, "&quot;", "\"");
    let v = replace_lit(&v, "&apos;", "'");
    string_of(v.as_slice())
}

// ───────────────────────────── PDF ─────────────────────────────

pub open spec fn opt_bytes(o: Option<String>) -> int {
    match o {
        Some(s) => nbytes(s@),
        None => 0,
    }
}

/// Bytes of the section bodies and headings of `s`.
pub open spec fn sections_bytes(s: Seq<PdfSection>) -> int
    decreases s.len(),
{
    if s.len() == 0 {
        0
    } else {
        sections_bytes(s.drop_last()) + nbytes(s.last().body@) + opt_bytes(s.last().heading)
    }
}

/// Why a `pdf_create` request is refused, if it is.
pub open spec fn pdf_create_problem(a: PdfCreateArgs) -> Option<Seq<char>> {
    if a.sections@.len() == 0 {
        Some("pdf_create requires at least one section"@)
    } else if a.sections@.len() > PDF_CREATE_MAX_SECTIONS {
        Some("pdf_create supports at most 100 sections"@)
    } else if opt_bytes(a.title) + sections_bytes(a.sections@) > PDF_CREATE_MAX_TEXT_BYTES {
        Some("pdf_create input exceeds 1000000 bytes"@)
    } else {
        None
    }
}

fn opt_len(o: &Option<String>) -> (r: usize)
    ensures
        r == opt_bytes(*o),
{
    match o {
        Some(s) => s.as_str().len(),
        None => 0,
    }
}

/// Checks a `pdf_create` request: one to 100 sections, at most 1,000,000
/// bytes of title, headings and bodies together.
pub fn validate_pdf_create(args: &PdfCreateArgs) -> (r: Result<(), String>)
    ensures
        match pdf_create_problem(*args) {
            None => r is Ok,
            Some(e) => r matches Err(m) && m@ == e,
        },
{
    if args.sections.len() == 0 {
        return Err(owned("pdf_create requires at least one section"));
    }
    if args.sections.len() > PDF_CREATE_MAX_SECTIONS {
        return Err(owned("pdf_create supports at most 100 sections"));
    }
    let title = opt_len(&args.title);
    let mut total: usize = title;
    let mut over = total > PDF_CREATE_MAX_TEXT_BYTES;
    let mut i: usize = 0;
    assert(args.sections@.take(0) =~= seq![]);
    while i < args.sections.len() && !over
        invariant
            i <= args.sections.len(),
            !over ==> total == opt_bytes(args.title) + sections_bytes(args.sections@.take(i as int)),
            !over ==> total <= PDF_CREATE_MAX_TEXT_BYTES,
            over ==> opt_bytes(args.title) + sections_bytes(args.sections@.take(i as int)) > PDF_CREATE_MAX_TEXT_BYTES,
        decreases args.sections.len() - i,
    {
        let s = &args.sections[i];
        let b = s.body.as_str().len();
        let h = opt_len(&s.heading);
        proof {
            assert(args.sections@.take(i + 1).drop_last() =~= args.sections@.take(i as int));
            assert(args.sections@.take(i + 1).last() == args.sections@[i as int]);
        }
        if b > PDF_CREATE_MAX_TEXT_BYTES - total || h > PDF_CREATE_MAX_TEXT_BYTES - total - b {
            over = true;
        } else {
            total = total + b + h;
        }
        i = i + 1;
    }
    if over {
        proof {
            lemma_sections_bytes_monotone(args.sections@, i as int);
        }
        return Err(owned("pdf_create input exceeds 1000000 bytes"));
    }
    assert(args.sections@.take(i as int) =~= args.sections@);
    Ok(())
}

proof fn lemma_sections_bytes_monotone(s: Seq<PdfSection>, i: int)
    requires
        0 <= i <= s.len(),
    ensures
        sections_bytes(s.take(i)) <= sections_bytes(s),
    decreases s.len() - i,
{
    if i < s.len() {
        lemma_sections_bytes_monotone(s, i + 1);
        assert(s.take(i + 1).drop_last() =~= s.take(i));
    } else {
        assert(s.take(i) =~= s);
    }
}

pub open spec fn clamp(v: int, lo: int, hi: int) -> int {
    if v < lo {
        lo
    } else if v > hi {
        hi
    } else {
        v
    }
}

/// Pages that `pdf_read` reads: 50 by default, between 1 and 200.
pub fn normalized_pdf_read_max_pages(args: &PdfReadArgs) -> (r: usize)
    ensures
        r == clamp(
            match args.max_pages {
                Some(v) => v as int,
                None => PDF_READ_DEFAULT_MAX_PAGES as int,
            },
            1,
            PDF_READ_MAX_PAGES as int,
        ),
{
    let v = match args.max_pages {
        Some(v) => v,
        None => PDF_READ_DEFAULT_MAX_PAGES,
    };
    if v < 1 {
        1
    } else if v > PDF_READ_MAX_PAGES {
        PDF_READ_MAX_PAGES
    } else {
        v
    }
}

/// Rows that `excel_read` reads: 1000 by default, between 1 and 10000.
pub fn normalized_excel_read_max_rows(args: &ExcelReadArgs) -> (r: usize)
    ensures
        r == clamp(
            match args.max_rows {
                Some(v) => v as int,
                None => EXCEL_READ_DEFAULT_MAX_ROWS as int,
            },
            1,
            EXCEL_MAX_ROWS as int,
        ),
{
    let v = match args.max_rows {
        Some(v) => v,
        None => EXCEL_READ_DEFAULT_MAX_ROWS,
    };
    if v < 1 {
        1
    } else if v > EXCEL_MAX_ROWS {
        EXCEL_MAX_ROWS
    } else {
        v
    }
}

// ───────────────────────────── spreadsheets ─────────────────────────────

pub open spec fn cell_too_large(c: ExcelCell) -> bool {
    match c {
        ExcelCell::Text(s) => nbytes(s@) > EXCEL_MAX_TEXT_CELL_BYTES,
        ExcelCell::Formula(s) => nbytes(s@) > EXCEL_MAX_TEXT_CELL_BYTES,
        _ => false,
    }
}

/// Why a row is refused, if it is: too many columns, or a text or formula
/// cell of more than 32 KiB.
pub open spec fn row_problem(row: Seq<ExcelCell>, name: Seq<char>) -> Option<Seq<char>> {
    if row.len() > EXCEL_MAX_COLUMNS {
        Some("Sheet '"@ + name + "' exceeds 100 columns in a row"@)
    } else if exists|k: int| 0 <= k < row.len() && cell_too_large(#[trigger] row[k]) {
        Some("Sheet '"@ + name + "' contains a cell larger than 32768 bytes"@)
    } else {
        None
    }
}

/// Why a sheet is refused, if it is: checked on rows, then headers, then row by row.
pub open spec fn sheet_problem(s: ExcelSheet) -> Option<Seq<char>> {
    if s.rows@.len() > EXCEL_MAX_ROWS {
        Some("Sheet '"@ + s.name@ + "' exceeds 10000 rows"@)
    } else if s.headers matches Some(h) && h@.len() > EXCEL_MAX_COLUMNS {
        Some("Sheet '"@ + s.name@ + "' exceeds 100 header columns"@)
    } else {
        first_problem(s.rows@.map_values(|r: Vec<ExcelCell>| row_problem(r@, s.name@)))
    }
}

/// The first problem of a list, if any.
pub open spec fn first_problem(ps: Seq<Option<Seq<char>>>) -> Option<Seq<char>>
    decreases ps.len(),
{
    if ps.len() == 0 {
        None
    } else if ps[0] is Some {
        ps[0]
    } else {
        first_problem(ps.drop_first())
    }
}

proof fn lemma_first_problem_push(ps: Seq<Option<Seq<char>>>, p: Option<Seq<char>>)
    requires
        first_problem(ps) is None,
    ensures
        first_problem(ps.push(p)) == p,
    decreases ps.len(),
{
    if ps.len() == 0 {
        assert(ps.push(p)[0] == p);
        assert(ps.push(p).drop_first() =~= seq![]);
        if p is None {
            assert(first_problem(ps.push(p).drop_first()) is None);
        }
    } else {
        assert(ps.push(p).drop_first() =~= ps.drop_first().push(p));
        lemma_first_problem_push(ps.drop_first(), p);
    }
}

proof fn lemma_first_problem_push_found(ps: Seq<Option<Seq<char>>>, p: Option<Seq<char>>)
    requires
        first_problem(ps) is Some,
    ensures
        first_problem(ps.push(p)) == first_problem(ps),
    decreases ps.len(),
{
    if ps[0] is None {
        assert(ps.push(p).drop_first() =~= ps.drop_first().push(p));
        lemma_first_problem_push_found(ps.drop_first(), p);
    }
}

/// Why an `excel_write` request is refused, if it is.
pub open spec fn excel_write_problem(a: ExcelWriteArgs) -> Option<Seq<char>> {
    if a.sheets@.len() == 0 {
        Some("excel_write requires at least one sheet"@)
    } else if a.sheets@.len() > EXCEL_WRITE_MAX_SHEETS {
        Some("excel_write supports at most 20 sheets"@)
    } else {
        first_problem(a.sheets@.map_values(|s: ExcelSheet| sheet_problem(s)))
    }
}

fn cell_too_large_exec(c: &ExcelCell) -> (r: bool)
    ensures
        r == cell_too_large(*c),
{
    match c {
        ExcelCell::Text(s) => s.as_str().len() > EXCEL_MAX_TEXT_CELL_BYTES,
        ExcelCell::Formula(s) => s.as_str().len() > EXCEL_MAX_TEXT_CELL_BYTES,
        _ => false,
    }
}

fn row_problem_exec(row: &Vec<ExcelCell>, name: &String) -> (r: Option<String>)
    ensures
        match row_problem(row@, name@) {
            None => r is None,
            Some(e) => r matches Some(m) && m@ == e,
        },
{
    if row.len() > EXCEL_MAX_COLUMNS {
        return Some(concat3("Sheet '", name.as_str(), "' exceeds 100 columns in a row"));
    }
    let mut i: usize = 0;
    while i < row.len()
        invariant
            i <= row.len(),
            row.len() <= EXCEL_MAX_COLUMNS,
            forall|k: int| 0 <= k < i ==> !cell_too_large(#[trigger] row@[k]),
        decreases row.len() - i,
    {
        if cell_too_large_exec(&row[i]) {
            assert(cell_too_large(row@[i as int]));
            return Some(concat3("Sheet '", name.as_str(), "' contains a cell larger than 32768 bytes"));
        }
        i = i + 1;
    }
    None
}

fn sheet_problem_exec(s: &ExcelSheet) -> (r: Option<String>)
    ensures
        match sheet_problem(*s) {
            None => r is None,
            Some(e) => r matches Some(m) && m@ == e,
        },
{
    if s.rows.len() > EXCEL_MAX_ROWS {
        return Some(concat3("Sheet '", s.name.as_str(), "' exceeds 10000 rows"));
    }
    if let Some(h) = &s.headers {
        if h.len() > EXCEL_MAX_COLUMNS {
            return Some(concat3("Sheet '", s.name.as_str(), "' exceeds 100 header columns"));
        }
    }
    let ghost ps = s.rows@.map_values(|r: Vec<ExcelCell>| row_problem(r@, s.name@));
    let mut i: usize = 0;
    while i < s.rows.len()
        invariant
            i <= s.rows.len(),
            s.rows.len() <= EXCEL_MAX_ROWS,
            !(s.headers matches Some(h) && h@.len() > EXCEL_MAX_COLUMNS),
            ps == s.rows@.map_values(|r: Vec<ExcelCell>| row_problem(r@, s.name@)),
            first_problem(ps.take(i as int)) is None,
        decreases s.rows.len() - i,
    {
        let p = row_problem_exec(&s.rows[i], &s.name);
        proof {
            assert(ps[i as int] == row_problem(s.rows@[i as int]@, s.name@));
            assert(ps.take(i + 1) =~= ps.take(i as int).push(ps[i as int]));
            lemma_first_problem_push(ps.take(i as int), ps[i as int]);
        }
        if p.is_some() {
            proof {
                lemma_first_problem_prefix(ps, i + 1);
            }
            return p;
        }
        i = i + 1;
    }
    assert(ps.take(s.rows.len() as int) =~= ps);
    None
}

proof fn lemma_first_problem_prefix(ps: Seq<Option<Seq<char>>>, i: int)
    requires
        0 <= i <= ps.len(),
        first_problem(ps.take(i)) is Some,
    ensures
        first_problem(ps) == first_problem(ps.take(i)),
    decreases ps.len() - i,
{
    if i < ps.len() {
        assert(ps.take(i + 1) =~= ps.take(i).push(ps[i]));
        lemma_first_problem_push_found(ps.take(i), ps[i]);
        lemma_first_problem_prefix(ps, i + 1);
    } else {
        assert(ps.take(i) =~= ps);
    }
}

/// Checks an `excel_write` request: one to 20 sheets; per sheet at most 10000
/// rows, 100 header columns, 100 columns per row and 32 KiB per text cell.
pub fn validate_excel_write(args: &ExcelWriteArgs) -> (r: Result<(), String>)
    ensures
        match excel_write_problem(*args) {
            None => r is Ok,
            Some(e) => r matches Err(m) && m@ == e,
        },
{
    if args.sheets.len() == 0 {
        return Err(owned("excel_write requires at least one sheet"));
    }
    if args.sheets.len() > EXCEL_WRITE_MAX_SHEETS {
        return Err(owned("excel_write supports at most 20 sheets"));
    }
    let ghost ps = args.sheets@.map_values(|s: ExcelSheet| sheet_problem(s));
    let mut i: usize = 0;
    while i < args.sheets.len()
        invariant
            i <= args.sheets.len(),
            0 < args.sheets.len() <= EXCEL_WRITE_MAX_SHEETS,
            ps == args.sheets@.map_values(|s: ExcelSheet| sheet_problem(s)),
            first_problem(ps.take(i as int)) is None,
        decreases args.sheets.len() - i,
    {
        let p = sheet_problem_exec(&args.sheets[i]);
        proof {
            assert(ps[i as int] == sheet_problem(args.sheets@[i as int]));
            assert(ps.take(i + 1) =~= ps.take(i as int).push(ps[i as int]));
            lemma_first_problem_push(ps.take(i as int), ps[i as int]);
        }
        match p {
            Some(m) => {
                proof {
                    lemma_first_problem_prefix(ps, i + 1);
                }
                return Err(m);
            },
            None => {},
        }
        i = i + 1;
    }
    assert(ps.take(args.sheets.len() as int) =~= ps);
    Ok(())
}

// ───────────────────────────── Word documents and archives ─────────────────────────────

/// A heading level outside 1 to 6.
pub open spec fn bad_heading(p: DocxParagraph) -> bool {
    match p.heading_level {
        Some(l) => !(1 <= l <= 6),
        None => false,
    }
}

/// Why a `docx_create` request is refused, if it is.
pub open spec fn docx_create_problem(a: DocxCreateArgs) -> Option<Seq<char>> {
    if a.paragraphs@.len() == 0 {
        Some("docx_create requires at least one paragraph"@)
    } else if a.paragraphs@.len() > DOCX_CREATE_MAX_PARAGRAPHS {
        Some("docx_create supports at most 200 paragraphs"@)
    } else if exists|k: int| 0 <= k < a.paragraphs@.len() && bad_heading(#[trigger] a.paragraphs@[k]) {
        Some("docx_create heading_level must be between 1 and 6"@)
    } else {
        None
    }
}

/// Checks a `docx_create` request: one to 200 paragraphs, heading levels 1 to 6.
pub fn validate_docx_create(args: &DocxCreateArgs) -> (r: Result<(), String>)
    ensures
        match docx_create_problem(*args) {
            None => r is Ok,
            Some(e) => r matches Err(m) && m@ == e,
        },
{
    if args.paragraphs.len() == 0 {
        return Err(owned("docx_create requires at least one paragraph"));
    }
    if args.paragraphs.len() > DOCX_CREATE_MAX_PARAGRAPHS {
        return Err(owned("docx_create supports at most 200 paragraphs"));
    }
    let mut i: usize = 0;
    while i < args.paragraphs.len()
        invariant
            i <= args.paragraphs.len(),
            0 < args.paragraphs.len() <= DOCX_CREATE_MAX_PARAGRAPHS,
            forall|k: int| 0 <= k < i ==> !bad_heading(#[trigger] args.paragraphs@[k]),
        decreases args.paragraphs.len() - i,
    {
        if let Some(level) = args.paragraphs[i].heading_level {
            if level < 1 || level > 6 {
                assert(bad_heading(args.paragraphs@[i as int]));
                return Err(owned("docx_create heading_level must be between 1 and 6"));
            }
        }
        i = i + 1;
    }
    Ok(())
}

/// Why an `archive_create` request is refused, if it is.
pub open spec fn archive_create_problem(a: ArchiveCreateArgs) -> Option<Seq<char>> {
    if a.files@.len() == 0 {
        Some("archive_create requires at least one file"@)
    } else if a.files@.len() > ARCHIVE_CREATE_MAX_FILES {
        Some("archive_create supports at most 100 files"@)
    } else {
        None
    }
}

/// Checks an `archive_create` request: one to 100 files.
pub fn validate_archive_create(args: &ArchiveCreateArgs) -> (r: Result<(), String>)
    ensures
        match archive_create_problem(*args) {
            None => r is Ok,
            Some(e) => r matches Err(m) && m@ == e,
        },
{
    if args.files.len() == 0 {
        return Err(owned("archive_create requires at least one file"));
    }
    if args.files.len() > ARCHIVE_CREATE_MAX_FILES {
        return Err(owned("archive_create supports at most 100 files"));
    }
    Ok(())
}

/// A file to put in an archive, with whether it is a regular file.
#[derive(Debug)]
pub struct ArchiveSource {
    pub path: String,
    pub is_file: bool,
}

/// Archive entries for `sources`, each named by its file name, given the names
/// already taken: a directory, a path without a file name or a repeated name
/// refuses the whole list.
pub open spec fn archive_entries_from(sources: Seq<ArchiveSource>, taken: Seq<Seq<char>>) -> Result<
    Seq<(Seq<char>, Seq<char>)>,
    Seq<char>,
>
    decreases sources.len(),
{
    if sources.len() == 0 {
        Ok(seq![])
    } else {
        let s = sources[0];
        if !s.is_file {
            Err("Archive source must be a file: "@ + s.path@)
        } else {
            match file_name(s.path@) {
                None => Err("Archive source has an invalid file name: "@ + s.path@),
                Some(n) => if taken.contains(n) {
                    Err("Duplicate archive entry name: "@ + n)
                } else {
                    match archive_entries_from(sources.drop_first(), taken.push(n)) {
                        Ok(rest) => Ok(seq![(s.path@, n)] + rest),
                        Err(e) => Err(e),
                    }
                },
            }
        }
    }
}

pub open spec fn pairs_view(v: Seq<(String, String)>) -> Seq<(Seq<char>, Seq<char>)> {
    v.map_values(|p: (String, String)| (p.0@, p.1@))
}

fn seq_contains_vec(v: &Vec<Vec<char>>, x: &Vec<char>) -> (r: bool)
    ensures
        r == views(v@).contains(x@),
{
    let mut i: usize = 0;
    while i < v.len()
        invariant
            i <= v.len(),
            forall|k: int| 0 <= k < i ==> views(v@)[k] != x@,
        decreases v.len() - i,
    {
        if crate::text::vec_eq(&v[i], x) {
            assert(views(v@)[i as int] == x@);
            return true;
        }
        i = i + 1;
    }
    false
}

/// Names the archive entries: each source must be a file, with a file name
/// that no earlier source has.
pub fn normalize_archive_entries(sources: &Vec<ArchiveSource>) -> (r: Result<Vec<(String, String)>, String>)
    ensures
        match archive_entries_from(sources@, seq![]) {
            Ok(e) => r matches Ok(v) && pairs_view(v@) == e,
            Err(e) => r matches Err(m) && m@ == e,
        },
{
    let mut out: Vec<(String, String)> = Vec::new();
    let mut seen: Vec<Vec<char>> = Vec::new();
    let mut i: usize = 0;
    assert(sources@.skip(0) =~= sources@);
    assert(views(seen@) =~= seq![]);
    while i < sources.len()
        invariant
            i <= sources.len(),
            archive_entries_from(sources@, seq![]) == match archive_entries_from(
                sources@.skip(i as int),
                views(seen@),
            ) {
                Ok(rest) => Ok(pairs_view(out@) + rest),
                Err(e) => Err(e),
            },
        decreases sources.len() - i,
    {
        let s = &sources[i];
        proof {
            assert(sources@.skip(i as int)[0] == sources@[i as int]);
            assert(sources@.skip(i as int).drop_first() =~= sources@.skip(i + 1));
        }
        if !s.is_file {
            return Err(concat2("Archive source must be a file: ", s.path.as_str()));
        }
        let p = chars_of(s.path.as_str());
        let name = match file_name_exec(&p) {
            None => return Err(concat2("Archive source has an invalid file name: ", s.path.as_str())),
            Some(n) => n,
        };
        let name_s = string_of(name.as_slice());
        if seq_contains_vec(&seen, &name) {
            return Err(concat2("Duplicate archive entry name: ", name_s.as_str()));
        }
        let ghost seen0 = views(seen@);
        let ghost out0 = pairs_view(out@);
        let e = (s.path.clone(), name_s);
        proof {
            assert(views(seen@.push(name)) =~= seen0.push(name@));
            assert(pairs_view(out@.push(e)) =~= out0.push((e.0@, e.1@)));
            match archive_entries_from(sources@.skip(i + 1), seen0.push(name@)) {
                Ok(rest) => {
                    assert(out0 + (seq![(s.path@, name@)] + rest) =~= out0.push((e.0@, e.1@)) + rest);
                },
                Err(_) => {},
            }
        }
        seen.push(name);
        out.push(e);
        i = i + 1;
    }
    proof {
        assert(sources@.skip(i as int) =~= seq![]);
        assert(pairs_view(out@) + seq![] =~= pairs_view(out@));
    }
    Ok(out)
}

// ───────────────────────────── text normalisation ─────────────────────────────

/// `str::lines`: pieces between newlines, without a last empty piece, each
/// without a trailing carriage return.
pub open spec fn lines(s: Seq<char>) -> Seq<Seq<char>> {
    let parts = split_char(s, '\n');
    let parts = if parts.last().len() == 0 {
        parts.drop_last()
    } else {
        parts
    };
    parts.map_values(|l: Seq<char>| strip_cr(l))
}

pub open spec fn strip_cr(l: Seq<char>) -> Seq<char> {
    if l.len() > 0 && l.last() == '\r' {
        l.drop_last()
    } else {
        l
    }
}

/// A line without its Markdown heading marks and list bullet.
pub open spec fn strip_markdown_line(line: Seq<char>) -> Seq<char> {
    let t = trim(line);
    if t.len() == 0 {
        seq![]
    } else {
        let h = trim(crate::text::trim_start_char(t, '#'));
        if "- "@.is_prefix_of(h) || "* "@.is_prefix_of(h) || "+ "@.is_prefix_of(h) {
            h.skip(2)
        } else {
            h
        }
    }
}

/// Text after the typographic and mojibake replacements, in order.
pub open spec fn typography_fixed(s: Seq<char>) -> Seq<char> {
    let s = replace(s, "\r\n"@, "\n"@);
    let s = replace(s, "\r"@, "\n"@);
    let s = replace(s, "â€¢"@, "-"@);
    let s = replace(s, "â€”"@, "-"@);
    let s = replace(s, "â€“"@, "-"@);
    let s = replace(s, "â€™"@, "'"@);
    let s = replace(s, "â€œ"@, "\""@);
    let s = replace(s, "â€\u{009d}"@, "\""@);
    let s = replace(s, "â€¦"@, "..."@);
    let s = replace(s, "•"@, "-"@);
    let s = replace(s, "—"@, "-"@);
    let s = replace(s, "–"@, "-"@);
    let s = replace(s, "’"@, "'"@);
    let s = replace(s, "‘"@, "'"@);
    let s = replace(s, "“"@, "\""@);
    let s = replace(s, "”"@, "\""@);
    let s = replace(s, "…"@, "..."@);
    let s = replace(s, "→"@, "->"@);
    let s = replace(s, "←"@, "<-"@);
    let s = replace(s, "**"@, ""@);
    let s = replace(s, "__"@, ""@);
    replace(s, "`"@, ""@)
}

/// Plain text of a document: typography and mojibake repaired, Markdown
/// heading marks, bullets, emphasis and code ticks removed line by line, and
/// the whole trimmed.
pub open spec fn normalized_document_text(s: Seq<char>) -> Seq<char> {
    trim(join(lines(typography_fixed(s)).map_values(|l: Seq<char>| strip_markdown_line(l)), seq!['\n']))
}

fn replace_lit(v: &Vec<char>, pat: &str, rep: &str) -> (r: Vec<char>)
    ensures
        r@ == replace(v@, pat@, rep@),
{
    let p = chars_of(pat);
    if p.len() == 0 {
        return crate::text::slice_vec(v, 0, v.len());
    }
    replace_vec(v, &p, &chars_of(rep))
}

fn typography_fixed_vec(v: &Vec<char>) -> (r: Vec<char>)
    ensures
        r@ == typography_fixed(v@),
{
    let s = replace_lit(v, "\r\n", "\n");
    let s = replace_lit(&s, "\r", "\n");
    let s = replace_lit(&s, "â€¢", "-");
    let s = replace_lit(&s, "â€”", "-");
    let s = replace_lit(&s, "â€“", "-");
    let s = replace_lit(&s, "â€™", "'");
    let s = replace_lit(&s, "â€œ", "\"");
    let s = replace_lit(&s, "â€\u{009d}", "\"");
    let s = replace_lit(&s, "â€¦", "...");
    let s = replace_lit(&s, "•", "-");
    let s = replace_lit(&s, "—", "-");
    let s = replace_lit(&s, "–", "-");
    let s = replace_lit(&s, "’", "'");
    let s = replace_lit(&s, "‘", "'");
    let s = replace_lit(&s, "“", "\"");
    let s = replace_lit(&s, "”", "\"");
    let s = replace_lit(&s, "…", "...");
    let s = replace_lit(&s, "→", "->");
    let s = replace_lit(&s, "←", "<-");
    let s = replace_lit(&s, "**", "");
    let s = replace_lit(&s, "__", "");
    replace_lit(&s, "`", "")
}

fn lines_vec(v: &Vec<char>) -> (r: Vec<Vec<char>>)
    ensures
        views(r@) == lines(v@),
{
    let mut parts = split_vec(v, '\n');
    proof {
        crate::text::lemma_split_nonempty(v@, '\n', seq![]);
    }
    let ghost all = views(parts@);
    if parts[parts.len() - 1].len() == 0 {
        assert(views(parts@).last() == parts@[parts@.len() - 1]@);
        let _ = parts.pop();
        assert(views(parts@) =~= all.drop_last());
    } else {
        assert(views(parts@).last() == parts@[parts@.len() - 1]@);
    }
    let ghost kept = views(parts@);
    let ghost f = |l: Seq<char>| strip_cr(l);
    let mut out: Vec<Vec<char>> = Vec::new();
    let mut i: usize = 0;
    while i < parts.len()
        invariant
            i <= parts.len(),
            kept == views(parts@),
            f == (|l: Seq<char>| strip_cr(l)),
            views(out@) == kept.take(i as int).map_values(f),
        decreases parts.len() - i,
    {
        let l = &parts[i];
        let x = if l.len() > 0 && l[l.len() - 1] == '\r' {
            crate::text::slice_vec(l, 0, l.len() - 1)
        } else {
            crate::text::slice_vec(l, 0, l.len())
        };
        proof {
            assert(kept[i as int] == l@);
            assert(x@ =~= f(l@));
            assert(views(out@.push(x)) =~= views(out@).push(x@));
            assert(kept.take(i + 1).map_values(f) =~= kept.take(i as int).map_values(f).push(f(kept[i as int])));
        }
        out.push(x);
        i = i + 1;
    }
    assert(kept.take(kept.len() as int) =~= kept);
    out
}

fn starts_with_lit(v: &Vec<char>, p: &str) -> (r: bool)
    ensures
        r == p@.is_prefix_of(v@),
{
    crate::text::starts_with(v, &chars_of(p))
}

fn strip_markdown_line_vec(line: &Vec<char>) -> (r: Vec<char>)
    ensures
        r@ == strip_markdown_line(line@),
{
    let t = trim_vec(line);
    if t.len() == 0 {
        let r: Vec<char> = Vec::new();
        assert(r@ =~= seq![]);
        return r;
    }
    let h = trim_vec(&crate::text::trim_start_char_vec(&t, '#'));
    if starts_with_lit(&h, "- ") || starts_with_lit(&h, "* ") || starts_with_lit(&h, "+ ") {
        proof {
            reveal_strlit("- ");
            reveal_strlit("* ");
            reveal_strlit("+ ");
        }
        let r = crate::text::slice_vec(&h, 2, h.len());
        assert(r@ =~= h@.skip(2));
        r
    } else {
        h
    }
}

/// `strip_markdown_line` on a string slice.
pub fn strip_markdown_line_prefix(line: &str) -> (r: String)
    ensures
        r@ == strip_markdown_line(line@),
{
    let r = strip_markdown_line_vec(&chars_of(line));
    string_of(r.as_slice())
}

/// Plain text of a document (see `normalized_document_text`).
pub fn normalize_document_text(input: &str) -> (r: String)
    ensures
        r@ == normalized_document_text(input@),
{
    let fixed = typography_fixed_vec(&chars_of(input));
    let ls = lines_vec(&fixed);
    let ghost lv = views(ls@);
    let ghost f = |l: Seq<char>| strip_markdown_line(l);
    let mut stripped: Vec<Vec<char>> = Vec::new();
    let mut i: usize = 0;
    while i < ls.len()
        invariant
            i <= ls.len(),
            lv == views(ls@),
            f == (|l: Seq<char>| strip_markdown_line(l)),
            views(stripped@) == lv.take(i as int).map_values(f),
        decreases ls.len() - i,
    {
        let x = strip_markdown_line_vec(&ls[i]);
        proof {
            assert(lv[i as int] == ls@[i as int]@);
            assert(views(stripped@.push(x)) =~= views(stripped@).push(x@));
            assert(lv.take(i + 1).map_values(f) =~= lv.take(i as int).map_values(f).push(f(lv[i as int])));
        }
        stripped.push(x);
        i = i + 1;
    }
    assert(lv.take(lv.len() as int) =~= lv);
    let nl = vec!['\n'];
    assert(nl@ =~= seq!['\n']);
    let joined = join_vecs(&stripped, &nl);
    proof {
        crate::text::lemma_map_view_words(stripped@, views(stripped@));
    }
    let t = trim_vec(&joined);
    string_of(t.as_slice())
}

// ───────────────────────────── PDF body lines ─────────────────────────────

/// A PDF body line holds at most this many bytes where it has more than one word.
pub const MAX_PDF_LINE_BYTES: usize = 85;

/// Lines done and the line being filled, after the words `ws`: a word that
/// would make the line longer than 85 bytes (with the space before it)
/// starts a new line.
pub open spec fn wrap_state(ws: Seq<Seq<char>>) -> (Seq<Seq<char>>, Seq<char>)
    decreases ws.len(),
{
    if ws.len() == 0 {
        (seq![], seq![])
    } else {
        let (done, cur) = wrap_state(ws.drop_last());
        let w = ws.last();
        if cur.len() > 0 && crate::executor::utf8_len(cur) + crate::executor::utf8_len(w) + 1 > 85 {
            (done.push(cur), w)
        } else if cur.len() > 0 {
            (done, cur + seq![' '] + w)
        } else {
            (done, w)
        }
    }
}

/// The lines a PDF section's body is laid out in.
pub open spec fn pdf_body_lines(body: Seq<char>) -> Seq<Seq<char>> {
    let (done, cur) = wrap_state(crate::text::words(body));
    if cur.len() > 0 {
        done.push(cur)
    } else {
        done
    }
}

/// The bytes of `v`, or `cap + 1` where there are more than `cap`.
fn capped_utf8_len(v: &Vec<char>, cap: usize) -> (r: usize)
    requires
        cap < 1000,
    ensures
        r == if crate::executor::utf8_len(v@) <= cap { crate::executor::utf8_len(v@) as int } else { cap + 1 },
{
    let mut n: usize = 0;
    let mut i: usize = 0;
    while i < v.len()
        invariant
            i <= v@.len(),
            cap < 1000,
            n == crate::executor::utf8_len(v@.take(i as int)),
            n <= cap,
        decreases v@.len() - i,
    {
        assert(v@.take(i + 1).drop_last() =~= v@.take(i as int));
        n = n + crate::executor::char_width(v[i]);
        i = i + 1;
        if n > cap {
            proof {
                crate::executor::lemma_utf8_len_monotone(v@, i as int, v@.len() as int);
                assert(v@.take(v@.len() as int) =~= v@);
            }
            return cap + 1;
        }
    }
    assert(v@.take(i as int) =~= v@);
    n
}

/// Lays a section's body out in lines: its words, each line filled while
/// it stays within 85 bytes.
pub fn wrap_pdf_body(body: &str) -> (r: Vec<String>)
    ensures
        r@.len() == pdf_body_lines(body@).len(),
        forall|i: int| 0 <= i < r@.len() ==> (#[trigger] r@[i])@ == pdf_body_lines(body@)[i],
{
    let ws = crate::text::words_vec(&chars_of(body));
    let ghost wsv = crate::text::words(body@);
    let mut done: Vec<String> = Vec::new();
    let mut cur: Vec<char> = Vec::new();
    let mut i: usize = 0;
    while i < ws.len()
        invariant
            i <= ws@.len(),
            ws@.len() == wsv.len(),
            forall|k: int| 0 <= k < ws@.len() ==> #[trigger] ws@[k]@ == wsv[k],
            wrap_state(wsv.take(i as int)).1 == cur@,
            wrap_state(wsv.take(i as int)).0.len() == done@.len(),
            forall|k: int| 0 <= k < done@.len() ==> (#[trigger] done@[k])@ == wrap_state(wsv.take(i as int)).0[k],
        decreases ws@.len() - i,
    {
        assert(wsv.take(i + 1).drop_last() =~= wsv.take(i as int));
        assert(wsv.take(i + 1).last() == ws@[i as int]@);
        let w = &ws[i];
        let a = capped_utf8_len(&cur, 86);
        let b = capped_utf8_len(w, 86);
        if cur.len() > 0 && a + b + 1 > 85 {
            let line = crate::text::string_of(cur.as_slice());
            done.push(line);
            cur = w.clone();
        } else if cur.len() > 0 {
            cur.push(' ');
            crate::text::push_all(&mut cur, w);
        } else {
            cur = w.clone();
        }
        i = i + 1;
    }
    assert(wsv.take(i as int) =~= wsv);
    if cur.len() > 0 {
        done.push(crate::text::string_of(cur.as_slice()));
    }
    done
}

} // verus!
