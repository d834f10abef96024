//! Reading a file for the model: CSV files as a Markdown table, other files
//! as numbered lines.

use crate::text::{
    chars_of, decimal, decimal_string, join, join_strings, pad_left, pad_left_string, str_equal, views,
};
use vstd::prelude::*;
use vstd::string::*;

verus! {

/// What to read: the path and, for text files, the lines `start_line..=end_line`
/// counted from 1 (a negative `end_line` reads to the end).
#[derive(Debug, Clone)]
pub struct ReadFileArgs {
    pub file_path: String,
    pub start_line: usize,
    pub end_line: i64,
}

/// Why a file could not be shown.
#[derive(Debug, Clone)]
pub enum ReadFileError {
    /// The path does not exist.
    NotFound(String),
    /// The CSV reader rejected the file; the reader's message.
    Csv(String),
}

impl ReadFileError {
    /// The message of the error.
    pub fn message(&self) -> (r: String)
        ensures
            match self {
                ReadFileError::NotFound(p) => r@ == "File not found: "@ + p@,
                ReadFileError::Csv(m) => r@ == m@,
            },
    {
        match self {
            ReadFileError::NotFound(p) => {
                let mut m = String::from_str("File not found: ");
                m.append(p.as_str());
                m
            },
            ReadFileError::Csv(m) => m.clone(),
        }
    }
}

/// The extension that `std::path::Path::extension` finds in `path`.
pub uninterp spec fn path_extension_of(path: Seq<char>) -> Option<Seq<char>>;

/// The header row and the records that the `csv` crate reads from `text`
/// (first row as headers, every record as long as the header row); `None`
/// when the reader reports an error.
pub uninterp spec fn csv_table(text: Seq<char>) -> Option<(Seq<Seq<char>>, Seq<Seq<Seq<char>>>)>;

/// Calls `std::path::Path::extension` on `path` and converts the extension
/// with `OsStr::to_str`. The result is named by `path_extension_of`.
#[verifier::external_body]
fn path_extension(path: &str) -> (r: Option<String>)
    ensures
        crate::json::opt_view(r) == path_extension_of(path@),
{
    std::path::Path::new(path).extension().and_then(|e| e.to_str()).map(str::to_string)
}

/// The views of rows of fields.
pub open spec fn rows_view(rows: Seq<Vec<String>>) -> Seq<Seq<Seq<char>>> {
    rows.map_values(|r: Vec<String>| views(r@))
}

/// Reads `text` with `csv::Reader::from_reader`, taking `headers` and then
/// every record from `records`. The table is named by `csv_table`; on an
/// error the reader's message is returned, and nothing is promised of it.
#[verifier::external_body]
fn parse_csv(text: &str) -> (r: Result<(Vec<String>, Vec<Vec<String>>), String>)
    ensures
        r is Ok <==> csv_table(text@) is Some,
        r matches Ok((h, rows)) ==> csv_table(text@) == Some((views(h@), rows_view(rows@))),
{
    let mut reader = csv::Reader::from_reader(text.as_bytes());
    let headers: Vec<String> = match reader.headers() {
        Ok(h) => h.iter().map(str::to_string).collect(),
        Err(e) => return Err(e.to_string()),
    };
    let mut rows: Vec<Vec<String>> = Vec::new();
    for record in reader.records() {
        match record {
            Ok(rec) => rows.push(rec.iter().map(str::to_string).collect()),
            Err(e) => return Err(e.to_string()),
        }
    }
    Ok((headers, rows))
}

/// The lines of `s[begin..]`, scanning from `i`: each `\n` ends a line (a
/// `\r` before it is dropped), and text after the last `\n` is a last line.
pub open spec fn lines_from(s: Seq<char>, i: int, begin: int) -> Seq<Seq<char>>
    decreases s.len() - i,
{
    if i >= s.len() {
        if begin < s.len() {
            seq![s.subrange(begin, s.len() as int)]
        } else {
            Seq::empty()
        }
    } else if s[i] == '\n' {
        seq![strip_cr(s.subrange(begin, i))] + lines_from(s, i + 1, i + 1)
    } else {
        lines_from(s, i + 1, begin)
    }
}

/// The lines of `s` as `str::lines` yields them.
pub open spec fn split_lines(s: Seq<char>) -> Seq<Seq<char>> {
    lines_from(s, 0, 0)
}

/// `line` without one trailing `\r`.
pub open spec fn strip_cr(line: Seq<char>) -> Seq<char> {
    if line.len() > 0 && line.last() == '\r' {
        line.drop_last()
    } else {
        line
    }
}

/// One numbered line: the number right-aligned in four columns.
pub open spec fn numbered_line(number: nat, line: Seq<char>) -> Seq<char> {
    pad_left(decimal(number), 4) + " | "@ + line + "\n"@
}

/// The lines `start..end` of `lines`, each numbered with its position from 1.
pub open spec fn numbered_lines(lines: Seq<Seq<char>>, start: int, end: int) -> Seq<char>
    decreases end - start,
{
    if start >= end {
        Seq::empty()
    } else {
        numbered_lines(lines, start, end - 1) + numbered_line(end as nat, lines[end - 1])
    }
}

/// The first line index shown.
pub open spec fn start_index(start_line: usize) -> int {
    if start_line >= 1 {
        start_line - 1
    } else {
        0
    }
}

/// The end (exclusive) of the lines shown.
pub open spec fn end_index(end_line: i64, count: int) -> int {
    if end_line < 0 {
        count
    } else if (end_line as usize) < count {
        end_line as usize as int
    } else {
        count
    }
}

/// The numbered text shown for a text file.
pub open spec fn numbered_text(content: Seq<char>, start_line: usize, end_line: i64) -> Seq<char> {
    let lines = split_lines(content);
    let start = start_index(start_line);
    let end = end_index(end_line, lines.len() as int);
    if start <= end {
        numbered_lines(lines, start, end)
    } else {
        Seq::empty()
    }
}

proof fn lemma_numbered_lines_front(lines: Seq<Seq<char>>, start: int, end: int)
    requires
        0 <= start < end,
    ensures
        numbered_lines(lines, start, end) == numbered_line((start + 1) as nat, lines[start])
            + numbered_lines(lines, start + 1, end),
    decreases end - start,
{
    if start + 1 < end {
        lemma_numbered_lines_front(lines, start, end - 1);
        assert(numbered_lines(lines, start, end) =~= numbered_line((start + 1) as nat, lines[start])
            + numbered_lines(lines, start + 1, end));
    } else {
        assert(numbered_lines(lines, start + 1, end) =~= Seq::<char>::empty());
        assert(numbered_lines(lines, start, end - 1) =~= Seq::<char>::empty());
    }
}

/// Reading from line `start_line` (counted from 1) shows that line first,
/// numbered `start_line` and right-aligned in four columns, then reads on from
/// the next line; past the last line to show (the end of the file for a
/// negative `end_line`, else `end_line` or the end of the file, whichever
/// comes first) it shows nothing. Reading to the end with a negative
/// `end_line` shows what reading up to the last line does.
pub proof fn law_reading_starts_at_start_line(content: Seq<char>, start_line: usize, end_line: i64)
    requires
        1 <= start_line < usize::MAX,
        end_line <= usize::MAX,
        split_lines(content).len() <= usize::MAX,
    ensures
        ({
            let lines = split_lines(content);
            let last = if end_line < 0 {
                lines.len() as int
            } else if end_line as int <= lines.len() {
                end_line as int
            } else {
                lines.len() as int
            };
            &&& start_line > last ==> numbered_text(content, start_line, end_line) == Seq::<char>::empty()
            &&& start_line <= last ==> numbered_text(content, start_line, end_line) == pad_left(
                decimal(start_line as nat),
                4,
            ) + " | "@ + lines[start_line - 1] + "\n"@ + numbered_text(
                content,
                (start_line + 1) as usize,
                end_line,
            )
            &&& end_line < 0 && lines.len() <= i64::MAX ==> numbered_text(content, start_line, end_line)
                == numbered_text(content, start_line, lines.len() as i64)
        }),
{
    let lines = split_lines(content);
    let n = lines.len() as int;
    let e = end_index(end_line, n);
    if end_line >= 0 {
        assert(end_line as usize as int == end_line as int);
    }
    if n <= i64::MAX {
        assert(n as i64 as usize as int == n);
        assert(end_index(n as i64, n) == n);
    }
    if (start_line as int) <= e {
        lemma_numbered_lines_front(lines, start_line - 1, e);
        assert(start_index(start_line) == start_line - 1);
        assert(start_index((start_line + 1) as usize) == start_line as int);
        if start_line as int == e {
            assert(numbered_lines(lines, start_line as int, start_line as int) =~= Seq::<char>::empty());
        }
    }
}

/// One Markdown table row.
pub open spec fn table_row(fields: Seq<Seq<char>>) -> Seq<char> {
    "| "@ + join(fields, " | "@) + " |\n"@
}

/// The Markdown rows for the records `rows[..n]`.
pub open spec fn table_rows(rows: Seq<Seq<Seq<char>>>, n: int) -> Seq<char>
    decreases n,
{
    if n <= 0 {
        Seq::empty()
    } else {
        table_rows(rows, n - 1) + table_row(rows[n - 1])
    }
}

/// `|` followed by `---|` once per column.
pub open spec fn separator_row(columns: nat) -> Seq<char>
    decreases columns,
{
    if columns == 0 {
        "|"@
    } else {
        separator_row((columns - 1) as nat) + "---|"@
    }
}

/// A CSV table as Markdown: the header row, the separator and one row per record.
pub open spec fn markdown_table(headers: Seq<Seq<char>>, rows: Seq<Seq<Seq<char>>>) -> Seq<char> {
    table_row(headers) + separator_row(headers.len()) + "\n"@ + table_rows(rows, rows.len() as int)
}

/// The lines of `s`.
pub fn lines_of(s: &str) -> (r: Vec<String>)
    ensures
        views(r@) == split_lines(s@),
{
    let cs = chars_of(s);
    let n = cs.len();
    let mut out: Vec<String> = Vec::new();
    let mut begin: usize = 0;
    let mut i: usize = 0;
    while i < n
        invariant
            cs@ == s@,
            n == s@.len(),
            begin <= i <= n,
            split_lines(s@) == views(out@) + lines_from(s@, i as int, begin as int),
        decreases n - i,
    {
        if cs[i] == '\n' {
            let mut end = i;
            if end > begin && cs[end - 1] == '\r' {
                end = end - 1;
            }
            let piece = s.substring_char(begin, end);
            let ghost before = views(out@);
            out.push(String::from_str(piece));
            proof {
                assert(strip_cr(s@.subrange(begin as int, i as int)) =~= s@.subrange(begin as int, end as int));
                assert(views(out@) =~= before.push(s@.subrange(begin as int, end as int)));
                assert(views(out@) + lines_from(s@, i + 1, i + 1) =~= before + lines_from(s@, i as int, begin as int));
            }
            begin = i + 1;
        }
        i = i + 1;
    }
    if begin < n {
        let piece = s.substring_char(begin, n);
        let ghost before = views(out@);
        out.push(String::from_str(piece));
        proof {
            assert(views(out@) =~= before + lines_from(s@, n as int, begin as int));
        }
    } else {
        proof {
            assert(views(out@) + lines_from(s@, n as int, begin as int) =~= views(out@));
        }
    }
    out
}

fn numbered_line_string(number: usize, line: &str) -> (r: String)
    ensures
        r@ == numbered_line(number as nat, line@),
{
    let d = decimal_string(number);
    let mut t = pad_left_string(d.as_str(), 4);
    t.append(" | ");
    t.append(line);
    t.append("\n");
    t
}

/// The lines of `content` from `start_line` to `end_line`, numbered.
pub fn number_lines(content: &str, start_line: usize, end_line: i64) -> (r: String)
    ensures
        r@ == numbered_text(content@, start_line, end_line),
{
    let lines = lines_of(content);
    let count = lines.len();
    let start = if start_line >= 1 {
        start_line - 1
    } else {
        0
    };
    let end = if end_line < 0 {
        count
    } else if (end_line as usize) < count {
        end_line as usize
    } else {
        count
    };
    let mut out = String::new();
    if start <= end {
        let mut i = start;
        while i < end
            invariant
                start <= i <= end <= count,
                count == lines@.len(),
                out@ == numbered_lines(views(lines@), start as int, i as int),
            decreases end - i,
        {
            let piece = numbered_line_string(i + 1, lines[i].as_str());
            out.append(piece.as_str());
            i = i + 1;
        }
    }
    out
}

fn separator_string(columns: usize) -> (r: String)
    ensures
        r@ == separator_row(columns as nat),
{
    let mut t = String::from_str("|");
    let mut i: usize = 0;
    while i < columns
        invariant
            i <= columns,
            t@ == separator_row(i as nat),
        decreases columns - i,
    {
        t.append("---|");
        i = i + 1;
    }
    t
}

fn table_row_string(fields: &Vec<String>) -> (r: String)
    ensures
        r@ == table_row(views(fields@)),
{
    let mut t = String::from_str("| ");
    let j = join_strings(fields, " | ");
    t.append(j.as_str());
    t.append(" |\n");
    t
}

/// A CSV table rendered as Markdown.
pub fn markdown_from_table(headers: &Vec<String>, rows: &Vec<Vec<String>>) -> (r: String)
    ensures
        r@ == markdown_table(views(headers@), rows_view(rows@)),
{
    let mut t = table_row_string(headers);
    let sep = separator_string(headers.len());
    t.append(sep.as_str());
    t.append("\n");
    let ghost head = t@;
    let mut i: usize = 0;
    while i < rows.len()
        invariant
            i <= rows@.len(),
            t@ == head + table_rows(rows_view(rows@), i as int),
        decreases rows.len() - i,
    {
        let r = table_row_string(&rows[i]);
        t.append(r.as_str());
        i = i + 1;
    }
    t
}

/// The text shown for a file. `file_text` is the file's content, or `None`
/// when the path does not exist. A file whose extension is `csv` is shown as
/// a Markdown table; any other as its numbered lines.
pub fn read(args: &ReadFileArgs, file_text: Option<String>) -> (r: Result<String, ReadFileError>)
    ensures
        match file_text {
            None => r matches Err(ReadFileError::NotFound(p)) && p@ == args.file_path@,
            Some(text) => if path_extension_of(args.file_path@) == Some("csv"@) {
                match csv_table(text@) {
                    Some((h, rows)) => r matches Ok(t) && t@ == markdown_table(h, rows),
                    None => r matches Err(ReadFileError::Csv(_)),
                }
            } else {
                r matches Ok(t) && t@ == numbered_text(text@, args.start_line, args.end_line)
            },
        },
{
    let text = match file_text {
        Some(t) => t,
        None => {
            return Err(ReadFileError::NotFound(args.file_path.clone()));
        },
    };
    let is_csv = match path_extension(args.file_path.as_str()) {
        Some(ext) => str_equal(ext.as_str(), "csv"),
        None => false,
    };
    if is_csv {
        match parse_csv(text.as_str()) {
            Ok((headers, rows)) => Ok(markdown_from_table(&headers, &rows)),
            Err(m) => Err(ReadFileError::Csv(m)),
        }
    } else {
        Ok(number_lines(text.as_str(), args.start_line, args.end_line))
    }
}

} // verus!
