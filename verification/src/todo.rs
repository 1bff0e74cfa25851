//! The `Todo` record and the comment scanner: recognizing the two marker
//! shapes `// TODO: <title>` and `// TODO (#<n>): <title>` in source lines.

use vstd::prelude::*;

use crate::strings::{
    dec_str, digits_val, digits_value_u16, is_digit_char, is_match_at, lemma_rfind_char,
    lemma_skip_digits_bounds, match_at, rfind_char, rfind_char_exec, skip_digits,
    skip_digits_spec, skip_spaces, skip_spaces_spec, str_eq, u64_to_string,
};

verus! {

/// One TODO comment occurrence in a scanned source file.
/// `issue_number == 0` means the comment is not yet linked to a tracker
/// issue; any positive value is the embedded tracker issue id.
#[derive(Clone, Debug, PartialEq, Eq)]
pub struct Todo {
    pub file_path: String,
    pub line_number: usize,
    pub title: String,
    pub issue_number: u16,
}

pub ghost struct TodoView {
    pub file_path: Seq<char>,
    pub line_number: int,
    pub title: Seq<char>,
    pub issue_number: int,
}

impl View for Todo {
    type V = TodoView;

    open spec fn view(&self) -> TodoView {
        TodoView {
            file_path: self.file_path@,
            line_number: self.line_number as int,
            title: self.title@,
            issue_number: self.issue_number as int,
        }
    }
}

impl DeepView for Todo {
    type V = TodoView;

    open spec fn deep_view(&self) -> TodoView {
        self.view()
    }
}

impl Todo {
    /// A structurally equal copy, usable in verified code (the derived
    /// `Clone` carries no specification).
    pub fn duplicate(&self) -> (r: Todo)
        ensures
            r@ == self@,
    {
        Todo {
            file_path: self.file_path.clone(),
            line_number: self.line_number,
            title: self.title.clone(),
            issue_number: self.issue_number,
        }
    }

    /// The one-line diagnostic form
    /// `<path>:<line>: TODO: <title>` or
    /// `<path>:<line>: TODO (#<n>): <title>`, with the line shown
    /// one-based.
    pub fn describe(&self) -> (r: String)
        requires
            self.line_number < usize::MAX,
        ensures
            r@ == describe_spec(self@),
    {
        let mut r = self.file_path.clone();
        r.append(":");
        let line = u64_to_string((self.line_number + 1) as u64);
        r.append(line.as_str());
        if self.issue_number == 0 {
            r.append(": TODO: ");
            r.append(self.title.as_str());
        } else {
            r.append(": TODO (#");
            let num = u64_to_string(self.issue_number as u64);
            r.append(num.as_str());
            r.append("): ");
            r.append(self.title.as_str());
        }
        r
    }
}

/// The diagnostic form of a `Todo`, line number shown one-based.
pub open spec fn describe_spec(t: TodoView) -> Seq<char> {
    if t.issue_number == 0 {
        t.file_path + ":"@ + dec_str(t.line_number + 1) + ": TODO: "@ + t.title
    } else {
        t.file_path + ":"@ + dec_str(t.line_number + 1) + ": TODO (#"@ + dec_str(t.issue_number)
            + "): "@ + t.title
    }
}

/// The parse of one source line against the marker grammar.
///
/// A line matches the untracked shape when it consists of optional
/// whitespace, `//`, at least one whitespace character, `TODO:`, at least
/// one whitespace character, and the title (the literal rest of the line).
/// The tracked shape has `TODO (#<digits>):` in place of `TODO:`. The
/// result is the embedded issue number (`0` for the untracked shape) and
/// the title; a tracked line whose number does not fit in a `u16` does not
/// match.
pub open spec fn parse_line_spec(s: Seq<char>) -> Option<(int, Seq<char>)> {
    let i = skip_spaces_spec(s, 0);
    if !match_at(s, "//"@, i) {
        None
    } else {
        let k = skip_spaces_spec(s, i + "//"@.len());
        if k == i + "//"@.len() {
            None
        } else if match_at(s, "TODO:"@, k) {
            let m = skip_spaces_spec(s, k + "TODO:"@.len());
            if m == k + "TODO:"@.len() {
                None
            } else {
                Some((0, s.skip(m)))
            }
        } else if match_at(s, "TODO (#"@, k) {
            let d = k + "TODO (#"@.len();
            let e = skip_digits_spec(s, d);
            if e == d || !match_at(s, "):"@, e) {
                None
            } else {
                let m = skip_spaces_spec(s, e + "):"@.len());
                if m == e + "):"@.len() {
                    None
                } else {
                    let v = digits_val(s.subrange(d, e));
                    if v > u16::MAX {
                        None
                    } else {
                        Some((v, s.skip(m)))
                    }
                }
            }
        } else {
            None
        }
    }
}

/// Scans one line; `Some` exactly when the line matches the marker
/// grammar, carrying the given file path and line number.
pub fn parse_line(file_path: &str, line_number: usize, line: &str) -> (r: Option<Todo>)
    ensures
        (r is Some) == (parse_line_spec(line@) is Some),
        r is Some ==> r.unwrap()@.file_path == file_path@ && r.unwrap()@.line_number
            == line_number as int && r.unwrap()@.issue_number == parse_line_spec(
            line@,
        )->Some_0.0 && r.unwrap()@.title == parse_line_spec(line@)->Some_0.1,
{
    let n: usize = line.unicode_len();
    let i: usize = skip_spaces(line, 0, n);
    let sl = "//";
    let m_sl: usize = sl.unicode_len();
    if !is_match_at(line, sl, i, n, m_sl) {
        return None;
    }
    let k: usize = skip_spaces(line, i + m_sl, n);
    if k == i + m_sl {
        return None;
    }
    let tag = "TODO:";
    let m_tag: usize = tag.unicode_len();
    let seen = "TODO (#";
    let m_seen: usize = seen.unicode_len();
    if is_match_at(line, tag, k, n, m_tag) {
        let m0: usize = skip_spaces(line, k + m_tag, n);
        if m0 == k + m_tag {
            return None;
        }
        let title = line.substring_char(m0, n).to_owned();
        proof {
            assert(title@ =~= line@.skip(m0 as int));
        }
        return Some(
            Todo { file_path: file_path.to_owned(), line_number, title, issue_number: 0 },
        );
    }
    if !is_match_at(line, seen, k, n, m_seen) {
        return None;
    }
    let d: usize = k + m_seen;
    let e: usize = skip_digits(line, d, n);
    if e == d {
        return None;
    }
    let close = "):";
    let m_close: usize = close.unicode_len();
    if !is_match_at(line, close, e, n, m_close) {
        return None;
    }
    let m0: usize = skip_spaces(line, e + m_close, n);
    if m0 == e + m_close {
        return None;
    }
    proof {
        lemma_skip_digits_bounds(line@, d as int);
    }
    let number = digits_value_u16(line, d, e);
    match number {
        Some(v) => {
            let title = line.substring_char(m0, n).to_owned();
            proof {
                assert(title@ =~= line@.skip(m0 as int));
            }
            Some(Todo { file_path: file_path.to_owned(), line_number, title, issue_number: v })
        },
        None => None,
    }
}

/// The todos found in the first `upto` lines of one file, in line order.
pub open spec fn todos_of_lines(path: Seq<char>, lines: Seq<Seq<char>>, upto: int) -> Seq<TodoView>
    decreases upto,
{
    if upto <= 0 {
        Seq::empty()
    } else {
        let prev = todos_of_lines(path, lines, upto - 1);
        match parse_line_spec(lines[upto - 1]) {
            Some(p) => prev.push(
                TodoView {
                    file_path: path,
                    line_number: upto - 1,
                    title: p.1,
                    issue_number: p.0,
                },
            ),
            None => prev,
        }
    }
}

/// Scans the lines of one source file, in line order.
pub fn get_todos_from_source_code_file(source_file: &str, lines: &Vec<String>) -> (r: Vec<Todo>)
    ensures
        r.deep_view() == todos_of_lines(source_file@, lines.deep_view(), lines@.len() as int),
{
    let mut todos: Vec<Todo> = Vec::new();
    let mut cnt: usize = 0;
    proof {
        assert(todos.deep_view() =~= todos_of_lines(
            source_file@,
            lines.deep_view(),
            0,
        ));
    }
    while cnt < lines.len()
        invariant
            cnt <= lines@.len(),
            todos.deep_view() == todos_of_lines(source_file@, lines.deep_view(), cnt as int),
        decreases lines@.len() - cnt,
    {
        let result = parse_line(source_file, cnt, lines[cnt].as_str());
        match result {
            Some(todo) => {
                let ghost prev = todos.deep_view();
                todos.push(todo);
                proof {
                    assert(todos.deep_view() =~= prev.push(todo@));
                }
            },
            None => {},
        }
        cnt = cnt + 1;
    }
    todos
}

/// The extension of a scanned file name: the text after the final `.` of
/// its last `/`-separated segment. A segment without a `.`, or with only
/// a leading one (a hidden file), has none.
pub open spec fn ext_of(name: Seq<char>) -> Option<Seq<char>> {
    let base = match rfind_char(name, '/') {
        Some(i) => name.skip(i + 1),
        None => name,
    };
    let rest = if base.len() > 0 && base[0] == '.' {
        base.skip(1)
    } else {
        base
    };
    match rfind_char(rest, '.') {
        None => None,
        Some(j) => Some(rest.skip(j + 1)),
    }
}

/// The extension of a file name, if it has one.
pub fn file_extension(name: &str) -> (r: Option<String>)
    ensures
        (r is Some) == (ext_of(name@) is Some),
        r is Some ==> r.unwrap()@ == ext_of(name@).unwrap(),
{
    let n: usize = name.unicode_len();
    let slash = rfind_char_exec(name, '/', n);
    proof {
        lemma_rfind_char(name@, '/');
    }
    let base_start: usize = match slash {
        Some(i) => i + 1,
        None => 0,
    };
    let ghost base = name@.skip(base_start as int);
    proof {
        if slash is None {
            assert(base =~= name@);
        }
    }
    let rest_start: usize = if base_start < n && name.get_char(base_start) == '.' {
        base_start + 1
    } else {
        base_start
    };
    let ghost rest = name@.skip(rest_start as int);
    proof {
        if base_start < n && name@[base_start as int] == '.' {
            assert(base[0] == '.');
            assert(base.skip(1) =~= rest);
        } else {
            if base_start < n {
                assert(base.len() > 0 && base[0] != '.');
            } else {
                assert(base.len() == 0);
            }
        }
    }
    let rest_str = name.substring_char(rest_start, n);
    proof {
        assert(rest_str@ =~= rest);
    }
    let dot = rfind_char_exec(rest_str, '.', n - rest_start);
    proof {
        lemma_rfind_char(rest, '.');
    }
    match dot {
        None => None,
        Some(j) => {
            let ext = name.substring_char(rest_start + j + 1, n).to_owned();
            proof {
                assert(ext@ =~= rest.skip(j + 1));
            }
            Some(ext)
        },
    }
}

/// Some entry of the list equals this string.
pub open spec fn contains_str(l: Seq<Seq<char>>, s: Seq<char>) -> bool {
    exists|i: int| 0 <= i < l.len() && l[i] == s
}

fn contains_string(l: &Vec<String>, s: &str) -> (r: bool)
    ensures
        r == contains_str(l.deep_view(), s@),
{
    let n: usize = l.len();
    let mut i: usize = 0;
    while i < n
        invariant
            i <= n,
            n == l@.len(),
            forall|k: int| 0 <= k < i ==> l.deep_view()[k] != s@,
        decreases n - i,
    {
        if str_eq(l[i].as_str(), s) {
            assert(l.deep_view()[i as int] == s@);
            return true;
        }
        i = i + 1;
    }
    false
}

/// A file is scanned unless its extension is in the ignore list.
pub open spec fn keep_file(name: Seq<char>, ignored: Seq<Seq<char>>) -> bool {
    match ext_of(name) {
        None => true,
        Some(e) => !contains_str(ignored, e),
    }
}

/// The kept files of the first `upto` names, each prefixed with the
/// working directory, in enumeration order.
pub open spec fn files_to_scan_spec(
    dir: Seq<char>,
    files: Seq<Seq<char>>,
    ignored: Seq<Seq<char>>,
    upto: int,
) -> Seq<Seq<char>>
    decreases upto,
{
    if upto <= 0 {
        Seq::empty()
    } else {
        let prev = files_to_scan_spec(dir, files, ignored, upto - 1);
        if keep_file(files[upto - 1], ignored) {
            prev.push(dir + "/"@ + files[upto - 1])
        } else {
            prev
        }
    }
}

/// Filters an enumerated file list against the ignored extensions and
/// prefixes each kept name with the working directory.
pub fn source_files_to_scan(
    current_dir: &str,
    files: &Vec<String>,
    ignored_extensions: &Vec<String>,
) -> (r: Vec<String>)
    ensures
        r.deep_view() == files_to_scan_spec(
            current_dir@,
            files.deep_view(),
            ignored_extensions.deep_view(),
            files@.len() as int,
        ),
{
    let mut out: Vec<String> = Vec::new();
    let n: usize = files.len();
    let mut i: usize = 0;
    proof {
        assert(out.deep_view() =~= files_to_scan_spec(
            current_dir@,
            files.deep_view(),
            ignored_extensions.deep_view(),
            0,
        ));
    }
    while i < n
        invariant
            i <= n,
            n == files@.len(),
            out.deep_view() == files_to_scan_spec(
                current_dir@,
                files.deep_view(),
                ignored_extensions.deep_view(),
                i as int,
            ),
        decreases n - i,
    {
        let name = &files[i];
        let keep = match file_extension(name.as_str()) {
            None => true,
            Some(ext) => !contains_string(ignored_extensions, ext.as_str()),
        };
        if keep {
            let mut path = current_dir.to_owned();
            path.append("/");
            path.append(name.as_str());
            let ghost prev = out.deep_view();
            out.push(path);
            proof {
                assert(out.deep_view() =~= prev.push(path@));
            }
        }
        i = i + 1;
    }
    out
}

/// One scanned file: its path and its lines, as read from disk.
pub struct SourceFile {
    pub path: String,
    pub lines: Vec<String>,
}

pub ghost struct SourceFileView {
    pub path: Seq<char>,
    pub lines: Seq<Seq<char>>,
}

impl View for SourceFile {
    type V = SourceFileView;

    open spec fn view(&self) -> SourceFileView {
        SourceFileView { path: self.path@, lines: self.lines.deep_view() }
    }
}

impl DeepView for SourceFile {
    type V = SourceFileView;

    open spec fn deep_view(&self) -> SourceFileView {
        self.view()
    }
}

/// The todos of the first `upto` files, in file order then line order.
pub open spec fn todos_of_files(files: Seq<SourceFileView>, upto: int) -> Seq<TodoView>
    decreases upto,
{
    if upto <= 0 {
        Seq::empty()
    } else {
        todos_of_files(files, upto - 1) + todos_of_lines(
            files[upto - 1].path,
            files[upto - 1].lines,
            files[upto - 1].lines.len() as int,
        )
    }
}

/// Scans every given file, keeping file order and line order.
pub fn get_all_todos_from_source_code_files(source_files: &Vec<SourceFile>) -> (r: Vec<Todo>)
    ensures
        r.deep_view() == todos_of_files(source_files.deep_view(), source_files@.len() as int),
{
    let mut all_todos: Vec<Todo> = Vec::new();
    let mut idx: usize = 0;
    proof {
        assert(all_todos.deep_view() =~= todos_of_files(source_files.deep_view(), 0));
    }
    while idx < source_files.len()
        invariant
            idx <= source_files@.len(),
            all_todos.deep_view() == todos_of_files(source_files.deep_view(), idx as int),
        decreases source_files@.len() - idx,
    {
        let file = &source_files[idx];
        let ghost prev = all_todos.deep_view();
        let mut todos = get_todos_from_source_code_file(file.path.as_str(), &file.lines);
        let ghost scanned = todos.deep_view();
        all_todos.append(&mut todos);
        proof {
            assert(all_todos.deep_view() =~= prev + scanned);
            assert(source_files.deep_view()[idx as int] == source_files@[idx as int].deep_view());
        }
        idx = idx + 1;
    }
    all_todos
}

} // verus!
