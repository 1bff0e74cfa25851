//! The source annotator: rewrites exactly one line of a file's line
//! sequence, either embedding a freshly assigned issue number into an
//! untracked marker or dropping the line of a cleaned-up marker. Every
//! other line passes through unchanged.

use vstd::prelude::*;

use crate::strings::{
    contains_seq, dec_str, find_from_spec, lemma_replace_contains, match_at, replace_all,
    replace_all_spec, u64_to_string,
};

verus! {

/// The embedded issue reference `(#<n>):`.
pub open spec fn issue_ref(n: int) -> Seq<char> {
    "(#"@ + dec_str(n) + "):"@
}

/// The tracked marker `// TODO (#<n>):` that a tracking rewrite writes in
/// place of the untracked marker `// TODO:`.
pub open spec fn tracking_marker(n: int) -> Seq<char> {
    "// TODO "@ + issue_ref(n)
}

/// The line sequence after a tracking rewrite: the addressed line with
/// every occurrence of the untracked marker replaced, all other lines
/// unchanged. A line number beyond the file leaves it unchanged.
pub open spec fn rewrite_tracking_spec(lines: Seq<Seq<char>>, ln: int, n: int) -> Seq<Seq<char>> {
    if 0 <= ln < lines.len() {
        lines.update(ln, replace_all_spec(lines[ln], "// TODO:"@, tracking_marker(n)))
    } else {
        lines
    }
}

/// The line sequence after a cleanup rewrite: the addressed line omitted,
/// all other lines unchanged. A line number beyond the file leaves it
/// unchanged.
pub open spec fn delete_line_spec(lines: Seq<Seq<char>>, ln: int) -> Seq<Seq<char>> {
    if 0 <= ln < lines.len() {
        lines.remove(ln)
    } else {
        lines
    }
}

/// Builds the tracked marker `// TODO (#<n>):` for an assigned issue
/// number.
fn tracking_marker_string(issue_number: u64) -> (r: String)
    ensures
        r@ == tracking_marker(issue_number as int),
{
    let mut r = "// TODO ".to_owned();
    r.append("(#");
    let num = u64_to_string(issue_number);
    r.append(num.as_str());
    r.append("):");
    proof {
        assert(r@ =~= tracking_marker(issue_number as int));
    }
    r
}

/// The tracking rewrite: replaces the untracked marker on the addressed
/// line with `// TODO (#<issue_number>):`, copying every other line
/// verbatim.
pub fn rewrite_tracking(lines: &Vec<String>, line_number: usize, issue_number: i64) -> (r: Vec<
    String,
>)
    requires
        0 <= issue_number,
    ensures
        r.deep_view() == rewrite_tracking_spec(
            lines.deep_view(),
            line_number as int,
            issue_number as int,
        ),
{
    let ghost target = rewrite_tracking_spec(
        lines.deep_view(),
        line_number as int,
        issue_number as int,
    );
    let marker = tracking_marker_string(issue_number as u64);
    let mut out: Vec<String> = Vec::new();
    let n: usize = lines.len();
    let mut cnt: usize = 0;
    proof {
        assert(out.deep_view() =~= target.take(0));
    }
    while cnt < n
        invariant
            cnt <= n,
            n == lines@.len(),
            target == rewrite_tracking_spec(
                lines.deep_view(),
                line_number as int,
                issue_number as int,
            ),
            target.len() == n,
            marker@ == tracking_marker(issue_number as int),
            out.deep_view() == target.take(cnt as int),
        decreases n - cnt,
    {
        let ghost prev = out.deep_view();
        if cnt == line_number {
            let new_line = replace_all(lines[cnt].as_str(), "// TODO:", marker.as_str());
            proof {
                assert(lines.deep_view()[cnt as int] == lines@[cnt as int]@);
                assert(new_line@ == target[cnt as int]);
            }
            out.push(new_line);
            proof {
                assert(out.deep_view() =~= prev.push(target[cnt as int]));
            }
        } else {
            out.push(lines[cnt].clone());
            proof {
                assert(out.deep_view() =~= prev.push(lines.deep_view()[cnt as int]));
            }
        }
        proof {
            assert(out.deep_view() =~= target.take(cnt + 1));
        }
        cnt = cnt + 1;
    }
    proof {
        assert(target.take(n as int) =~= target);
    }
    out
}

/// The cleanup rewrite: omits the addressed line, copying every other
/// line verbatim.
pub fn rewrite_delete(lines: &Vec<String>, line_number: usize) -> (r: Vec<String>)
    ensures
        r.deep_view() == delete_line_spec(lines.deep_view(), line_number as int),
{
    let ghost target = delete_line_spec(lines.deep_view(), line_number as int);
    let mut out: Vec<String> = Vec::new();
    let n: usize = lines.len();
    let mut cnt: usize = 0;
    while cnt < n
        invariant
            cnt <= n,
            n == lines@.len(),
            target == delete_line_spec(lines.deep_view(), line_number as int),
            out.deep_view() =~= (if cnt <= line_number {
                lines.deep_view().take(cnt as int)
            } else {
                lines.deep_view().take(line_number as int) + lines.deep_view().subrange(
                    line_number + 1,
                    cnt as int,
                )
            }),
        decreases n - cnt,
    {
        let ghost prev = out.deep_view();
        if cnt != line_number {
            out.push(lines[cnt].clone());
            proof {
                assert(out.deep_view() =~= prev.push(lines.deep_view()[cnt as int]));
            }
        }
        cnt = cnt + 1;
    }
    proof {
        if line_number < n {
            assert(out.deep_view() =~= lines.deep_view().remove(line_number as int));
        } else {
            assert(out.deep_view() =~= lines.deep_view());
        }
    }
    out
}

/// The single-line rewrite behind both annotation modes, as one entry
/// point: tracking mode embeds `issue_number`, delete mode omits the
/// line.
pub fn update_lines(
    lines: &Vec<String>,
    line_number: usize,
    issue_number: i64,
    delete: bool,
) -> (r: Vec<String>)
    requires
        0 <= issue_number,
    ensures
        delete ==> r.deep_view() == delete_line_spec(lines.deep_view(), line_number as int),
        !delete ==> r.deep_view() == rewrite_tracking_spec(
            lines.deep_view(),
            line_number as int,
            issue_number as int,
        ),
{
    if delete {
        rewrite_delete(lines, line_number)
    } else {
        rewrite_tracking(lines, line_number, issue_number)
    }
}

/// The message of the commit recorded after a tracking rewrite.
pub open spec fn commit_add_message_spec(n: int) -> Seq<char> {
    "Add TODO #"@ + dec_str(n)
}

/// The message of the commit recorded after a cleanup rewrite.
pub open spec fn commit_delete_message_spec(n: int) -> Seq<char> {
    "Remove TODO #"@ + dec_str(n)
}

/// Builds the commit message for an annotated TODO.
pub fn commit_add_message(issue_number: i64) -> (r: String)
    requires
        0 <= issue_number,
    ensures
        r@ == commit_add_message_spec(issue_number as int),
{
    let mut r = "Add TODO #".to_owned();
    let num = u64_to_string(issue_number as u64);
    r.append(num.as_str());
    r
}

/// Builds the commit message for a removed TODO.
pub fn commit_delete_message(issue_number: u16) -> (r: String)
    ensures
        r@ == commit_delete_message_spec(issue_number as int),
{
    let mut r = "Remove TODO #".to_owned();
    let num = u64_to_string(issue_number as u64);
    r.append(num.as_str());
    r
}

/// Annotator line-locality: after a tracking rewrite every line except
/// the addressed one is identical to its input, the line count is
/// unchanged, and — when the addressed line carries the literal untracked
/// marker — the rewritten line contains the literal `(#<n>):` with the
/// assigned number.
pub proof fn lemma_tracking_line_locality(lines: Seq<Seq<char>>, ln: int, n: int)
    requires
        0 <= ln < lines.len(),
        0 <= n,
    ensures
        rewrite_tracking_spec(lines, ln, n).len() == lines.len(),
        forall|k: int|
            0 <= k < lines.len() && k != ln ==> rewrite_tracking_spec(lines, ln, n)[k] == lines[k],
        find_from_spec(lines[ln], "// TODO:"@, 0) is Some ==> contains_seq(
            rewrite_tracking_spec(lines, ln, n)[ln],
            issue_ref(n),
        ),
{
    if find_from_spec(lines[ln], "// TODO:"@, 0) is Some {
        reveal_strlit("// TODO:");
        lemma_replace_contains(lines[ln], "// TODO:"@, tracking_marker(n));
        let r = replace_all_spec(lines[ln], "// TODO:"@, tracking_marker(n));
        let i = choose|i: int| match_at(r, tracking_marker(n), i);
        assert(match_at(tracking_marker(n), issue_ref(n), "// TODO "@.len() as int)) by {
            reveal_strlit("// TODO ");
        }
        assert forall|k: int| 0 <= k < issue_ref(n).len() implies r[i + "// TODO "@.len() + k]
            == issue_ref(n)[k] by {
            assert(r[i + ("// TODO "@.len() + k)] == tracking_marker(n)["// TODO "@.len() + k]);
        }
        assert(match_at(r, issue_ref(n), i + "// TODO "@.len()));
    }
}

} // verus!
