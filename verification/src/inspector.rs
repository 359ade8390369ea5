//! Pure queries over captured version-control output.  Every function here
//! works on text the host already collected; which invocation produces that
//! text is the engine's affair.

use vstd::prelude::*;

use crate::text::{
    contains_seq, get_output_lines, lemma_rfind_char, lines_of, rfind_char, rfind_char_exec,
    str_contains,
};

verus! {

/// A working copy has unstaged changes exactly when `status --porcelain`
/// printed anything.
pub fn has_unstaged_changes(status_stdout: &str) -> (r: bool)
    ensures
        r == (status_stdout@.len() > 0),
{
    !status_stdout.is_empty()
}

/// Worktree layout detection: the first line of `worktree list` output names
/// the bare root, annotated with the literal token `(bare)`.
pub open spec fn spec_has_worktrees(stdout: Seq<char>) -> bool {
    let lines = lines_of(stdout);
    lines.len() > 0 && contains_seq(lines[0], "(bare)"@)
}

/// Whether `worktree list` output shows a bare repository with worktrees.
pub fn has_worktrees(worktree_stdout: &str) -> (r: bool)
    ensures
        r == spec_has_worktrees(worktree_stdout@),
{
    let lines = get_output_lines(worktree_stdout);
    if lines.len() == 0 {
        false
    } else {
        proof {
            assert(lines.deep_view()[0] == lines@[0]@);
        }
        str_contains(lines[0].as_str(), "(bare)")
    }
}

/// One line of `branch` output with its two-character marker prefix removed.
pub open spec fn branch_of_line(l: Seq<char>) -> Seq<char> {
    if l.len() <= 2 {
        Seq::<char>::empty()
    } else {
        l.subrange(2, l.len() as int)
    }
}

/// The branches named by `branch` output: one per line, marker removed.
pub open spec fn spec_get_branches(stdout: Seq<char>) -> Seq<Seq<char>> {
    lines_of(stdout).map_values(|l: Seq<char>| branch_of_line(l))
}

/// Extracts the branch names from `branch` output.
pub fn get_branches(branch_stdout: &str) -> (r: Vec<String>)
    ensures
        r.deep_view() == spec_get_branches(branch_stdout@),
{
    let lines = get_output_lines(branch_stdout);
    let ghost lv = lines.deep_view();
    let mut out: Vec<String> = Vec::new();
    let mut k: usize = 0;
    while k < lines.len()
        invariant
            k <= lines.len(),
            lv == lines.deep_view(),
            lv.len() == lines.len(),
            out.deep_view() == lv.take(k as int).map_values(|l: Seq<char>| branch_of_line(l)),
        decreases lines.len() - k,
    {
        let ghost pre = out.deep_view();
        let line = lines[k].as_str();
        proof {
            assert(line@ == lv[k as int]);
        }
        let n = line.unicode_len();
        if n <= 2 {
            out.push(String::new());
        } else {
            out.push(String::from_str(line.substring_char(2, n)));
        }
        proof {
            assert(out.deep_view() =~~= pre.push(branch_of_line(lv[k as int])));
            assert(out.deep_view() =~~= lv.take(k as int + 1).map_values(
                |l: Seq<char>| branch_of_line(l),
            ));
        }
        k = k + 1;
    }
    proof {
        assert(lv.take(lv.len() as int) =~~= lv);
        assert(out.deep_view() =~~= spec_get_branches(branch_stdout@));
    }
    out
}

/// Whether a `worktree list` line carries a bracketed branch at its end.
pub open spec fn is_worktree_line(l: Seq<char>) -> bool {
    l.len() > 0 && l[l.len() - 1] == ']'
}

/// The branch token of a worktree line: what stands between the last opening
/// bracket and the closing bracket the line ends with; empty when the line
/// has no opening bracket.
pub open spec fn worktree_of_line(l: Seq<char>) -> Seq<char> {
    let j = rfind_char(l, '[');
    if j < 0 {
        Seq::<char>::empty()
    } else {
        l.subrange(j + 1, l.len() - 1)
    }
}

/// The worktree branches named by `worktree list` output: the token of every
/// line that ends with a closing bracket.
pub open spec fn worktrees_of_lines(lines: Seq<Seq<char>>) -> Seq<Seq<char>>
    decreases lines.len(),
{
    if lines.len() == 0 {
        Seq::<Seq<char>>::empty()
    } else {
        let rest = worktrees_of_lines(lines.drop_first());
        if is_worktree_line(lines[0]) {
            seq![worktree_of_line(lines[0])] + rest
        } else {
            rest
        }
    }
}

/// The worktree branches of `worktree list` output.
pub open spec fn spec_get_worktrees(stdout: Seq<char>) -> Seq<Seq<char>> {
    worktrees_of_lines(lines_of(stdout))
}

/// Extracts the worktree branch names from `worktree list` output.
pub fn get_worktrees(worktree_stdout: &str) -> (r: Vec<String>)
    ensures
        r.deep_view() == spec_get_worktrees(worktree_stdout@),
{
    let lines = get_output_lines(worktree_stdout);
    let ghost lv = lines.deep_view();
    let mut out: Vec<String> = Vec::new();
    let mut k: usize = 0;
    proof {
        assert(lv.skip(0) =~~= lv);
    }
    while k < lines.len()
        invariant
            k <= lines.len(),
            lv == lines.deep_view(),
            lv.len() == lines.len(),
            worktrees_of_lines(lv) == out.deep_view() + worktrees_of_lines(lv.skip(k as int)),
        decreases lines.len() - k,
    {
        let ghost pre = out.deep_view();
        let ghost rem = lv.skip(k as int);
        proof {
            assert(rem[0] == lv[k as int]);
            assert(rem.drop_first() =~~= lv.skip(k as int + 1));
        }
        let line = lines[k].as_str();
        proof {
            assert(line@ == lv[k as int]);
        }
        let n = line.unicode_len();
        if n > 0 && line.get_char(n - 1) == ']' {
            match rfind_char_exec(line, '[') {
                Some(j) => {
                    proof {
                        lemma_rfind_char(line@, '[');
                        assert(line@[j as int] == '[');
                        assert(line@[n as int - 1] == ']');
                        assert(j as int != n as int - 1);
                    }
                    out.push(String::from_str(line.substring_char(j + 1, n - 1)));
                },
                None => {
                    out.push(String::new());
                },
            }
            proof {
                assert(out.deep_view() =~~= pre.push(worktree_of_line(lv[k as int])));
                assert(out.deep_view() + worktrees_of_lines(lv.skip(k as int + 1))
                    =~~= pre + worktrees_of_lines(rem));
            }
        }
        k = k + 1;
    }
    proof {
        assert(lv.skip(lv.len() as int) =~~= Seq::<Seq<char>>::empty());
        assert(out.deep_view() =~~= spec_get_worktrees(worktree_stdout@));
    }
    out
}

} // verus!
