//! Character-sequence utilities shared by the manifest grammar and the
//! repository inspector: line splitting, trimming and searching, each exec
//! function pinned to a spec-level definition over `Seq<char>`.

use vstd::prelude::*;

verus! {

/// Whitespace recognized at the ends of a manifest line.
pub open spec fn is_ws(c: char) -> bool {
    c == ' ' || c == '\t' || c == '\r'
}

/// Index of the first occurrence of `c` in `s` at or after `i`, or `s.len()`
/// when there is none at or after `i`.
pub open spec fn find_char_from(s: Seq<char>, c: char, i: int) -> int
    decreases s.len() - i,
{
    if i < 0 || i >= s.len() {
        s.len() as int
    } else if s[i] == c {
        i
    } else {
        find_char_from(s, c, i + 1)
    }
}

pub proof fn lemma_find_char_from(s: Seq<char>, c: char, i: int)
    requires
        0 <= i <= s.len(),
    ensures
        i <= find_char_from(s, c, i) <= s.len(),
        find_char_from(s, c, i) < s.len() ==> s[find_char_from(s, c, i)] == c,
        forall|j: int| i <= j < find_char_from(s, c, i) ==> s[j] != c,
    decreases s.len() - i,
{
    if i < s.len() && s[i] != c {
        lemma_find_char_from(s, c, i + 1);
    }
}

/// First occurrence of `c` in `s` at or after `from`, or the length of `s`.
pub fn find_char(s: &str, c: char, from: usize) -> (r: usize)
    requires
        from <= s@.len(),
    ensures
        r == find_char_from(s@, c, from as int),
{
    let n = s.unicode_len();
    let mut i: usize = from;
    while i < n
        invariant
            from <= i <= n,
            n == s@.len(),
            find_char_from(s@, c, from as int) == find_char_from(s@, c, i as int),
        decreases n - i,
    {
        if s.get_char(i) == c {
            return i;
        }
        i = i + 1;
    }
    i
}

/// Index of the last occurrence of `c` in `s`, or `-1` when there is none.
pub open spec fn rfind_char(s: Seq<char>, c: char) -> int
    decreases s.len(),
{
    if s.len() == 0 {
        -1
    } else if s[s.len() - 1] == c {
        s.len() - 1
    } else {
        rfind_char(s.drop_last(), c)
    }
}

pub proof fn lemma_rfind_char(s: Seq<char>, c: char)
    ensures
        -1 <= rfind_char(s, c) < s.len(),
        rfind_char(s, c) >= 0 ==> s[rfind_char(s, c)] == c,
        forall|j: int| rfind_char(s, c) < j < s.len() ==> s[j] != c,
    decreases s.len(),
{
    if s.len() > 0 && s[s.len() - 1] != c {
        lemma_rfind_char(s.drop_last(), c);
        assert forall|j: int| rfind_char(s, c) < j < s.len() implies s[j] != c by {
            if j < s.len() - 1 {
                assert(s.drop_last()[j] == s[j]);
            }
        }
    }
}

/// Last occurrence of `c` in `s` as `Some(index)`, or `None`.
pub fn rfind_char_exec(s: &str, c: char) -> (r: Option<usize>)
    ensures
        rfind_char(s@, c) >= 0 ==> (r matches Some(i) && i == rfind_char(s@, c)),
        rfind_char(s@, c) < 0 ==> r is None,
{
    let n = s.unicode_len();
    let mut i: usize = n;
    proof {
        assert(s@.subrange(0, n as int) =~= s@);
    }
    while i > 0
        invariant
            i <= n,
            n == s@.len(),
            rfind_char(s@, c) == rfind_char(s@.subrange(0, i as int), c),
        decreases i,
    {
        if s.get_char(i - 1) == c {
            proof {
                assert(s@.subrange(0, i as int)[i - 1] == c);
            }
            return Some(i - 1);
        }
        proof {
            assert(s@.subrange(0, i as int).drop_last() =~= s@.subrange(0, i as int - 1));
        }
        i = i - 1;
    }
    proof {
        assert(s@.subrange(0, 0) =~= Seq::<char>::empty());
    }
    None
}

/// Exact character-wise equality of two string slices.
pub fn str_eq(a: &str, b: &str) -> (r: bool)
    ensures
        r == (a@ == b@),
{
    let na = a.unicode_len();
    let nb = b.unicode_len();
    if na != nb {
        return false;
    }
    let mut i: usize = 0;
    while i < na
        invariant
            i <= na,
            na == a@.len(),
            nb == b@.len(),
            na == nb,
            forall|j: int| 0 <= j < i ==> a@[j] == b@[j],
        decreases na - i,
    {
        let ca = a.get_char(i);
        let cb = b.get_char(i);
        if ca != cb {
            return false;
        }
        i = i + 1;
    }
    proof {
        assert(a@ =~= b@);
    }
    true
}

/// Whether `n` occurs as a contiguous subsequence of `h`.
pub open spec fn contains_seq(h: Seq<char>, n: Seq<char>) -> bool {
    exists|i: int|
        0 <= i && i + n.len() <= h.len() && #[trigger] h.subrange(i, i + n.len() as int) == n
}

/// Substring search: does `n` occur contiguously inside `h`?
pub fn str_contains(h: &str, n: &str) -> (r: bool)
    ensures
        r == contains_seq(h@, n@),
{
    let hn = h.unicode_len();
    let nn = n.unicode_len();
    if nn > hn {
        return false;
    }
    if nn == 0 {
        proof {
            assert(h@.subrange(0, 0 + n@.len() as int) =~= n@);
            assert(0 <= 0 && 0 + n@.len() <= h@.len() && h@.subrange(0, 0 + n@.len() as int)
                == n@);
        }
        return true;
    }
    let mut i: usize = 0;
    while i <= hn - nn
        invariant
            1 <= nn <= hn,
            hn == h@.len(),
            nn == n@.len(),
            i <= hn - nn + 1,
            forall|j: int| 0 <= j < i ==> #[trigger] h@.subrange(j, j + n@.len() as int) != n@,
        decreases hn - i,
    {
        let cand = h.substring_char(i, i + nn);
        if str_eq(cand, n) {
            proof {
                assert(0 <= i as int && i as int + n@.len() <= h@.len() && h@.subrange(
                    i as int,
                    i as int + n@.len() as int,
                ) == n@);
            }
            return true;
        }
        i = i + 1;
    }
    false
}

/// One segment with a trailing carriage return removed.
pub open spec fn strip_cr(l: Seq<char>) -> Seq<char> {
    if l.len() > 0 && l[l.len() - 1] == '\r' {
        l.drop_last()
    } else {
        l
    }
}

/// `s` split at every newline; always at least one segment, and a trailing
/// newline yields a final empty segment.
pub open spec fn split_nl(s: Seq<char>) -> Seq<Seq<char>>
    decreases s.len(),
{
    if s.len() == 0 {
        seq![Seq::<char>::empty()]
    } else if s[0] == '\n' {
        seq![Seq::<char>::empty()] + split_nl(s.drop_first())
    } else {
        let rest = split_nl(s.drop_first());
        seq![seq![s[0]] + rest[0]] + rest.drop_first()
    }
}

pub proof fn lemma_split_nl_nonempty(s: Seq<char>)
    ensures
        split_nl(s).len() >= 1,
    decreases s.len(),
{
    if s.len() > 0 {
        lemma_split_nl_nonempty(s.drop_first());
    }
}

pub proof fn lemma_split_nl_no_nl(s: Seq<char>)
    requires
        forall|j: int| 0 <= j < s.len() ==> s[j] != '\n',
    ensures
        split_nl(s) == seq![s],
    decreases s.len(),
{
    if s.len() == 0 {
        assert(split_nl(s) =~~= seq![s]);
    } else {
        lemma_split_nl_no_nl(s.drop_first());
        lemma_split_nl_nonempty(s.drop_first());
        assert(split_nl(s) =~~= seq![s]);
    }
}

pub proof fn lemma_split_nl_line(l: Seq<char>, rest: Seq<char>)
    requires
        forall|j: int| 0 <= j < l.len() ==> l[j] != '\n',
    ensures
        split_nl(l + seq!['\n'] + rest) == seq![l] + split_nl(rest),
    decreases l.len(),
{
    let s = l + seq!['\n'] + rest;
    if l.len() == 0 {
        assert(s[0] == '\n');
        assert(s.drop_first() =~= rest);
        assert(split_nl(s) =~~= seq![l] + split_nl(rest));
    } else {
        assert(s[0] == l[0]);
        assert(s[0] != '\n');
        assert(s.drop_first() =~= l.drop_first() + seq!['\n'] + rest);
        lemma_split_nl_line(l.drop_first(), rest);
        lemma_split_nl_nonempty(rest);
        let r = split_nl(s.drop_first());
        assert(r[0] == l.drop_first());
        assert(seq![s[0]] + r[0] =~= l);
        assert(r.drop_first() =~~= split_nl(rest));
        assert(split_nl(s) =~~= seq![l] + split_nl(rest));
    }
}

/// The lines of `s`, with the semantics of the standard text convention:
/// split at every newline, drop a final empty segment produced by a trailing
/// newline, and remove a carriage return standing just before a newline.
pub open spec fn lines_of(s: Seq<char>) -> Seq<Seq<char>> {
    let parts = split_nl(s);
    if parts[parts.len() - 1].len() == 0 {
        parts.drop_last().map_values(|l: Seq<char>| strip_cr(l))
    } else {
        parts.drop_last().map_values(|l: Seq<char>| strip_cr(l)).push(parts[parts.len() - 1])
    }
}

pub proof fn lemma_lines_of_empty()
    ensures
        lines_of(Seq::<char>::empty()) == Seq::<Seq<char>>::empty(),
{
    let s = Seq::<char>::empty();
    assert(split_nl(s) =~~= seq![Seq::<char>::empty()]);
    assert(lines_of(s) =~~= Seq::<Seq<char>>::empty());
}

pub proof fn lemma_lines_of_no_nl(s: Seq<char>)
    requires
        s.len() > 0,
        forall|j: int| 0 <= j < s.len() ==> s[j] != '\n',
    ensures
        lines_of(s) == seq![s],
{
    lemma_split_nl_no_nl(s);
    assert(split_nl(s)[0] == s);
    assert(lines_of(s) =~~= seq![s]);
}

pub proof fn lemma_lines_of_line(l: Seq<char>, rest: Seq<char>)
    requires
        forall|j: int| 0 <= j < l.len() ==> l[j] != '\n',
    ensures
        lines_of(l + seq!['\n'] + rest) == seq![strip_cr(l)] + lines_of(rest),
{
    let s = l + seq!['\n'] + rest;
    lemma_split_nl_line(l, rest);
    lemma_split_nl_nonempty(rest);
    let parts = split_nl(s);
    let pr = split_nl(rest);
    assert(parts == seq![l] + pr);
    assert(parts.len() == 1 + pr.len());
    assert(parts[parts.len() - 1] == pr[pr.len() - 1]);
    if pr[pr.len() - 1].len() == 0 {
        assert(parts.drop_last() =~~= seq![l] + pr.drop_last());
        assert(parts.drop_last().map_values(|x: Seq<char>| strip_cr(x)) =~~= seq![strip_cr(l)]
            + pr.drop_last().map_values(|x: Seq<char>| strip_cr(x)));
        assert(lines_of(s) =~~= seq![strip_cr(l)] + lines_of(rest));
    } else {
        assert(parts.drop_last() =~~= seq![l] + pr.drop_last());
        assert(parts.drop_last().map_values(|x: Seq<char>| strip_cr(x)) =~~= seq![strip_cr(l)]
            + pr.drop_last().map_values(|x: Seq<char>| strip_cr(x)));
        assert(lines_of(s) =~~= seq![strip_cr(l)] + lines_of(rest));
    }
}

/// The lines of `s` as owned strings.
pub fn get_output_lines(s: &str) -> (r: Vec<String>)
    ensures
        r.deep_view() == lines_of(s@),
{
    let n = s.unicode_len();
    let mut out: Vec<String> = Vec::new();
    let mut pos: usize = 0;
    proof {
        assert(s@.subrange(0, n as int) =~= s@);
    }
    while pos < n
        invariant
            pos <= n,
            n == s@.len(),
            lines_of(s@) == out.deep_view() + lines_of(s@.subrange(pos as int, n as int)),
        decreases n - pos,
    {
        let j = find_char(s, '\n', pos);
        proof {
            lemma_find_char_from(s@, '\n', pos as int);
        }
        let ghost suffix = s@.subrange(pos as int, n as int);
        let ghost pre = out.deep_view();
        if j == n {
            // final line without a terminating newline: kept verbatim
            let seg = s.substring_char(pos, n);
            out.push(String::from_str(seg));
            proof {
                assert(forall|k: int| 0 <= k < suffix.len() ==> suffix[k] != '\n');
                lemma_lines_of_no_nl(suffix);
                assert(seg@ == suffix);
                assert(out.deep_view() =~~= pre + seq![suffix]);
            }
            pos = n;
            proof {
                assert(s@.subrange(n as int, n as int) =~= Seq::<char>::empty());
                lemma_lines_of_empty();
            }
        } else {
            let ghost line = s@.subrange(pos as int, j as int);
            let seg = if j > pos && s.get_char(j - 1) == '\r' {
                s.substring_char(pos, j - 1)
            } else {
                s.substring_char(pos, j)
            };
            out.push(String::from_str(seg));
            proof {
                assert(forall|k: int| 0 <= k < line.len() ==> line[k] != '\n');
                assert(suffix =~= line + seq!['\n'] + s@.subrange(j as int + 1, n as int));
                lemma_lines_of_line(line, s@.subrange(j as int + 1, n as int));
                if line.len() > 0 && line[line.len() - 1] == '\r' {
                    assert(line.drop_last() =~= s@.subrange(pos as int, j as int - 1));
                    assert(seg@ == strip_cr(line));
                } else {
                    assert(seg@ == strip_cr(line));
                }
                assert(out.deep_view() =~~= pre + seq![strip_cr(line)]);
                assert(out.deep_view() + lines_of(s@.subrange(j as int + 1, n as int))
                    =~~= pre + lines_of(suffix));
            }
            pos = j + 1;
        }
    }
    proof {
        assert(s@.subrange(n as int, n as int) =~= Seq::<char>::empty());
        lemma_lines_of_empty();
        assert(out.deep_view() =~~= lines_of(s@));
    }
    out
}

/// No newline anywhere in `s`.
pub open spec fn no_nl(s: Seq<char>) -> bool {
    forall|j: int| 0 <= j < s.len() ==> s[j] != '\n'
}

pub proof fn lemma_split_nl_elements(s: Seq<char>)
    ensures
        forall|k: int| 0 <= k < split_nl(s).len() ==> no_nl(#[trigger] split_nl(s)[k]),
    decreases s.len(),
{
    if s.len() == 0 {
        assert(no_nl(split_nl(s)[0]));
    } else if s[0] == '\n' {
        lemma_split_nl_elements(s.drop_first());
        assert forall|k: int| 0 <= k < split_nl(s).len() implies no_nl(split_nl(s)[k]) by {
            if k == 0 {
                assert(split_nl(s)[0].len() == 0);
            } else {
                assert(split_nl(s)[k] == split_nl(s.drop_first())[k - 1]);
            }
        }
    } else {
        lemma_split_nl_elements(s.drop_first());
        lemma_split_nl_nonempty(s.drop_first());
        let rest = split_nl(s.drop_first());
        assert forall|k: int| 0 <= k < split_nl(s).len() implies no_nl(split_nl(s)[k]) by {
            if k == 0 {
                assert(split_nl(s)[0] == seq![s[0]] + rest[0]);
                assert(no_nl(rest[0]));
                assert forall|j: int| 0 <= j < split_nl(s)[0].len() implies split_nl(s)[0][j]
                    != '\n' by {
                    if j > 0 {
                        assert(split_nl(s)[0][j] == rest[0][j - 1]);
                    }
                }
            } else {
                assert(split_nl(s)[k] == rest.drop_first()[k - 1]);
                assert(rest.drop_first()[k - 1] == rest[k]);
            }
        }
    }
}

/// Every line produced by `lines_of` is free of newlines.
pub proof fn lemma_lines_of_elements(s: Seq<char>)
    ensures
        forall|k: int| 0 <= k < lines_of(s).len() ==> no_nl(#[trigger] lines_of(s)[k]),
{
    lemma_split_nl_elements(s);
    let parts = split_nl(s);
    assert forall|k: int| 0 <= k < lines_of(s).len() implies no_nl(lines_of(s)[k]) by {
        if k < parts.drop_last().len() {
            assert(parts.drop_last()[k] == parts[k]);
            assert(lines_of(s)[k] == strip_cr(parts[k]));
            assert(no_nl(parts[k]));
            assert forall|j: int| 0 <= j < strip_cr(parts[k]).len() implies strip_cr(parts[k])[j]
                != '\n' by {
                assert(strip_cr(parts[k])[j] == parts[k][j]);
            }
        } else {
            assert(lines_of(s)[k] == parts[parts.len() - 1]);
        }
    }
}

pub proof fn lemma_trim_start_no_nl(s: Seq<char>)
    requires
        no_nl(s),
    ensures
        no_nl(trim_start_spec(s)),
    decreases s.len(),
{
    if s.len() > 0 && is_ws(s[0]) {
        assert(no_nl(s.drop_first()));
        lemma_trim_start_no_nl(s.drop_first());
    }
}

pub proof fn lemma_trim_end_no_nl(s: Seq<char>)
    requires
        no_nl(s),
    ensures
        no_nl(trim_end_spec(s)),
    decreases s.len(),
{
    if s.len() > 0 && is_ws(s[s.len() - 1]) {
        assert(no_nl(s.drop_last()));
        lemma_trim_end_no_nl(s.drop_last());
    }
}

/// Trimming never introduces characters: a newline-free line stays
/// newline-free.
pub proof fn lemma_trim_no_nl(s: Seq<char>)
    requires
        no_nl(s),
    ensures
        no_nl(trim_spec(s)),
{
    lemma_trim_start_no_nl(s);
    lemma_trim_end_no_nl(trim_start_spec(s));
}

/// `s` with leading whitespace removed.
pub open spec fn trim_start_spec(s: Seq<char>) -> Seq<char>
    decreases s.len(),
{
    if s.len() > 0 && is_ws(s[0]) {
        trim_start_spec(s.drop_first())
    } else {
        s
    }
}

/// `s` with trailing whitespace removed.
pub open spec fn trim_end_spec(s: Seq<char>) -> Seq<char>
    decreases s.len(),
{
    if s.len() > 0 && is_ws(s[s.len() - 1]) {
        trim_end_spec(s.drop_last())
    } else {
        s
    }
}

/// `s` with whitespace removed from both ends.
pub open spec fn trim_spec(s: Seq<char>) -> Seq<char> {
    trim_end_spec(trim_start_spec(s))
}

pub proof fn lemma_trim_start_subrange(s: Seq<char>, lo: int)
    requires
        0 <= lo <= s.len(),
        forall|j: int| 0 <= j < lo ==> is_ws(s[j]),
        lo < s.len() ==> !is_ws(s[lo]),
    ensures
        trim_start_spec(s) == s.subrange(lo, s.len() as int),
    decreases lo,
{
    if lo == 0 {
        assert(s.subrange(0, s.len() as int) =~= s);
    } else {
        assert(is_ws(s[0]));
        assert(s.drop_first() =~= s.subrange(1, s.len() as int));
        lemma_trim_start_subrange(s.drop_first(), lo - 1);
        assert(s.drop_first().subrange(lo - 1, s.drop_first().len() as int) =~= s.subrange(
            lo,
            s.len() as int,
        ));
    }
}

pub proof fn lemma_trim_end_subrange(s: Seq<char>, hi: int)
    requires
        0 <= hi <= s.len(),
        forall|j: int| hi <= j < s.len() ==> is_ws(s[j]),
        hi > 0 ==> !is_ws(s[hi - 1]),
    ensures
        trim_end_spec(s) == s.subrange(0, hi),
    decreases s.len() - hi,
{
    if hi == s.len() {
        if s.len() > 0 {
            assert(!is_ws(s[s.len() - 1]));
        }
        assert(s.subrange(0, s.len() as int) =~= s);
    } else {
        assert(is_ws(s[s.len() - 1]));
        assert(s.drop_last() =~= s.subrange(0, s.len() - 1));
        lemma_trim_end_subrange(s.drop_last(), hi);
        assert(s.drop_last().subrange(0, hi) =~= s.subrange(0, hi));
    }
}

/// Trimming leaves a string whose first and last characters are not
/// whitespace untouched.
pub proof fn lemma_trim_untouched(s: Seq<char>)
    requires
        s.len() > 0,
        !is_ws(s[0]),
        !is_ws(s[s.len() - 1]),
    ensures
        trim_spec(s) == s,
{
    lemma_trim_start_subrange(s, 0);
    assert(s.subrange(0, s.len() as int) =~= s);
    lemma_trim_end_subrange(s, s.len() as int);
}

/// `s` with whitespace removed from both ends.
pub fn trim(s: &str) -> (r: &str)
    ensures
        r@ == trim_spec(s@),
{
    let n = s.unicode_len();
    let mut lo: usize = 0;
    while lo < n && is_ws_exec(s.get_char(lo))
        invariant
            lo <= n,
            n == s@.len(),
            forall|j: int| 0 <= j < lo ==> is_ws(s@[j]),
        decreases n - lo,
    {
        lo = lo + 1;
    }
    proof {
        lemma_trim_start_subrange(s@, lo as int);
    }
    let ghost t = s@.subrange(lo as int, n as int);
    let mut hi: usize = n;
    while hi > lo && is_ws_exec(s.get_char(hi - 1))
        invariant
            lo <= hi <= n,
            n == s@.len(),
            forall|j: int| hi <= j < n ==> is_ws(s@[j]),
        decreases hi,
    {
        hi = hi - 1;
    }
    proof {
        assert(forall|j: int| hi - lo <= j < t.len() ==> is_ws(t[j]));
        if hi > lo {
            assert(t[hi - lo - 1] == s@[hi - 1]);
        }
        lemma_trim_end_subrange(t, hi - lo as int);
        assert(t.subrange(0, hi - lo as int) =~= s@.subrange(lo as int, hi as int));
    }
    s.substring_char(lo, hi)
}

/// Whitespace test on a single character.
pub fn is_ws_exec(c: char) -> (r: bool)
    ensures
        r == is_ws(c),
{
    c == ' ' || c == '\t' || c == '\r'
}

} // verus!
