//! The manifest: an ordered list of repository records, read from a
//! declarative table-array text.  Each record names a remote `url`, the
//! version-control `service`, the local `path`, and optionally whether the
//! working copy `is_bare`.  The grammar is given as spec functions over
//! character sequences; the executable parser and serializer are pinned to
//! them exactly.

use vstd::prelude::*;

use crate::text::{
    find_char, find_char_from, get_output_lines, lemma_find_char_from, lemma_lines_of_elements,
    lemma_lines_of_empty, lemma_lines_of_line, lemma_trim_end_subrange, lemma_trim_no_nl,
    lemma_trim_start_subrange, lemma_trim_untouched, lines_of, no_nl, str_eq, strip_cr, trim,
    trim_spec,
};

verus! {

/// The recognized version-control services.
#[derive(Debug, Clone, Copy, PartialEq, Eq, Structural)]
pub enum VCService {
    Git,
}

/// One manifest entry: a repository under management.
#[derive(Debug, Clone, PartialEq, Eq)]
pub struct Repo {
    /// Remote reference understood by the version-control service.
    pub url: String,
    /// Which service manages the remote.
    pub service: VCService,
    /// Intended local working-copy location.
    pub path: String,
    /// Whether the local copy is bare; absent means not bare.
    pub is_bare: Option<bool>,
}

/// Mathematical image of a `Repo`: its strings as character sequences.
pub struct RepoView {
    pub url: Seq<char>,
    pub service: VCService,
    pub path: Seq<char>,
    pub is_bare: Option<bool>,
}

impl View for Repo {
    type V = RepoView;

    open spec fn view(&self) -> RepoView {
        RepoView {
            url: self.url@,
            service: self.service,
            path: self.path@,
            is_bare: self.is_bare,
        }
    }
}

/// The ordered collection of repository records.
#[derive(Debug, PartialEq, Eq)]
pub struct Manifest {
    /// The records, in the order the manifest text declares them.
    pub repos: Vec<Repo>,
}

impl View for Manifest {
    type V = Seq<RepoView>;

    open spec fn view(&self) -> Seq<RepoView> {
        self.repos@.map_values(|r: Repo| r@)
    }
}

/// Why a manifest text was refused.
#[derive(Debug, Clone, Copy, PartialEq, Eq, Structural)]
pub enum ManifestError {
    /// No record header occurs in the text.
    MissingRepos,
    /// A line is neither blank, a comment, a record header, nor a
    /// well-formed key assignment.
    SyntaxError,
    /// A key assignment stands before the first record header.
    KeyOutsideRecord,
    /// A key is assigned twice within one record.
    DuplicateKey,
    /// The declared service is not one of the recognized set.
    UnrecognizedService,
    /// A record lacks its `url`.
    MissingUrl,
    /// A record lacks its `service`.
    MissingService,
    /// A record lacks its `path`.
    MissingPath,
    /// A record declares an empty `url`.
    EmptyUrl,
    /// A record declares an empty `path`.
    EmptyPath,
}

/// The string-valued keys a record can assign.
#[derive(Debug, Clone, Copy, PartialEq, Eq, Structural)]
pub enum StrKey {
    Url,
    Service,
    Path,
}

/// What one manifest line means.
pub enum LineKind {
    /// Empty, all whitespace, or a comment.
    Blank,
    /// The record header `[[repos]]`.
    Header,
    /// `url = "..."`, `service = "..."` or `path = "..."`.
    KeyStr(StrKey, Seq<char>),
    /// `is_bare = true` or `is_bare = false`.
    KeyBool(bool),
    /// Anything else.
    Malformed,
}

/// A quoted string value: the text between the quotes, which must themselves
/// enclose no quote and no backslash.
pub open spec fn str_value(v: Seq<char>) -> Option<Seq<char>> {
    if v.len() >= 2 && v[0] == '"' && v[v.len() - 1] == '"' {
        let inner = v.subrange(1, v.len() - 1);
        if forall|j: int| 0 <= j < inner.len() ==> inner[j] != '"' && inner[j] != '\\' {
            Some(inner)
        } else {
            None
        }
    } else {
        None
    }
}

/// Classification of a single manifest line.
pub open spec fn classify_line(l: Seq<char>) -> LineKind {
    let t = trim_spec(l);
    if t.len() == 0 {
        LineKind::Blank
    } else if t[0] == '#' {
        LineKind::Blank
    } else if t == "[[repos]]"@ {
        LineKind::Header
    } else {
        let e = find_char_from(t, '=', 0);
        if e >= t.len() {
            LineKind::Malformed
        } else {
            let k = trim_spec(t.subrange(0, e));
            let v = trim_spec(t.subrange(e + 1, t.len() as int));
            if k == "url"@ {
                match str_value(v) {
                    Some(sv) => LineKind::KeyStr(StrKey::Url, sv),
                    None => LineKind::Malformed,
                }
            } else if k == "service"@ {
                match str_value(v) {
                    Some(sv) => LineKind::KeyStr(StrKey::Service, sv),
                    None => LineKind::Malformed,
                }
            } else if k == "path"@ {
                match str_value(v) {
                    Some(sv) => LineKind::KeyStr(StrKey::Path, sv),
                    None => LineKind::Malformed,
                }
            } else if k == "is_bare"@ {
                if v == "true"@ {
                    LineKind::KeyBool(true)
                } else if v == "false"@ {
                    LineKind::KeyBool(false)
                } else {
                    LineKind::Malformed
                }
            } else {
                LineKind::Malformed
            }
        }
    }
}

/// A record under construction while its lines are being read.
pub struct PartialRepo {
    pub url: Option<Seq<char>>,
    pub service: Option<VCService>,
    pub path: Option<Seq<char>>,
    pub is_bare: Option<bool>,
}

/// The state just after a record header.
pub open spec fn empty_partial() -> PartialRepo {
    PartialRepo { url: None, service: None, path: None, is_bare: None }
}

/// Effect of a string-valued key assignment on the record being built.
pub open spec fn apply_str_key(p: PartialRepo, k: StrKey, v: Seq<char>) -> Result<
    PartialRepo,
    ManifestError,
> {
    match k {
        StrKey::Url => {
            if p.url is Some {
                Err(ManifestError::DuplicateKey)
            } else {
                Ok(PartialRepo { url: Some(v), ..p })
            }
        },
        StrKey::Service => {
            if p.service is Some {
                Err(ManifestError::DuplicateKey)
            } else if v == "Git"@ {
                Ok(PartialRepo { service: Some(VCService::Git), ..p })
            } else {
                Err(ManifestError::UnrecognizedService)
            }
        },
        StrKey::Path => {
            if p.path is Some {
                Err(ManifestError::DuplicateKey)
            } else {
                Ok(PartialRepo { path: Some(v), ..p })
            }
        },
    }
}

/// Effect of an `is_bare` assignment on the record being built.
pub open spec fn apply_bool_key(p: PartialRepo, b: bool) -> Result<PartialRepo, ManifestError> {
    if p.is_bare is Some {
        Err(ManifestError::DuplicateKey)
    } else {
        Ok(PartialRepo { is_bare: Some(b), ..p })
    }
}

/// A finished record: every required field present, `url` and `path`
/// non-empty.
pub open spec fn finish_record(p: PartialRepo) -> Result<RepoView, ManifestError> {
    if p.url is None {
        Err(ManifestError::MissingUrl)
    } else if p.service is None {
        Err(ManifestError::MissingService)
    } else if p.path is None {
        Err(ManifestError::MissingPath)
    } else if p.url->0.len() == 0 {
        Err(ManifestError::EmptyUrl)
    } else if p.path->0.len() == 0 {
        Err(ManifestError::EmptyPath)
    } else {
        Ok(
            RepoView {
                url: p.url->0,
                service: p.service->0,
                path: p.path->0,
                is_bare: p.is_bare,
            },
        )
    }
}

/// Folding the classified lines into records.  `cur` is the record whose
/// lines are being read (`None` before the first header), `acc` the finished
/// records so far.
pub open spec fn parse_lines(
    lines: Seq<Seq<char>>,
    cur: Option<PartialRepo>,
    acc: Seq<RepoView>,
) -> Result<Seq<RepoView>, ManifestError>
    decreases lines.len(),
{
    if lines.len() == 0 {
        match cur {
            None => Err(ManifestError::MissingRepos),
            Some(p) => match finish_record(p) {
                Ok(r) => Ok(acc.push(r)),
                Err(e) => Err(e),
            },
        }
    } else {
        match classify_line(lines[0]) {
            LineKind::Blank => parse_lines(lines.drop_first(), cur, acc),
            LineKind::Header => match cur {
                None => parse_lines(lines.drop_first(), Some(empty_partial()), acc),
                Some(p) => match finish_record(p) {
                    Ok(r) => parse_lines(lines.drop_first(), Some(empty_partial()), acc.push(r)),
                    Err(e) => Err(e),
                },
            },
            LineKind::KeyStr(k, v) => match cur {
                None => Err(ManifestError::KeyOutsideRecord),
                Some(p) => match apply_str_key(p, k, v) {
                    Ok(p2) => parse_lines(lines.drop_first(), Some(p2), acc),
                    Err(e) => Err(e),
                },
            },
            LineKind::KeyBool(b) => match cur {
                None => Err(ManifestError::KeyOutsideRecord),
                Some(p) => match apply_bool_key(p, b) {
                    Ok(p2) => parse_lines(lines.drop_first(), Some(p2), acc),
                    Err(e) => Err(e),
                },
            },
            LineKind::Malformed => Err(ManifestError::SyntaxError),
        }
    }
}

/// The meaning of a whole manifest text.
pub open spec fn parse_manifest(s: Seq<char>) -> Result<Seq<RepoView>, ManifestError> {
    parse_lines(lines_of(s), None, Seq::empty())
}

/// A parse result with the records abstracted to their views.
pub open spec fn result_view(r: Result<Manifest, ManifestError>) -> Result<
    Seq<RepoView>,
    ManifestError,
> {
    match r {
        Ok(m) => Ok(m@),
        Err(e) => Err(e),
    }
}

/// The canonical text of one record, as the serializer emits it.
pub open spec fn record_text(r: RepoView) -> Seq<char> {
    "[[repos]]\n"@ + "url = \""@ + r.url + "\"\n"@ + "service = \"Git\"\n"@ + "path = \""@
        + r.path + "\"\n"@ + match r.is_bare {
        None => Seq::<char>::empty(),
        Some(true) => "is_bare = true\n"@,
        Some(false) => "is_bare = false\n"@,
    }
}

/// The canonical text of a record sequence.
pub open spec fn serialize_repos(rs: Seq<RepoView>) -> Seq<char>
    decreases rs.len(),
{
    if rs.len() == 0 {
        Seq::<char>::empty()
    } else {
        record_text(rs[0]) + serialize_repos(rs.drop_first())
    }
}

pub proof fn lemma_serialize_snoc(rs: Seq<RepoView>, r: RepoView)
    ensures
        serialize_repos(rs.push(r)) == serialize_repos(rs) + record_text(r),
    decreases rs.len(),
{
    if rs.len() == 0 {
        assert(rs.push(r)[0] == r);
        assert(rs.push(r).drop_first() =~= Seq::<RepoView>::empty());
        assert(serialize_repos(Seq::<RepoView>::empty()) == Seq::<char>::empty());
        assert(serialize_repos(rs.push(r)) =~= serialize_repos(rs) + record_text(r));
    } else {
        assert(rs.push(r)[0] == rs[0]);
        assert(rs.push(r).drop_first() =~= rs.drop_first().push(r));
        lemma_serialize_snoc(rs.drop_first(), r);
        assert(serialize_repos(rs.push(r)) == record_text(rs[0]) + serialize_repos(
            rs.drop_first().push(r),
        ));
        assert(serialize_repos(rs.drop_first().push(r)) == serialize_repos(rs.drop_first())
            + record_text(r));
        assert(record_text(rs[0]) + (serialize_repos(rs.drop_first()) + record_text(r))
            =~= (record_text(rs[0]) + serialize_repos(rs.drop_first())) + record_text(r));
        assert(serialize_repos(rs.push(r)) =~= serialize_repos(rs) + record_text(r));
    }
}

/// A string the grammar can carry through a quoted value: free of the
/// quote, the backslash and the newline.
pub open spec fn serializable_str(s: Seq<char>) -> bool {
    forall|j: int| 0 <= j < s.len() ==> s[j] != '"' && s[j] != '\\' && s[j] != '\n'
}

/// A record the serializer can round-trip.
pub open spec fn serializable_record(r: RepoView) -> bool {
    &&& r.url.len() > 0
    &&& r.path.len() > 0
    &&& serializable_str(r.url)
    &&& serializable_str(r.path)
}

/// The `url` line of a serialized record.
pub open spec fn url_line(r: RepoView) -> Seq<char> {
    "url = \""@ + r.url + "\""@
}

/// The `service` line of a serialized record.
pub open spec fn service_line() -> Seq<char> {
    "service = \"Git\""@
}

/// The `path` line of a serialized record.
pub open spec fn path_line(r: RepoView) -> Seq<char> {
    "path = \""@ + r.path + "\""@
}

/// The `is_bare` line of a serialized record.
pub open spec fn bare_line(b: bool) -> Seq<char> {
    if b {
        "is_bare = true"@
    } else {
        "is_bare = false"@
    }
}

/// The lines a serialized record splits into.
pub open spec fn record_lines(r: RepoView) -> Seq<Seq<char>> {
    match r.is_bare {
        None => seq!["[[repos]]"@, url_line(r), service_line(), path_line(r)],
        Some(b) => seq!["[[repos]]"@, url_line(r), service_line(), path_line(r), bare_line(b)],
    }
}

/// Splitting a serialized record off the front of a text yields its lines
/// followed by the lines of the remainder.
#[verifier::rlimit(100)]
pub proof fn lemma_record_lines(r: RepoView, rest: Seq<char>)
    requires
        serializable_record(r),
    ensures
        lines_of(record_text(r) + rest) == record_lines(r) + lines_of(rest),
{
    reveal_strlit("[[repos]]\n");
    reveal_strlit("[[repos]]");
    reveal_strlit("url = \"");
    reveal_strlit("\"\n");
    reveal_strlit("\"");
    reveal_strlit("service = \"Git\"\n");
    reveal_strlit("service = \"Git\"");
    reveal_strlit("path = \"");
    reveal_strlit("is_bare = true\n");
    reveal_strlit("is_bare = true");
    reveal_strlit("is_bare = false\n");
    reveal_strlit("is_bare = false");
    let h = "[[repos]]"@;
    let l1 = url_line(r);
    let l2 = service_line();
    let l3 = path_line(r);
    let t = record_text(r) + rest;
    assert(no_nl(h));
    assert(no_nl(l2));
    assert forall|j: int| 0 <= j < l1.len() implies l1[j] != '\n' by {
        if 7 <= j < 7 + r.url.len() {
            assert(l1[j] == r.url[j - 7]);
        }
    }
    assert forall|j: int| 0 <= j < l3.len() implies l3[j] != '\n' by {
        if 8 <= j < 8 + r.path.len() {
            assert(l3[j] == r.path[j - 8]);
        }
    }
    assert(strip_cr_id(h)) by {
        assert(h[h.len() - 1] == ']');
    }
    assert(strip_cr_id(l1)) by {
        assert(l1[l1.len() - 1] == '"');
    }
    assert(strip_cr_id(l2)) by {
        assert(l2[l2.len() - 1] == '"');
    }
    assert(strip_cr_id(l3)) by {
        assert(l3[l3.len() - 1] == '"');
    }
    match r.is_bare {
        None => {
            let t3 = l3 + seq!['\n'] + rest;
            let t2 = l2 + seq!['\n'] + t3;
            let t1 = l1 + seq!['\n'] + t2;
            assert(t =~= h + seq!['\n'] + t1);
            lemma_lines_of_line(h, t1);
            lemma_lines_of_line(l1, t2);
            lemma_lines_of_line(l2, t3);
            lemma_lines_of_line(l3, rest);
            assert(lines_of(t) =~~= record_lines(r) + lines_of(rest));
        },
        Some(b) => {
            let l4 = bare_line(b);
            assert(no_nl(l4));
            assert(strip_cr_id(l4)) by {
                assert(l4[l4.len() - 1] == 'e');
            }
            let t4 = l4 + seq!['\n'] + rest;
            let t3 = l3 + seq!['\n'] + t4;
            let t2 = l2 + seq!['\n'] + t3;
            let t1 = l1 + seq!['\n'] + t2;
            assert(t =~= h + seq!['\n'] + t1);
            lemma_lines_of_line(h, t1);
            lemma_lines_of_line(l1, t2);
            lemma_lines_of_line(l2, t3);
            lemma_lines_of_line(l3, t4);
            lemma_lines_of_line(l4, rest);
            assert(lines_of(t) =~~= record_lines(r) + lines_of(rest));
        },
    }
}

/// Whether stripping a carriage return leaves the line untouched.
pub open spec fn strip_cr_id(l: Seq<char>) -> bool {
    strip_cr(l) == l
}

/// The record header classifies as a header.
pub proof fn lemma_classify_header()
    ensures
        classify_line("[[repos]]"@) == LineKind::Header,
{
    reveal_strlit("[[repos]]");
    let l = "[[repos]]"@;
    lemma_trim_untouched(l);
    assert(trim_spec(l) == l);
    assert(l[0] == '[');
}

/// A quoted key line classifies as the assignment it spells.  The common
/// part of the three string-key lemmas: `prefix` is the text before the
/// value, `e` the position of the equals sign, `key` the spelled key.
proof fn lemma_classify_quoted(l: Seq<char>, e: int, key: Seq<char>, value: Seq<char>)
    requires
        0 <= e < l.len(),
        l[e] == '=',
        forall|j: int| 0 <= j < e ==> l[j] != '=',
        trim_spec(l) == l,
        l.len() > 0,
        l[0] != '#',
        l != "[[repos]]"@,
        trim_spec(l.subrange(0, e)) == key,
        trim_spec(l.subrange(e + 1, l.len() as int)) == value,
    ensures
        classify_line(l) == classify_keyed(key, value),
{
    lemma_find_char_from(l, '=', 0);
    let f = find_char_from(l, '=', 0);
    if f < e {
        assert(l[f] != '=');
        assert(false);
    }
    if f > e {
        assert(l[e] != '=');
        assert(false);
    }
}

/// What a key assignment line means, given its trimmed key and value.
pub open spec fn classify_keyed(key: Seq<char>, v: Seq<char>) -> LineKind {
    if key == "url"@ {
        match str_value(v) {
            Some(sv) => LineKind::KeyStr(StrKey::Url, sv),
            None => LineKind::Malformed,
        }
    } else if key == "service"@ {
        match str_value(v) {
            Some(sv) => LineKind::KeyStr(StrKey::Service, sv),
            None => LineKind::Malformed,
        }
    } else if key == "path"@ {
        match str_value(v) {
            Some(sv) => LineKind::KeyStr(StrKey::Path, sv),
            None => LineKind::Malformed,
        }
    } else if key == "is_bare"@ {
        if v == "true"@ {
            LineKind::KeyBool(true)
        } else if v == "false"@ {
            LineKind::KeyBool(false)
        } else {
            LineKind::Malformed
        }
    } else {
        LineKind::Malformed
    }
}

/// A well-formed quoted value parses back to its own content.
pub proof fn lemma_str_value_quoted(u: Seq<char>)
    requires
        serializable_str(u),
    ensures
        str_value(seq!['"'] + u + seq!['"']) == Some(u),
{
    let v = seq!['"'] + u + seq!['"'];
    assert(v.len() == u.len() + 2);
    assert(v[0] == '"');
    assert(v[v.len() - 1] == '"');
    let inner = v.subrange(1, v.len() - 1);
    assert(inner =~= u);
    assert forall|j: int| 0 <= j < inner.len() implies inner[j] != '"' && inner[j] != '\\' by {
        assert(inner[j] == u[j]);
    }
}

} // verus!

verus! {

/// The serialized `url` line classifies as assigning that url.
pub proof fn lemma_classify_url(r: RepoView)
    requires
        serializable_record(r),
    ensures
        classify_line(url_line(r)) == LineKind::KeyStr(StrKey::Url, r.url),
{
    reveal_strlit("url = \"");
    reveal_strlit("\"");
    reveal_strlit("url");
    reveal_strlit("[[repos]]");
    let l = url_line(r);
    let u = r.url;
    assert(l.len() == 8 + u.len());
    assert(l[0] == 'u');
    assert(l[1] == 'r');
    assert(l[2] == 'l');
    assert(l[3] == ' ');
    assert(l[4] == '=');
    assert(l[5] == ' ');
    assert(l[6] == '"');
    assert(l[l.len() - 1] == '"');
    lemma_trim_untouched(l);
    assert(l != "[[repos]]"@) by {
        assert("[[repos]]"@[0] == '[');
    }
    let k = l.subrange(0, 4);
    lemma_trim_start_subrange(k, 0);
    assert(k.subrange(0, 4) =~= k);
    lemma_trim_end_subrange(k, 3);
    assert(k.subrange(0, 3) =~= "url"@);
    let v = l.subrange(5, l.len() as int);
    assert(v[0] == ' ');
    assert(v[1] == '"');
    lemma_trim_start_subrange(v, 1);
    let v1 = v.subrange(1, v.len() as int);
    assert(v1[v1.len() - 1] == '"');
    lemma_trim_end_subrange(v1, v1.len() as int);
    assert(v1.subrange(0, v1.len() as int) =~= v1);
    assert(trim_spec(l.subrange(5, l.len() as int)) == v1);
    assert(v1 =~= seq!['"'] + u + seq!['"']);
    lemma_str_value_quoted(u);
    assert(forall|j: int| 0 <= j < 4 ==> l[j] != '=');
    lemma_classify_quoted(l, 4, "url"@, v1);
    assert(classify_keyed("url"@, v1) == LineKind::KeyStr(StrKey::Url, u));
}

/// The serialized `service` line classifies as assigning the recognized
/// service.
pub proof fn lemma_classify_service()
    ensures
        classify_line(service_line()) == LineKind::KeyStr(StrKey::Service, "Git"@),
{
    reveal_strlit("service = \"Git\"");
    reveal_strlit("service");
    reveal_strlit("url");
    reveal_strlit("Git");
    reveal_strlit("[[repos]]");
    let l = service_line();
    assert(l.len() == 15);
    assert(l[0] == 's');
    assert(l[7] == ' ');
    assert(l[8] == '=');
    assert(l[9] == ' ');
    assert(l[10] == '"');
    assert(l[14] == '"');
    lemma_trim_untouched(l);
    assert(l != "[[repos]]"@) by {
        assert("[[repos]]"@[0] == '[');
    }
    let k = l.subrange(0, 8);
    lemma_trim_start_subrange(k, 0);
    assert(k.subrange(0, 8) =~= k);
    lemma_trim_end_subrange(k, 7);
    assert(k.subrange(0, 7) =~= "service"@);
    let v = l.subrange(9, 15);
    assert(v[0] == ' ');
    assert(v[1] == '"');
    lemma_trim_start_subrange(v, 1);
    let v1 = v.subrange(1, 6);
    assert(v1[v1.len() - 1] == '"');
    lemma_trim_end_subrange(v1, v1.len() as int);
    assert(v1.subrange(0, v1.len() as int) =~= v1);
    assert(trim_spec(l.subrange(9, l.len() as int)) == v1) by {
        assert(l.subrange(9, l.len() as int) =~= v);
    }
    assert(v1 =~= seq!['"'] + "Git"@ + seq!['"']);
    assert(serializable_str("Git"@));
    lemma_str_value_quoted("Git"@);
    assert(forall|j: int| 0 <= j < 8 ==> l[j] != '=');
    lemma_classify_quoted(l, 8, "service"@, v1);
    assert("service"@ != "url"@) by {
        assert("service"@.len() == 7 && "url"@.len() == 3);
    }
    assert(classify_keyed("service"@, v1) == LineKind::KeyStr(StrKey::Service, "Git"@));
}

/// The serialized `path` line classifies as assigning that path.
pub proof fn lemma_classify_path(r: RepoView)
    requires
        serializable_record(r),
    ensures
        classify_line(path_line(r)) == LineKind::KeyStr(StrKey::Path, r.path),
{
    reveal_strlit("path = \"");
    reveal_strlit("\"");
    reveal_strlit("path");
    reveal_strlit("url");
    reveal_strlit("service");
    reveal_strlit("[[repos]]");
    let l = path_line(r);
    let p = r.path;
    assert(l.len() == 9 + p.len());
    assert(l[0] == 'p');
    assert(l[1] == 'a');
    assert(l[2] == 't');
    assert(l[3] == 'h');
    assert(l[4] == ' ');
    assert(l[5] == '=');
    assert(l[6] == ' ');
    assert(l[7] == '"');
    assert(l[l.len() - 1] == '"');
    lemma_trim_untouched(l);
    assert(l != "[[repos]]"@) by {
        assert("[[repos]]"@[0] == '[');
    }
    let k = l.subrange(0, 5);
    lemma_trim_start_subrange(k, 0);
    assert(k.subrange(0, 5) =~= k);
    lemma_trim_end_subrange(k, 4);
    assert(k.subrange(0, 4) =~= "path"@);
    let v = l.subrange(6, l.len() as int);
    assert(v[0] == ' ');
    assert(v[1] == '"');
    lemma_trim_start_subrange(v, 1);
    let v1 = v.subrange(1, v.len() as int);
    assert(v1[v1.len() - 1] == '"');
    lemma_trim_end_subrange(v1, v1.len() as int);
    assert(v1.subrange(0, v1.len() as int) =~= v1);
    assert(trim_spec(l.subrange(6, l.len() as int)) == v1);
    assert(v1 =~= seq!['"'] + p + seq!['"']);
    lemma_str_value_quoted(p);
    assert(forall|j: int| 0 <= j < 5 ==> l[j] != '=');
    lemma_classify_quoted(l, 5, "path"@, v1);
    assert("path"@ != "url"@) by {
        assert("path"@.len() == 4 && "url"@.len() == 3);
    }
    assert("path"@ != "service"@) by {
        assert("path"@.len() == 4 && "service"@.len() == 7);
    }
    assert(classify_keyed("path"@, v1) == LineKind::KeyStr(StrKey::Path, p));
}

/// The serialized `is_bare` line classifies as assigning that flag.
pub proof fn lemma_classify_bare(b: bool)
    ensures
        classify_line(bare_line(b)) == LineKind::KeyBool(b),
{
    reveal_strlit("is_bare = true");
    reveal_strlit("is_bare = false");
    reveal_strlit("is_bare");
    reveal_strlit("url");
    reveal_strlit("service");
    reveal_strlit("path");
    reveal_strlit("true");
    reveal_strlit("false");
    reveal_strlit("[[repos]]");
    let l = bare_line(b);
    assert(l[0] == 'i');
    assert(l[7] == ' ');
    assert(l[8] == '=');
    assert(l[9] == ' ');
    assert(l[l.len() - 1] == 'e');
    lemma_trim_untouched(l);
    assert(l != "[[repos]]"@) by {
        assert("[[repos]]"@[0] == '[');
    }
    let k = l.subrange(0, 8);
    lemma_trim_start_subrange(k, 0);
    assert(k.subrange(0, 8) =~= k);
    lemma_trim_end_subrange(k, 7);
    assert(k.subrange(0, 7) =~= "is_bare"@);
    let v = l.subrange(9, l.len() as int);
    assert(v[0] == ' ');
    assert(v[1] == (if b { 't' } else { 'f' }));
    lemma_trim_start_subrange(v, 1);
    let v1 = v.subrange(1, v.len() as int);
    assert(v1[v1.len() - 1] == 'e');
    lemma_trim_end_subrange(v1, v1.len() as int);
    assert(v1.subrange(0, v1.len() as int) =~= v1);
    assert(trim_spec(l.subrange(9, l.len() as int)) == v1);
    if b {
        assert(v1 =~= "true"@);
    } else {
        assert(v1 =~= "false"@);
    }
    assert(forall|j: int| 0 <= j < 8 ==> l[j] != '=');
    lemma_classify_quoted(l, 8, "is_bare"@, v1);
    assert("is_bare"@ != "url"@) by {
        assert("is_bare"@.len() == 7 && "url"@.len() == 3);
    }
    assert("is_bare"@ != "service"@) by {
        assert("is_bare"@[0] == 'i' && "service"@[0] == 's');
    }
    assert("is_bare"@ != "path"@) by {
        assert("is_bare"@.len() == 7 && "path"@.len() == 4);
    }
    if !b {
        assert("false"@ != "true"@) by {
            assert("false"@.len() == 5 && "true"@.len() == 4);
        }
    }
    assert(classify_keyed("is_bare"@, v1) == LineKind::KeyBool(b));
}

} // verus!

verus! {

/// Executable image of a classified line.
enum ParsedLine {
    Blank,
    Header,
    KeyStr(StrKey, String),
    KeyBool(bool),
    Malformed,
}

impl View for ParsedLine {
    type V = LineKind;

    closed spec fn view(&self) -> LineKind {
        match self {
            ParsedLine::Blank => LineKind::Blank,
            ParsedLine::Header => LineKind::Header,
            ParsedLine::KeyStr(k, s) => LineKind::KeyStr(*k, s@),
            ParsedLine::KeyBool(b) => LineKind::KeyBool(*b),
            ParsedLine::Malformed => LineKind::Malformed,
        }
    }
}

/// Executable image of a record under construction.
struct RepoBuilder {
    url: Option<String>,
    service: Option<VCService>,
    path: Option<String>,
    is_bare: Option<bool>,
}

impl View for RepoBuilder {
    type V = PartialRepo;

    closed spec fn view(&self) -> PartialRepo {
        PartialRepo {
            url: match self.url {
                Some(u) => Some(u@),
                None => None,
            },
            service: self.service,
            path: match self.path {
                Some(p) => Some(p@),
                None => None,
            },
            is_bare: self.is_bare,
        }
    }
}

/// The builder state as seen by the grammar.
spec fn builder_view(b: Option<RepoBuilder>) -> Option<PartialRepo> {
    match b {
        Some(x) => Some(x@),
        None => None,
    }
}

fn parse_str_value(v: &str) -> (r: Option<String>)
    ensures
        match r {
            Some(s) => str_value(v@) matches Some(sv) && s@ == sv,
            None => str_value(v@) is None,
        },
{
    let n = v.unicode_len();
    if n < 2 {
        return None;
    }
    if v.get_char(0) != '"' {
        return None;
    }
    if v.get_char(n - 1) != '"' {
        return None;
    }
    let ghost inner = v@.subrange(1, v@.len() - 1);
    let mut j: usize = 1;
    while j < n - 1
        invariant
            1 <= j <= n - 1,
            n == v@.len(),
            n >= 2,
            inner == v@.subrange(1, v@.len() - 1),
            forall|k: int| 1 <= k < j ==> v@[k] != '"' && v@[k] != '\\',
        decreases n - j,
    {
        let c = v.get_char(j);
        if c == '"' || c == '\\' {
            proof {
                assert(inner[j - 1] == v@[j as int]);
            }
            return None;
        }
        j = j + 1;
    }
    proof {
        assert(forall|k: int| 0 <= k < inner.len() ==> inner[k] == v@[k + 1]);
        assert(forall|k: int| 0 <= k < inner.len() ==> inner[k] != '"' && inner[k] != '\\');
    }
    Some(String::from_str(v.substring_char(1, n - 1)))
}

fn classify_line_exec(l: &str) -> (r: ParsedLine)
    ensures
        r@ == classify_line(l@),
{
    let t = trim(l);
    let n = t.unicode_len();
    if n == 0 {
        return ParsedLine::Blank;
    }
    if t.get_char(0) == '#' {
        return ParsedLine::Blank;
    }
    if str_eq(t, "[[repos]]") {
        return ParsedLine::Header;
    }
    let e = find_char(t, '=', 0);
    proof {
        lemma_find_char_from(t@, '=', 0);
    }
    if e == n {
        return ParsedLine::Malformed;
    }
    let k = trim(t.substring_char(0, e));
    let v = trim(t.substring_char(e + 1, n));
    if str_eq(k, "url") {
        match parse_str_value(v) {
            Some(s) => ParsedLine::KeyStr(StrKey::Url, s),
            None => ParsedLine::Malformed,
        }
    } else if str_eq(k, "service") {
        match parse_str_value(v) {
            Some(s) => ParsedLine::KeyStr(StrKey::Service, s),
            None => ParsedLine::Malformed,
        }
    } else if str_eq(k, "path") {
        match parse_str_value(v) {
            Some(s) => ParsedLine::KeyStr(StrKey::Path, s),
            None => ParsedLine::Malformed,
        }
    } else if str_eq(k, "is_bare") {
        if str_eq(v, "true") {
            ParsedLine::KeyBool(true)
        } else if str_eq(v, "false") {
            ParsedLine::KeyBool(false)
        } else {
            ParsedLine::Malformed
        }
    } else {
        ParsedLine::Malformed
    }
}

fn apply_str_key_exec(b: RepoBuilder, k: StrKey, v: String) -> (r: Result<
    RepoBuilder,
    ManifestError,
>)
    ensures
        match r {
            Ok(b2) => apply_str_key(b@, k, v@) matches Ok(p2) && b2@ == p2,
            Err(e) => apply_str_key(b@, k, v@) matches Err(e2) && e == e2,
        },
{
    match k {
        StrKey::Url => {
            if b.url.is_some() {
                Err(ManifestError::DuplicateKey)
            } else {
                Ok(RepoBuilder { url: Some(v), ..b })
            }
        },
        StrKey::Service => {
            if b.service.is_some() {
                Err(ManifestError::DuplicateKey)
            } else if str_eq(v.as_str(), "Git") {
                Ok(RepoBuilder { service: Some(VCService::Git), ..b })
            } else {
                Err(ManifestError::UnrecognizedService)
            }
        },
        StrKey::Path => {
            if b.path.is_some() {
                Err(ManifestError::DuplicateKey)
            } else {
                Ok(RepoBuilder { path: Some(v), ..b })
            }
        },
    }
}

fn apply_bool_key_exec(b: RepoBuilder, val: bool) -> (r: Result<RepoBuilder, ManifestError>)
    ensures
        match r {
            Ok(b2) => apply_bool_key(b@, val) matches Ok(p2) && b2@ == p2,
            Err(e) => apply_bool_key(b@, val) matches Err(e2) && e == e2,
        },
{
    if b.is_bare.is_some() {
        Err(ManifestError::DuplicateKey)
    } else {
        Ok(RepoBuilder { is_bare: Some(val), ..b })
    }
}

fn finish_record_exec(b: RepoBuilder) -> (r: Result<Repo, ManifestError>)
    ensures
        match r {
            Ok(repo) => finish_record(b@) matches Ok(rv) && repo@ == rv,
            Err(e) => finish_record(b@) matches Err(e2) && e == e2,
        },
{
    match (b.url, b.service, b.path) {
        (Some(url), Some(service), Some(path)) => {
            if url.unicode_len() == 0 {
                Err(ManifestError::EmptyUrl)
            } else if path.unicode_len() == 0 {
                Err(ManifestError::EmptyPath)
            } else {
                Ok(Repo { url, service, path, is_bare: b.is_bare })
            }
        },
        (None, _, _) => Err(ManifestError::MissingUrl),
        (Some(_), None, _) => Err(ManifestError::MissingService),
        (Some(_), Some(_), None) => Err(ManifestError::MissingPath),
    }
}

impl Manifest {
    /// Parses a manifest text into its ordered records; the result is
    /// exactly what the grammar `parse_manifest` assigns to the text.
    pub fn from_toml_str(toml_str: &str) -> (r: Result<Manifest, ManifestError>)
        ensures
            result_view(r) == parse_manifest(toml_str@),
    {
        let lines = get_output_lines(toml_str);
        let ghost all = lines_of(toml_str@);
        let mut cur: Option<RepoBuilder> = None;
        let mut acc: Vec<Repo> = Vec::new();
        let mut i: usize = 0;
        proof {
            assert(all.skip(0) =~~= all);
            assert(acc@.map_values(|x: Repo| x@) =~= Seq::<RepoView>::empty());
        }
        while i < lines.len()
            invariant
                i <= lines.len(),
                lines.deep_view() == all,
                parse_manifest(toml_str@) == parse_lines(
                    all.skip(i as int),
                    builder_view(cur),
                    acc@.map_values(|x: Repo| x@),
                ),
            decreases lines.len() - i,
        {
            let ghost rem = all.skip(i as int);
            proof {
                assert(rem[0] == lines.deep_view()[i as int]);
                assert(rem.drop_first() =~~= all.skip(i as int + 1));
            }
            let pl = classify_line_exec(lines[i].as_str());
            let ghost pre_acc = acc@.map_values(|x: Repo| x@);
            match pl {
                ParsedLine::Blank => {},
                ParsedLine::Header => {
                    match cur {
                        None => {
                            cur = Some(
                                RepoBuilder { url: None, service: None, path: None, is_bare: None },
                            );
                        },
                        Some(b) => {
                            match finish_record_exec(b) {
                                Ok(repo) => {
                                    acc.push(repo);
                                    proof {
                                        assert(acc@.map_values(|x: Repo| x@) =~= pre_acc.push(
                                            acc@[acc@.len() - 1]@,
                                        ));
                                    }
                                    cur = Some(
                                        RepoBuilder {
                                            url: None,
                                            service: None,
                                            path: None,
                                            is_bare: None,
                                        },
                                    );
                                },
                                Err(e) => {
                                    return Err(e);
                                },
                            }
                        },
                    }
                },
                ParsedLine::KeyStr(k, v) => {
                    match cur {
                        None => {
                            return Err(ManifestError::KeyOutsideRecord);
                        },
                        Some(b) => {
                            match apply_str_key_exec(b, k, v) {
                                Ok(b2) => {
                                    cur = Some(b2);
                                },
                                Err(e) => {
                                    return Err(e);
                                },
                            }
                        },
                    }
                },
                ParsedLine::KeyBool(bv) => {
                    match cur {
                        None => {
                            return Err(ManifestError::KeyOutsideRecord);
                        },
                        Some(b) => {
                            match apply_bool_key_exec(b, bv) {
                                Ok(b2) => {
                                    cur = Some(b2);
                                },
                                Err(e) => {
                                    return Err(e);
                                },
                            }
                        },
                    }
                },
                ParsedLine::Malformed => {
                    return Err(ManifestError::SyntaxError);
                },
            }
            i = i + 1;
        }
        proof {
            assert(all.skip(i as int) =~~= Seq::<Seq<char>>::empty());
        }
        match cur {
            None => Err(ManifestError::MissingRepos),
            Some(b) => {
                let ghost pre_acc = acc@.map_values(|x: Repo| x@);
                match finish_record_exec(b) {
                    Ok(repo) => {
                        acc.push(repo);
                        proof {
                            assert(acc@.map_values(|x: Repo| x@) =~= pre_acc.push(
                                acc@[acc@.len() - 1]@,
                            ));
                        }
                        Ok(Manifest { repos: acc })
                    },
                    Err(e) => Err(e),
                }
            },
        }
    }

    /// Renders the records back to manifest text; the result is exactly the
    /// canonical text `serialize_repos` assigns to them.
    pub fn to_toml_string(&self) -> (r: String)
        ensures
            r@ == serialize_repos(self@),
    {
        let mut out = String::new();
        let mut k: usize = 0;
        proof {
            assert(self@.take(0) =~= Seq::<RepoView>::empty());
        }
        while k < self.repos.len()
            invariant
                k <= self.repos.len(),
                self@.len() == self.repos.len(),
                out@ == serialize_repos(self@.take(k as int)),
            decreases self.repos.len() - k,
        {
            out.append("[[repos]]\n");
            out.append("url = \"");
            out.append(self.repos[k].url.as_str());
            out.append("\"\n");
            out.append("service = \"Git\"\n");
            out.append("path = \"");
            out.append(self.repos[k].path.as_str());
            out.append("\"\n");
            match self.repos[k].is_bare {
                Some(true) => out.append("is_bare = true\n"),
                Some(false) => out.append("is_bare = false\n"),
                None => {},
            }
            proof {
                assert(self@[k as int] == self.repos@[k as int]@);
                lemma_serialize_snoc(self@.take(k as int), self@[k as int]);
                assert(self@.take(k as int).push(self@[k as int]) =~= self@.take(k as int + 1));
                assert(out@ =~= serialize_repos(self@.take(k as int + 1)));
            }
            k = k + 1;
        }
        proof {
            assert(self@.take(self@.len() as int) =~= self@);
        }
        out
    }
}

/// The default manifest location under the given home directory.
pub fn default_manifest_path(home: &str) -> (r: String)
    ensures
        r@ == home@ + "/.config/repoteer/manifest.toml"@,
{
    let mut out = String::from_str(home);
    out.append("/.config/repoteer/manifest.toml");
    out
}

} // verus!

verus! {

/// The line fold itself, without the closing flush: the record being built
/// and the finished records after the given lines.
pub open spec fn process_lines(
    lines: Seq<Seq<char>>,
    cur: Option<PartialRepo>,
    acc: Seq<RepoView>,
) -> Result<(Option<PartialRepo>, Seq<RepoView>), ManifestError>
    decreases lines.len(),
{
    if lines.len() == 0 {
        Ok((cur, acc))
    } else {
        match classify_line(lines[0]) {
            LineKind::Blank => process_lines(lines.drop_first(), cur, acc),
            LineKind::Header => match cur {
                None => process_lines(lines.drop_first(), Some(empty_partial()), acc),
                Some(p) => match finish_record(p) {
                    Ok(r) => process_lines(lines.drop_first(), Some(empty_partial()), acc.push(r)),
                    Err(e) => Err(e),
                },
            },
            LineKind::KeyStr(k, v) => match cur {
                None => Err(ManifestError::KeyOutsideRecord),
                Some(p) => match apply_str_key(p, k, v) {
                    Ok(p2) => process_lines(lines.drop_first(), Some(p2), acc),
                    Err(e) => Err(e),
                },
            },
            LineKind::KeyBool(b) => match cur {
                None => Err(ManifestError::KeyOutsideRecord),
                Some(p) => match apply_bool_key(p, b) {
                    Ok(p2) => process_lines(lines.drop_first(), Some(p2), acc),
                    Err(e) => Err(e),
                },
            },
            LineKind::Malformed => Err(ManifestError::SyntaxError),
        }
    }
}

/// The closing flush of the fold.
pub open spec fn finalize_record(cur: Option<PartialRepo>, acc: Seq<RepoView>) -> Result<
    Seq<RepoView>,
    ManifestError,
> {
    match cur {
        None => Err(ManifestError::MissingRepos),
        Some(p) => match finish_record(p) {
            Ok(r) => Ok(acc.push(r)),
            Err(e) => Err(e),
        },
    }
}

/// Parsing is the fold followed by the flush.
pub proof fn lemma_parse_via_process(
    lines: Seq<Seq<char>>,
    cur: Option<PartialRepo>,
    acc: Seq<RepoView>,
)
    ensures
        parse_lines(lines, cur, acc) == (match process_lines(lines, cur, acc) {
            Ok((c, a)) => finalize_record(c, a),
            Err(e) => Err(e),
        }),
    decreases lines.len(),
{
    if lines.len() > 0 {
        match classify_line(lines[0]) {
            LineKind::Blank => lemma_parse_via_process(lines.drop_first(), cur, acc),
            LineKind::Header => match cur {
                None => lemma_parse_via_process(lines.drop_first(), Some(empty_partial()), acc),
                Some(p) => match finish_record(p) {
                    Ok(r) => lemma_parse_via_process(
                        lines.drop_first(),
                        Some(empty_partial()),
                        acc.push(r),
                    ),
                    Err(e) => {},
                },
            },
            LineKind::KeyStr(k, v) => match cur {
                None => {},
                Some(p) => match apply_str_key(p, k, v) {
                    Ok(p2) => lemma_parse_via_process(lines.drop_first(), Some(p2), acc),
                    Err(e) => {},
                },
            },
            LineKind::KeyBool(b) => match cur {
                None => {},
                Some(p) => match apply_bool_key(p, b) {
                    Ok(p2) => lemma_parse_via_process(lines.drop_first(), Some(p2), acc),
                    Err(e) => {},
                },
            },
            LineKind::Malformed => {},
        }
    }
}

/// The fold over split line sequences composes.
pub proof fn lemma_process_append(
    ls1: Seq<Seq<char>>,
    ls2: Seq<Seq<char>>,
    cur: Option<PartialRepo>,
    acc: Seq<RepoView>,
)
    ensures
        process_lines(ls1 + ls2, cur, acc) == (match process_lines(ls1, cur, acc) {
            Ok((c, a)) => process_lines(ls2, c, a),
            Err(e) => Err(e),
        }),
    decreases ls1.len(),
{
    if ls1.len() == 0 {
        assert(ls1 + ls2 =~~= ls2);
    } else {
        assert((ls1 + ls2)[0] == ls1[0]);
        assert((ls1 + ls2).drop_first() =~~= ls1.drop_first() + ls2);
        match classify_line(ls1[0]) {
            LineKind::Blank => lemma_process_append(ls1.drop_first(), ls2, cur, acc),
            LineKind::Header => match cur {
                None => lemma_process_append(ls1.drop_first(), ls2, Some(empty_partial()), acc),
                Some(p) => match finish_record(p) {
                    Ok(r) => lemma_process_append(
                        ls1.drop_first(),
                        ls2,
                        Some(empty_partial()),
                        acc.push(r),
                    ),
                    Err(e) => {},
                },
            },
            LineKind::KeyStr(k, v) => match cur {
                None => {},
                Some(p) => match apply_str_key(p, k, v) {
                    Ok(p2) => lemma_process_append(ls1.drop_first(), ls2, Some(p2), acc),
                    Err(e) => {},
                },
            },
            LineKind::KeyBool(b) => match cur {
                None => {},
                Some(p) => match apply_bool_key(p, b) {
                    Ok(p2) => lemma_process_append(ls1.drop_first(), ls2, Some(p2), acc),
                    Err(e) => {},
                },
            },
            LineKind::Malformed => {},
        }
    }
}

/// The fully-read state of one record.
pub open spec fn partial_of(r: RepoView) -> PartialRepo {
    PartialRepo {
        url: Some(r.url),
        service: Some(r.service),
        path: Some(r.path),
        is_bare: r.is_bare,
    }
}

pub proof fn lemma_finish_partial(r: RepoView)
    requires
        serializable_record(r),
    ensures
        finish_record(partial_of(r)) == Ok::<RepoView, ManifestError>(r),
{
}

/// The record carried over from before a header, as the fold state.
pub open spec fn opt_partial(prev: Option<RepoView>) -> Option<PartialRepo> {
    match prev {
        None => None,
        Some(r0) => Some(partial_of(r0)),
    }
}

/// The finished records once the carried-over record is flushed.
pub open spec fn flush_prev(prev: Option<RepoView>, acc: Seq<RepoView>) -> Seq<RepoView> {
    match prev {
        None => acc,
        Some(r0) => acc.push(r0),
    }
}

pub open spec fn prev_ok(prev: Option<RepoView>) -> bool {
    match prev {
        None => true,
        Some(r0) => serializable_record(r0),
    }
}

/// Folding one serialized record flushes what came before it and leaves the
/// record fully read.
pub proof fn lemma_process_record(r: RepoView, prev: Option<RepoView>, acc: Seq<RepoView>)
    requires
        serializable_record(r),
        prev_ok(prev),
    ensures
        process_lines(record_lines(r), opt_partial(prev), acc) == Ok::<
            (Option<PartialRepo>, Seq<RepoView>),
            ManifestError,
        >((Some(partial_of(r)), flush_prev(prev, acc))),
{
    let ls = record_lines(r);
    lemma_classify_header();
    lemma_classify_url(r);
    lemma_classify_service();
    lemma_classify_path(r);
    let acc1 = flush_prev(prev, acc);
    assert(ls[0] == "[[repos]]"@);
    match prev {
        Some(r0) => lemma_finish_partial(r0),
        None => {},
    }
    let p0 = empty_partial();
    let p1 = PartialRepo { url: Some(r.url), ..p0 };
    let p2 = PartialRepo { service: Some(r.service), ..p1 };
    let p3 = PartialRepo { path: Some(r.path), ..p2 };
    assert(r.service == VCService::Git);
    assert(apply_str_key(p0, StrKey::Url, r.url) == Ok::<PartialRepo, ManifestError>(p1));
    assert(apply_str_key(p1, StrKey::Service, "Git"@) == Ok::<PartialRepo, ManifestError>(p2));
    assert(apply_str_key(p2, StrKey::Path, r.path) == Ok::<PartialRepo, ManifestError>(p3));
    match r.is_bare {
        None => {
            let ls1 = seq![url_line(r), service_line(), path_line(r)];
            let ls2 = seq![service_line(), path_line(r)];
            let ls3 = seq![path_line(r)];
            let ls4 = Seq::<Seq<char>>::empty();
            assert(ls.drop_first() =~~= ls1);
            assert(ls1.drop_first() =~~= ls2);
            assert(ls2.drop_first() =~~= ls3);
            assert(ls3.drop_first() =~~= ls4);
            assert(process_lines(ls, opt_partial(prev), acc) == process_lines(
                ls1,
                Some(p0),
                acc1,
            ));
            assert(process_lines(ls1, Some(p0), acc1) == process_lines(ls2, Some(p1), acc1));
            assert(process_lines(ls2, Some(p1), acc1) == process_lines(ls3, Some(p2), acc1));
            assert(process_lines(ls3, Some(p2), acc1) == process_lines(ls4, Some(p3), acc1));
            assert(process_lines(ls4, Some(p3), acc1) == Ok::<
                (Option<PartialRepo>, Seq<RepoView>),
                ManifestError,
            >((Some(p3), acc1)));
            assert(p3 == partial_of(r));
        },
        Some(b) => {
            lemma_classify_bare(b);
            let p4 = PartialRepo { is_bare: Some(b), ..p3 };
            let ls1 = seq![url_line(r), service_line(), path_line(r), bare_line(b)];
            let ls2 = seq![service_line(), path_line(r), bare_line(b)];
            let ls3 = seq![path_line(r), bare_line(b)];
            let ls4 = seq![bare_line(b)];
            let ls5 = Seq::<Seq<char>>::empty();
            assert(ls.drop_first() =~~= ls1);
            assert(ls1.drop_first() =~~= ls2);
            assert(ls2.drop_first() =~~= ls3);
            assert(ls3.drop_first() =~~= ls4);
            assert(ls4.drop_first() =~~= ls5);
            assert(process_lines(ls, opt_partial(prev), acc) == process_lines(
                ls1,
                Some(p0),
                acc1,
            ));
            assert(process_lines(ls1, Some(p0), acc1) == process_lines(ls2, Some(p1), acc1));
            assert(process_lines(ls2, Some(p1), acc1) == process_lines(ls3, Some(p2), acc1));
            assert(process_lines(ls3, Some(p2), acc1) == process_lines(ls4, Some(p3), acc1));
            assert(apply_bool_key(p3, b) == Ok::<PartialRepo, ManifestError>(p4));
            assert(process_lines(ls4, Some(p3), acc1) == process_lines(ls5, Some(p4), acc1));
            assert(process_lines(ls5, Some(p4), acc1) == Ok::<
                (Option<PartialRepo>, Seq<RepoView>),
                ManifestError,
            >((Some(p4), acc1)));
            assert(p4 == partial_of(r));
        },
    }
}

/// Folding a whole serialized record sequence leaves the last record fully
/// read and all earlier ones finished, behind whatever was flushed first.
pub proof fn lemma_process_serialized(
    rs: Seq<RepoView>,
    prev: Option<RepoView>,
    acc: Seq<RepoView>,
)
    requires
        rs.len() > 0,
        forall|i: int| 0 <= i < rs.len() ==> serializable_record(#[trigger] rs[i]),
        prev_ok(prev),
    ensures
        process_lines(lines_of(serialize_repos(rs)), opt_partial(prev), acc) == Ok::<
            (Option<PartialRepo>, Seq<RepoView>),
            ManifestError,
        >((Some(partial_of(rs.last())), flush_prev(prev, acc) + rs.drop_last())),
    decreases rs.len(),
{
    let r0 = rs[0];
    assert(serializable_record(r0));
    let tail = serialize_repos(rs.drop_first());
    assert(serialize_repos(rs) == record_text(r0) + tail);
    lemma_record_lines(r0, tail);
    lemma_process_append(record_lines(r0), lines_of(tail), opt_partial(prev), acc);
    lemma_process_record(r0, prev, acc);
    if rs.len() == 1 {
        assert(rs.drop_first().len() == 0);
        assert(tail == Seq::<char>::empty());
        lemma_lines_of_empty();
        assert(process_lines(lines_of(tail), Some(partial_of(r0)), flush_prev(prev, acc)) == Ok::<
            (Option<PartialRepo>, Seq<RepoView>),
            ManifestError,
        >((Some(partial_of(r0)), flush_prev(prev, acc))));
        assert(rs.last() == r0);
        assert(flush_prev(prev, acc) + rs.drop_last() =~= flush_prev(prev, acc));
    } else {
        assert forall|i: int|
            0 <= i < rs.drop_first().len() implies serializable_record(
            #[trigger] rs.drop_first()[i],
        ) by {
            assert(rs.drop_first()[i] == rs[i + 1]);
        }
        lemma_process_serialized(rs.drop_first(), Some(r0), flush_prev(prev, acc));
        assert(rs.drop_first().last() == rs.last());
        assert(flush_prev(Some(r0), flush_prev(prev, acc)) == flush_prev(prev, acc).push(r0));
        assert(flush_prev(prev, acc).push(r0) + rs.drop_first().drop_last() =~= flush_prev(
            prev,
            acc,
        ) + rs.drop_last());
    }
}

/// Round trip, construction half: serializing well-formed records and
/// parsing the text back yields exactly those records.
pub proof fn lemma_serialize_then_parse(rs: Seq<RepoView>)
    requires
        rs.len() > 0,
        forall|i: int| 0 <= i < rs.len() ==> serializable_record(#[trigger] rs[i]),
    ensures
        parse_manifest(serialize_repos(rs)) == Ok::<Seq<RepoView>, ManifestError>(rs),
{
    lemma_process_serialized(rs, None, Seq::<RepoView>::empty());
    lemma_parse_via_process(lines_of(serialize_repos(rs)), None, Seq::<RepoView>::empty());
    lemma_finish_partial(rs.last());
    assert(Seq::<RepoView>::empty() + rs.drop_last() =~= rs.drop_last());
    assert(rs.drop_last().push(rs.last()) =~= rs);
}

/// A partially built record whose string fields could all round-trip.
pub open spec fn partial_serializable(p: PartialRepo) -> bool {
    &&& (p.url matches Some(u) ==> serializable_str(u))
    &&& (p.path matches Some(x) ==> serializable_str(x))
}

/// A value extracted from a newline-free line is serializable.
proof fn lemma_classify_value_serializable(l: Seq<char>, k: StrKey, v: Seq<char>)
    requires
        no_nl(l),
        classify_line(l) == LineKind::KeyStr(k, v),
    ensures
        serializable_str(v),
{
    lemma_trim_no_nl(l);
    let t = trim_spec(l);
    assert(no_nl(t));
    let e = find_char_from(t, '=', 0);
    lemma_find_char_from(t, '=', 0);
    let raw = t.subrange(e + 1, t.len() as int);
    assert forall|j: int| 0 <= j < raw.len() implies raw[j] != '\n' by {
        assert(raw[j] == t[e + 1 + j]);
    }
    lemma_trim_no_nl(raw);
    let vr = trim_spec(raw);
    assert(no_nl(vr));
    assert(str_value(vr) == Some(v));
    let inner = vr.subrange(1, vr.len() - 1);
    assert(v == inner);
    assert forall|j: int| 0 <= j < v.len() implies v[j] != '"' && v[j] != '\\' && v[j] != '\n' by {
        assert(inner[j] == vr[j + 1]);
    }
}

/// Every record a successful parse yields is serializable, and there is at
/// least one.
pub proof fn lemma_parse_lines_serializable(
    lines: Seq<Seq<char>>,
    cur: Option<PartialRepo>,
    acc: Seq<RepoView>,
)
    requires
        forall|m: int| 0 <= m < lines.len() ==> no_nl(#[trigger] lines[m]),
        cur matches Some(p) ==> partial_serializable(p),
        forall|i: int| 0 <= i < acc.len() ==> serializable_record(#[trigger] acc[i]),
    ensures
        parse_lines(lines, cur, acc) matches Ok(rs) ==> (rs.len() >= 1 && forall|i: int|
            0 <= i < rs.len() ==> serializable_record(#[trigger] rs[i])),
    decreases lines.len(),
{
    if lines.len() == 0 {
        match cur {
            None => {},
            Some(p) => match finish_record(p) {
                Ok(r) => {
                    assert(serializable_record(r));
                    assert forall|i: int|
                        0 <= i < acc.push(r).len() implies serializable_record(
                        #[trigger] acc.push(r)[i],
                    ) by {
                        if i < acc.len() {
                            assert(acc.push(r)[i] == acc[i]);
                        }
                    }
                },
                Err(e) => {},
            },
        }
    } else {
        assert forall|m: int|
            0 <= m < lines.drop_first().len() implies no_nl(#[trigger] lines.drop_first()[m]) by {
            assert(lines.drop_first()[m] == lines[m + 1]);
        }
        match classify_line(lines[0]) {
            LineKind::Blank => lemma_parse_lines_serializable(lines.drop_first(), cur, acc),
            LineKind::Header => match cur {
                None => lemma_parse_lines_serializable(
                    lines.drop_first(),
                    Some(empty_partial()),
                    acc,
                ),
                Some(p) => match finish_record(p) {
                    Ok(r) => {
                        assert(serializable_record(r));
                        assert forall|i: int|
                            0 <= i < acc.push(r).len() implies serializable_record(
                            #[trigger] acc.push(r)[i],
                        ) by {
                            if i < acc.len() {
                                assert(acc.push(r)[i] == acc[i]);
                            }
                        }
                        lemma_parse_lines_serializable(
                            lines.drop_first(),
                            Some(empty_partial()),
                            acc.push(r),
                        );
                    },
                    Err(e) => {},
                },
            },
            LineKind::KeyStr(k, v) => match cur {
                None => {},
                Some(p) => match apply_str_key(p, k, v) {
                    Ok(p2) => {
                        lemma_classify_value_serializable(lines[0], k, v);
                        lemma_parse_lines_serializable(lines.drop_first(), Some(p2), acc);
                    },
                    Err(e) => {},
                },
            },
            LineKind::KeyBool(b) => match cur {
                None => {},
                Some(p) => match apply_bool_key(p, b) {
                    Ok(p2) => lemma_parse_lines_serializable(lines.drop_first(), Some(p2), acc),
                    Err(e) => {},
                },
            },
            LineKind::Malformed => {},
        }
    }
}

/// Round trip: a manifest text that parses, re-serialized from its records,
/// parses back to exactly the same record sequence.
pub proof fn lemma_manifest_roundtrip(s: Seq<char>)
    requires
        parse_manifest(s) is Ok,
    ensures
        parse_manifest(serialize_repos(parse_manifest(s)->Ok_0)) == parse_manifest(s),
{
    let rs = parse_manifest(s)->Ok_0;
    lemma_lines_of_elements(s);
    lemma_parse_lines_serializable(lines_of(s), None, Seq::<RepoView>::empty());
    lemma_serialize_then_parse(rs);
}

} // verus!
