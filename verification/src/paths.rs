//! Path text handling shared by the editor and the runtime: asset path
//! normalisation, joining, project folders and asset search roots.
//!
//! Paths are handled as text with `/` as the separator, the way
//! `std::path::Path` treats them on Unix.
use vstd::prelude::*;
use vstd::string::*;
use crate::text::{chars_of, string_of, string_of_range, trim_bounds, trim_seq};

verus! {

/// The views of a sequence of strings.
pub open spec fn views(v: Seq<String>) -> Seq<Seq<char>> {
    v.map_values(|s: String| s@)
}

/// A path is absolute when it starts at the root.
pub open spec fn is_absolute_seq(p: Seq<char>) -> bool {
    p.len() > 0 && p[0] == '/'
}

/// `Path::join`: an absolute `rel` replaces `base`; otherwise `rel` is
/// appended, with a `/` between the two unless `base` is empty or already
/// ends with one.
pub open spec fn join_seq(base: Seq<char>, rel: Seq<char>) -> Seq<char> {
    if is_absolute_seq(rel) {
        rel
    } else if base.len() == 0 || base.last() == '/' {
        base + rel
    } else {
        base + seq!['/'] + rel
    }
}

/// Every `\` replaced by `/`.
pub open spec fn forward_slashes(s: Seq<char>) -> Seq<char> {
    s.map_values(|c: char| if c == '\\' { '/' } else { c })
}

/// Every leading `./` removed, however many there are.
pub open spec fn strip_dot_slash(s: Seq<char>) -> Seq<char>
    decreases s.len(),
{
    if s.len() >= 2 && s[0] == '.' && s[1] == '/' {
        strip_dot_slash(s.subrange(2, s.len() as int))
    } else {
        s
    }
}

/// The normal form of an asset path: trimmed, with forward slashes and
/// without leading `./`.
pub open spec fn normalized_asset_path(s: Seq<char>) -> Seq<char> {
    strip_dot_slash(forward_slashes(trim_seq(s)))
}

/// A char that may stand in a project folder name.
pub open spec fn is_folder_char(c: char) -> bool {
    ||| 'a' <= c <= 'z'
    ||| 'A' <= c <= 'Z'
    ||| '0' <= c <= '9'
    ||| c == '_'
    ||| c == '-'
}

/// The chars of `s` that may stand in a folder name, in order.
pub open spec fn folder_chars(s: Seq<char>) -> Seq<char> {
    s.filter(|c: char| is_folder_char(c))
}

pub open spec fn untitled_project() -> Seq<char> {
    seq!['U', 'n', 't', 'i', 't', 'l', 'e', 'd', 'P', 'r', 'o', 'j', 'e', 'c', 't']
}

/// The folder name derived from a project name.
pub open spec fn sanitized_folder(name: Seq<char>) -> Seq<char> {
    if folder_chars(name).len() == 0 {
        untitled_project()
    } else {
        folder_chars(name)
    }
}

pub open spec fn projects_dir() -> Seq<char> {
    seq!['p', 'r', 'o', 'j', 'e', 'c', 't', 's']
}

pub open spec fn project_file_name() -> Seq<char> {
    seq![
        'p', 'r', 'o', 'j', 'e', 'c', 't', '.', 'c', 'r', 'a', 'b', '2', 'd', '.', 'j', 's', 'o', 'n'
    ]
}

pub open spec fn assets_dir() -> Seq<char> {
    seq!['a', 's', 's', 'e', 't', 's']
}

/// The default folder of a new project, under `projects/`.
pub open spec fn default_project_dir(name: Seq<char>) -> Seq<char> {
    join_seq(projects_dir(), sanitized_folder(name))
}

/// `v` with every run of equal neighbours reduced to its first element (`Vec::dedup`).
pub open spec fn dedup_seq<T>(v: Seq<T>) -> Seq<T>
    decreases v.len(),
{
    if v.len() <= 1 {
        v
    } else if v[v.len() - 2] == v.last() {
        dedup_seq(v.drop_last())
    } else {
        dedup_seq(v.drop_last()).push(v.last())
    }
}

/// Filtering a sequence whose elements all pass keeps it whole.
pub(crate) proof fn lemma_filter_keeps_all<A>(s: Seq<A>, p: spec_fn(A) -> bool)
    requires
        forall|i: int| 0 <= i < s.len() ==> p(#[trigger] s[i]),
    ensures
        s.filter(p) == s,
    decreases s.len(),
{
    reveal(Seq::filter);
    if s.len() > 0 {
        lemma_filter_keeps_all(s.drop_last(), p);
        assert(s.drop_last().push(s.last()) =~= s);
    }
}

/// A sequence without `\\` keeps none after leading `./` are stripped, and
/// the result does not start with `./`.
proof fn lemma_strip_dot_slash_shape(s: Seq<char>)
    requires
        !s.contains('\\'),
    ensures
        !strip_dot_slash(s).contains('\\'),
        !(strip_dot_slash(s).len() >= 2 && strip_dot_slash(s)[0] == '.' && strip_dot_slash(s)[1]
            == '/'),
    decreases s.len(),
{
    if s.len() >= 2 && s[0] == '.' && s[1] == '/' {
        let rest = s.subrange(2, s.len() as int);
        assert forall|i: int| 0 <= i < rest.len() implies rest[i] != '\\' by {
            assert(rest[i] == s[i + 2]);
        }
        lemma_strip_dot_slash_shape(rest);
    }
}

/// A normalised asset path holds no `\\` and does not start with `./`.
pub proof fn law_normalized_asset_path_shape(path: Seq<char>)
    ensures
        !normalized_asset_path(path).contains('\\'),
        !(normalized_asset_path(path).len() >= 2 && normalized_asset_path(path)[0] == '.'
            && normalized_asset_path(path)[1] == '/'),
{
    let slashed = forward_slashes(trim_seq(path));
    assert forall|i: int| 0 <= i < slashed.len() implies slashed[i] != '\\' by {}
    lemma_strip_dot_slash_shape(slashed);
}

/// A project folder name is never empty, holds only ASCII letters, digits,
/// `_` and `-`, and sanitising it again leaves it as it is.
pub proof fn law_sanitized_folder_is_stable(name: Seq<char>)
    ensures
        sanitized_folder(name).len() > 0,
        forall|i: int|
            0 <= i < sanitized_folder(name).len() ==> is_folder_char(
                #[trigger] sanitized_folder(name)[i],
            ),
        sanitized_folder(sanitized_folder(name)) == sanitized_folder(name),
{
    let f = sanitized_folder(name);
    let p = |c: char| is_folder_char(c);
    if folder_chars(name).len() == 0 {
        assert(f == untitled_project());
    } else {
        assert forall|i: int| 0 <= i < f.len() implies is_folder_char(#[trigger] f[i]) by {
            name.lemma_filter_pred(p, i);
        }
    }
    assert forall|i: int| 0 <= i < f.len() implies p(#[trigger] f[i]) by {
        if folder_chars(name).len() != 0 {
            name.lemma_filter_pred(p, i);
        }
    }
    lemma_filter_keeps_all(f, p);
}

/// Whether `s` is an absolute path.
pub fn is_absolute_path(s: &str) -> (r: bool)
    ensures
        r == is_absolute_seq(s@),
{
    s.unicode_len() > 0 && s.get_char(0) == '/'
}

/// `base` joined with `rel` (`Path::join`).
pub fn join_path(base: &str, rel: &str) -> (r: String)
    ensures
        r@ == join_seq(base@, rel@),
{
    if is_absolute_path(rel) {
        return String::from_str(rel);
    }
    let n = base.unicode_len();
    let mut r = String::from_str(base);
    if n > 0 && base.get_char(n - 1) != '/' {
        r.append("/");
        proof {
            reveal_strlit("/");
        }
    }
    r.append(rel);
    r
}

/// Normalises an asset path: surrounding whitespace trimmed, `\` turned
/// into `/`, and every leading `./` removed.
pub fn normalize_asset_path(path: &str) -> (r: String)
    ensures
        r@ == normalized_asset_path(path@),
{
    let chars = chars_of(path);
    let (a, b) = trim_bounds(&chars);
    let mut slashed: Vec<char> = Vec::new();
    let mut i: usize = a;
    while i < b
        invariant
            a <= i <= b <= chars.len(),
            slashed@ == forward_slashes(chars@.subrange(a as int, i as int)),
        decreases b - i,
    {
        let c = chars[i];
        if c == '\\' {
            slashed.push('/');
        } else {
            slashed.push(c);
        }
        i = i + 1;
        assert(slashed@ =~= forward_slashes(chars@.subrange(a as int, i as int)));
    }
    let n = slashed.len();
    let mut start: usize = 0;
    assert(slashed@ =~= slashed@.subrange(0, n as int));
    while n - start >= 2 && slashed[start] == '.' && slashed[start + 1] == '/'
        invariant
            start <= n == slashed.len(),
            strip_dot_slash(slashed@) == strip_dot_slash(slashed@.subrange(start as int, n as int)),
        decreases n - start,
    {
        proof {
            let s = slashed@.subrange(start as int, n as int);
            assert(s.subrange(2, s.len() as int) =~= slashed@.subrange(start + 2, n as int));
        }
        start = start + 2;
    }
    proof {
        let s = slashed@.subrange(start as int, n as int);
        if s.len() >= 2 {
            assert(s[0] == slashed@[start as int]);
            assert(s[1] == slashed@[start + 1]);
        }
        assert(strip_dot_slash(s) == s);
    }
    string_of_range(&slashed, start, n)
}

/// The folder name used for a project: the ASCII letters, digits, `_` and
/// `-` of its name, or `UntitledProject` when none are left.
pub fn sanitize_project_folder(project_name: &str) -> (r: String)
    ensures
        r@ == sanitized_folder(project_name@),
{
    let chars = chars_of(project_name);
    let mut kept: Vec<char> = Vec::new();
    let mut i: usize = 0;
    while i < chars.len()
        invariant
            i <= chars.len(),
            kept@ == folder_chars(chars@.take(i as int)),
        decreases chars.len() - i,
    {
        let c = chars[i];
        proof {
            let t = chars@.take(i as int + 1);
            assert(t.drop_last() =~= chars@.take(i as int));
            assert(t.last() == c);
            reveal_with_fuel(Seq::filter, 1);
        }
        if ('a' <= c && c <= 'z') || ('A' <= c && c <= 'Z') || ('0' <= c && c <= '9') || c == '_'
            || c == '-' {
            kept.push(c);
        }
        i = i + 1;
    }
    assert(chars@.take(chars@.len() as int) =~= chars@);
    if kept.len() == 0 {
        proof {
            reveal_strlit("UntitledProject");
        }
        String::from_str("UntitledProject")
    } else {
        string_of(&kept)
    }
}

/// The default folder of a new project: `projects/<folder>`.
pub fn default_project_path(project_name: &str) -> (r: String)
    ensures
        r@ == default_project_dir(project_name@),
{
    let folder = sanitize_project_folder(project_name);
    proof {
        reveal_strlit("projects");
    }
    join_path("projects", folder.as_str())
}

/// The default project file of a new project: `projects/<folder>/project.crab2d.json`.
pub fn default_project_file_path(project_name: &str) -> (r: String)
    ensures
        r@ == join_seq(default_project_dir(project_name@), project_file_name()),
{
    let dir = default_project_path(project_name);
    proof {
        reveal_strlit("project.crab2d.json");
    }
    join_path(dir.as_str(), "project.crab2d.json")
}

/// `v` with runs of equal neighbours reduced to one (`Vec::dedup`).
pub fn dedup_strings(v: Vec<String>) -> (r: Vec<String>)
    ensures
        views(r@) == dedup_seq(views(v@)),
{
    let mut r: Vec<String> = Vec::new();
    let mut i: usize = 0;
    while i < v.len()
        invariant
            i <= v.len(),
            views(r@) == dedup_seq(views(v@.take(i as int))),
            i > 0 ==> r.len() > 0 && r@.last()@ == v@[i - 1]@,
            i == 0 ==> r.len() == 0,
        decreases v.len() - i,
    {
        let ghost prefix = views(v@.take(i as int + 1));
        proof {
            assert(prefix.drop_last() =~= views(v@.take(i as int)));
            assert(prefix.last() == v@[i as int]@);
            if i > 0 {
                assert(prefix[prefix.len() - 2] == v@[i - 1]@);
            }
        }
        let dup = i > 0 && r[r.len() - 1] == v[i];
        if !dup {
            r.push(v[i].clone());
            assert(views(r@) =~= views(r@.drop_last()).push(v@[i as int]@));
        }
        i = i + 1;
    }
    assert(v@.take(v@.len() as int) =~= v@);
    r
}

} // verus!
