//! Asset lookup in the runtime: the search roots derived from the project
//! file, the candidate files for an asset, and which one is used.
use vstd::prelude::*;
use vstd::string::*;
use crate::paths::{
    assets_dir, is_absolute_path, is_absolute_seq, join_path, join_seq, normalized_asset_path, views,
};

verus! {

/// What `Path::parent` gives for a path: the path without its last
/// component, or `None` for a root or an empty path.
pub uninterp spec fn parent_of(p: Seq<char>) -> Option<Seq<char>>;

/// The parent of `path`.
/// Calls `Path::parent` and converts the result back to a `String` (a prefix
/// of a `&str` cut at a separator is valid UTF-8). The result is named
/// `parent_of`.
#[verifier::external_body]
fn path_parent(path: &str) -> (r: Option<String>)
    ensures
        match r {
            Some(p) => parent_of(path@) == Some(p@),
            None => parent_of(path@) is None,
        },
{
    std::path::Path::new(path).parent().and_then(|parent| parent.to_str()).map(|parent| parent.to_owned())
}

pub open spec fn saves_dir() -> Seq<char> {
    seq!['s', 'a', 'v', 'e', 's']
}

pub open spec fn editor_assets_dir() -> Seq<char> {
    seq![
        'a', 'p', 'p', 's', '/', 'c', 'r', 'a', 'b', '2', 'd', '-', 'e', 'd', 'i', 't', 'o', 'r',
        '/', 'a', 's', 's', 'e', 't', 's'
    ]
}

pub open spec fn runtime_assets_dir() -> Seq<char> {
    seq![
        'a', 'p', 'p', 's', '/', 'c', 'r', 'a', 'b', '2', 'd', '-', 'r', 'u', 'n', 't', 'i', 'm',
        'e', '/', 'a', 's', 's', 'e', 't', 's'
    ]
}

/// The roots searched for runtime assets: the project folder and its
/// `assets` folder, then the `assets` folders under the working directory.
pub open spec fn runtime_roots(parent: Option<Seq<char>>, current_dir: Option<Seq<char>>) -> Seq<
    Seq<char>,
> {
    let from_project = match parent {
        Some(p) => seq![p, join_seq(p, assets_dir())],
        None => Seq::empty(),
    };
    let from_cwd = match current_dir {
        Some(d) => seq![
            join_seq(d, assets_dir()),
            join_seq(d, editor_assets_dir()),
            join_seq(d, runtime_assets_dir()),
        ],
        None => Seq::empty(),
    };
    from_project + from_cwd
}

pub open spec fn opt_view(s: Option<&str>) -> Option<Seq<char>> {
    match s {
        Some(x) => Some(x@),
        None => None,
    }
}

/// The search roots for the assets of a project whose file lies in the
/// folder `parent` (`None` when the project path has no parent); `current_dir`
/// is the working directory, when it is known.
pub fn roots_for_parent(parent: Option<&str>, current_dir: Option<&str>) -> (r: Vec<String>)
    ensures
        views(r@) == runtime_roots(opt_view(parent), opt_view(current_dir)),
{
    let mut roots: Vec<String> = Vec::new();
    proof {
        reveal_strlit("assets");
        reveal_strlit("apps/crab2d-editor/assets");
        reveal_strlit("apps/crab2d-runtime/assets");
        assert("assets"@ =~= assets_dir());
        assert("apps/crab2d-editor/assets"@ =~= editor_assets_dir());
        assert("apps/crab2d-runtime/assets"@ =~= runtime_assets_dir());
    }
    let ghost from_project = match opt_view(parent) {
        Some(p) => seq![p, join_seq(p, assets_dir())],
        None => Seq::<Seq<char>>::empty(),
    };
    match parent {
        Some(p) => {
            roots.push(String::from_str(p));
            roots.push(join_path(p, "assets"));
            assert(views(roots@) =~= from_project);
        },
        None => {
            assert(views(roots@) =~= from_project);
        },
    }
    let ghost before = roots@;
    if let Some(d) = current_dir {
        roots.push(join_path(d, "assets"));
        roots.push(join_path(d, "apps/crab2d-editor/assets"));
        roots.push(join_path(d, "apps/crab2d-runtime/assets"));
        assert(roots@.subrange(0, before.len() as int) =~= before);
        assert(views(roots@) =~= from_project + seq![
            join_seq(d@, assets_dir()),
            join_seq(d@, editor_assets_dir()),
            join_seq(d@, runtime_assets_dir()),
        ]);
    }
    let ghost from_cwd = match opt_view(current_dir) {
        Some(d) => seq![
            join_seq(d, assets_dir()),
            join_seq(d, editor_assets_dir()),
            join_seq(d, runtime_assets_dir()),
        ],
        None => Seq::<Seq<char>>::empty(),
    };
    assert(views(roots@) =~= from_project + from_cwd);
    roots
}

/// The search roots for the assets of the project at `project_path`;
/// `current_dir` is the working directory, when it is known.
pub fn asset_roots(project_path: &str, current_dir: Option<&str>) -> (r: Vec<String>)
    ensures
        views(r@) == runtime_roots(parent_of(project_path@), opt_view(current_dir)),
{
    match path_parent(project_path) {
        Some(p) => roots_for_parent(Some(p.as_str()), current_dir),
        None => roots_for_parent(None, current_dir),
    }
}

/// The folder that game saves go to for a project file in the folder
/// `parent`: `saves` there, or `saves` when the project path has no parent.
pub fn saves_in(parent: Option<&str>) -> (r: String)
    ensures
        r@ == match opt_view(parent) {
            Some(p) => join_seq(p, saves_dir()),
            None => saves_dir(),
        },
{
    proof {
        reveal_strlit("saves");
        assert("saves"@ =~= saves_dir());
    }
    match parent {
        Some(p) => join_path(p, "saves"),
        None => String::from_str("saves"),
    }
}

/// The folder that game saves go to: `saves` beside the project file.
pub fn save_directory(project_path: &str) -> (r: String)
    ensures
        r@ == match parent_of(project_path@) {
            Some(p) => join_seq(p, saves_dir()),
            None => saves_dir(),
        },
{
    match path_parent(project_path) {
        Some(p) => saves_in(Some(p.as_str())),
        None => saves_in(None),
    }
}

/// The folder two levels above `app_dir` (the workspace root when
/// `app_dir` is an app's folder), or `.` when there is no such folder.
pub fn workspace_root(app_dir: &str) -> (r: String)
    ensures
        r@ == match parent_of(app_dir@) {
            Some(p) => match parent_of(p) {
                Some(g) => g,
                None => seq!['.'],
            },
            None => seq!['.'],
        },
{
    proof {
        reveal_strlit(".");
    }
    match path_parent(app_dir) {
        Some(p) => match path_parent(p.as_str()) {
            Some(g) => g,
            None => String::from_str("."),
        },
        None => String::from_str("."),
    }
}

/// Normalises an asset path (see `paths::normalize_asset_path`).
pub fn normalize_asset_path(path: &str) -> (r: String)
    ensures
        r@ == normalized_asset_path(path@),
{
    crate::paths::normalize_asset_path(path)
}

/// The candidate file for `normalized_path` under each root, in root order.
pub fn candidate_paths(asset_roots: &Vec<String>, normalized_path: &str) -> (r: Vec<String>)
    ensures
        r.len() == asset_roots.len(),
        forall|i: int|
            0 <= i < r.len() ==> #[trigger] r@[i]@ == join_seq(asset_roots@[i]@, normalized_path@),
{
    let mut r: Vec<String> = Vec::new();
    let mut i: usize = 0;
    while i < asset_roots.len()
        invariant
            i <= asset_roots.len(),
            r.len() == i,
            forall|k: int|
                0 <= k < i ==> #[trigger] r@[k]@ == join_seq(asset_roots@[k]@, normalized_path@),
        decreases asset_roots.len() - i,
    {
        r.push(join_path(asset_roots[i].as_str(), normalized_path));
        i = i + 1;
    }
    r
}

/// The file used for a relative path: the candidate under the first root
/// whose candidate exists, or the path itself when none does.
pub open spec fn first_existing(roots: Seq<Seq<char>>, path: Seq<char>, exists: Seq<bool>) -> Seq<
    char,
>
    decreases roots.len(),
{
    if roots.len() == 0 || exists.len() == 0 {
        path
    } else if exists[0] {
        join_seq(roots[0], path)
    } else {
        first_existing(roots.drop_first(), path, exists.drop_first())
    }
}

/// The file to load for a normalised asset path: an absolute path is used as
/// it is; for a relative one, `candidate_exists[i]` says whether its
/// candidate under `asset_roots[i]` exists, and the first existing candidate
/// is used, or the path itself when none exists.
pub fn resolve_path(asset_roots: &Vec<String>, normalized_path: &str, candidate_exists: &Vec<bool>) -> (r: String)
    requires
        candidate_exists.len() == asset_roots.len(),
    ensures
        r@ == (if is_absolute_seq(normalized_path@) {
            normalized_path@
        } else {
            first_existing(views(asset_roots@), normalized_path@, candidate_exists@)
        }),
{
    if is_absolute_path(normalized_path) {
        return String::from_str(normalized_path);
    }
    let n = asset_roots.len();
    let ghost all_roots = views(asset_roots@);
    let mut i: usize = 0;
    assert(all_roots =~= all_roots.subrange(0, n as int));
    assert(candidate_exists@ =~= candidate_exists@.subrange(0, n as int));
    while i < n
        invariant
            i <= n == asset_roots.len() == candidate_exists.len(),
            all_roots == views(asset_roots@),
            first_existing(all_roots, normalized_path@, candidate_exists@) == first_existing(
                all_roots.subrange(i as int, n as int),
                normalized_path@,
                candidate_exists@.subrange(i as int, n as int),
            ),
        decreases n - i,
    {
        let ghost rs = all_roots.subrange(i as int, n as int);
        let ghost es = candidate_exists@.subrange(i as int, n as int);
        assert(rs[0] == asset_roots@[i as int]@);
        assert(es[0] == candidate_exists@[i as int]);
        if candidate_exists[i] {
            return join_path(asset_roots[i].as_str(), normalized_path);
        }
        assert(rs.drop_first() =~= all_roots.subrange(i + 1, n as int));
        assert(es.drop_first() =~= candidate_exists@.subrange(i + 1, n as int));
        i = i + 1;
    }
    String::from_str(normalized_path)
}

} // verus!
