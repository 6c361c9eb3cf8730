//! The decisions about repositories: whether a directory holds a project,
//! which project encloses the working directory, and what `init` and `add`
//! have to write.
//!
//! What the file system says is handed in as plain values: the kind of an
//! entry as its metadata gives it, the entries of a directory, and the errors
//! of the calls that failed (of any type `E`, passed back unchanged).

use vstd::prelude::*;
use crate::path::{
    file_name, file_name_of, is_simple_name, trimmed_of, join, join_of, lemma_file_name_of_join,
    lemma_parent_of_join, parent, parent_of, ancestors, ancestor_list,
};
use crate::project::nous_suffix;

verus! {

/// What the metadata of an entry says it is (links followed).
#[derive(Clone, Copy, PartialEq, Eq, Structural, Debug)]
pub enum EntryKind {
    File,
    Dir,
    Other,
}

/// An entry of a directory listing: its path (the directory joined with the
/// entry's name) and its kind, `None` when its metadata could not be read.
pub struct EntryInfo {
    pub path: String,
    pub kind: Option<EntryKind>,
}

/// What the file system says about a directory `d`.
pub struct DirProbe<E> {
    /// The metadata of `d`.
    pub kind: Result<EntryKind, E>,
    /// The listing of `d`, `None` when it could not be read.
    pub entries: Option<Vec<EntryInfo>>,
    /// The metadata of `d/.nous`.
    pub nous_kind: Result<EntryKind, E>,
}

/// The errors the repository operations report. `Io` passes on the error of
/// a file-system call; the other variants carry their message.
pub enum NousError<E> {
    Io(E),
    NotFound(String),
    InvalidInput(String),
    /// The resource is a URL: only local resources can be added.
    UnsupportedRemote(String),
}

pub enum NousErrorView<E> {
    Io(E),
    NotFound(Seq<char>),
    InvalidInput(Seq<char>),
    UnsupportedRemote(Seq<char>),
}

impl<E> View for NousError<E> {
    type V = NousErrorView<E>;

    open spec fn view(&self) -> NousErrorView<E> {
        match self {
            NousError::Io(e) => NousErrorView::Io(*e),
            NousError::NotFound(m) => NousErrorView::NotFound(m@),
            NousError::InvalidInput(m) => NousErrorView::InvalidInput(m@),
            NousError::UnsupportedRemote(u) => NousErrorView::UnsupportedRemote(u@),
        }
    }
}

pub open spec fn kind_of<E>(k: Result<EntryKind, E>) -> Option<EntryKind> {
    match k {
        Ok(kind) => Some(kind),
        Err(_) => None,
    }
}

/// `path` is a project description file: a file named `.nous`.
pub open spec fn is_nous_file_spec(path: Seq<char>, kind: Option<EntryKind>) -> bool {
    kind == Some(EntryKind::File) && file_name_of(path) == Some(nous_suffix())
}

/// A file whose name cannot be taken: the listing or probe cannot describe
/// what the file system holds.
pub open spec fn named_if_file(path: Seq<char>, kind: Option<EntryKind>) -> bool {
    kind == Some(EntryKind::File) ==> file_name_of(path) is Some
}

pub open spec fn entries_named(entries: Option<Vec<EntryInfo>>) -> bool {
    entries matches Some(es) ==> forall|i: int|
        0 <= i < es.len() ==> #[trigger] named_if_file(es[i].path@, es[i].kind)
}

/// The directory described by `probe` is a project repository: a directory
/// that lists a `.nous` file.
pub open spec fn is_nous_repo_spec<E>(probe: DirProbe<E>) -> bool {
    &&& probe.kind matches Ok(EntryKind::Dir)
    &&& probe.entries matches Some(es)
    &&& exists|i: int| 0 <= i < es.len() && #[trigger] is_nous_file_spec(es[i].path@, es[i].kind)
}

/// The path of the description file of the project in `dir`.
pub open spec fn nous_file_path_spec(dir: Seq<char>) -> Seq<char> {
    join_of(dir, nous_suffix())
}

fn is_dot_nous(name: &String) -> (r: bool)
    ensures
        r == (name@ == nous_suffix()),
{
    proof {
        reveal_strlit(".nous");
        assert(".nous"@ =~= nous_suffix());
    }
    let expected = String::from_str(".nous");
    *name == expected
}

/// The path of the description file of the project in `dir`.
pub fn nous_file_path(dir: &str) -> (r: String)
    ensures
        r@ == nous_file_path_spec(dir@),
{
    proof {
        reveal_strlit(".nous");
        assert(".nous"@ =~= nous_suffix());
    }
    join(dir, ".nous")
}

/// `path`, of the given kind, is a project description file.
pub fn is_nous_file(path: &str, kind: Option<EntryKind>) -> (r: bool)
    requires
        named_if_file(path@, kind),
    ensures
        r == is_nous_file_spec(path@, kind),
{
    match kind {
        Some(EntryKind::File) => match file_name(path) {
            Some(name) => is_dot_nous(&name),
            None => false,
        },
        _ => false,
    }
}

/// The directory described by `probe` is a project repository.
pub fn is_nous_repo<E>(probe: &DirProbe<E>) -> (r: bool)
    requires
        entries_named(probe.entries),
    ensures
        r == is_nous_repo_spec(*probe),
{
    match &probe.kind {
        Ok(EntryKind::Dir) => {},
        _ => {
            return false;
        },
    }
    match &probe.entries {
        None => false,
        Some(es) => {
            let n = es.len();
            let mut i: usize = 0;
            while i < n
                invariant
                    n == es.len(),
                    i <= n,
                    entries_named(probe.entries),
                    probe.entries == Some(*es),
                    probe.kind matches Ok(EntryKind::Dir),
                    forall|j: int| 0 <= j < i ==> !#[trigger] is_nous_file_spec(es[j].path@, es[j].kind),
                decreases n - i,
            {
                assert(named_if_file(es[i as int].path@, es[i as int].kind));
                if is_nous_file(es[i].path.as_str(), es[i].kind) {
                    return true;
                }
                i = i + 1;
            }
            false
        },
    }
}


/// Index of the first probe, from `i` on, that describes a repository.
pub open spec fn first_repo_index<E>(probes: Seq<DirProbe<E>>, i: int) -> Option<int>
    decreases probes.len() - i,
{
    if i < 0 || i >= probes.len() {
        None
    } else if is_nous_repo_spec(probes[i]) {
        Some(i)
    } else {
        first_repo_index(probes, i + 1)
    }
}

pub proof fn lemma_first_repo_index_bounds<E>(probes: Seq<DirProbe<E>>, i: int)
    requires
        0 <= i,
    ensures
        first_repo_index(probes, i) matches Some(j) ==> i <= j < probes.len() && is_nous_repo_spec(
            probes[j],
        ),
    decreases probes.len() - i,
{
    if i < probes.len() && !is_nous_repo_spec(probes[i]) {
        lemma_first_repo_index_bounds(probes, i + 1);
    }
}

/// The repository that `path` belongs to: the parent of `path` when `path`
/// is a description file, else the nearest ancestor of `path` that is a
/// repository. `probes[k]` describes the ancestor `ancestor_list(path)[k]`.
pub open spec fn enclosing_spec<E>(path: Seq<char>, kind: Option<EntryKind>, probes: Seq<DirProbe<E>>) -> Option<
    Seq<char>,
> {
    if is_nous_file_spec(path, kind) {
        parent_of(path)
    } else {
        match first_repo_index(probes, 0) {
            Some(j) => Some(ancestor_list(path)[j]),
            None => None,
        }
    }
}

/// The repository that contains `path` or is `path` itself. `here`
/// describes `path`, `probes` its ancestors.
pub open spec fn enclosing_incl_spec<E>(path: Seq<char>, here: DirProbe<E>, probes: Seq<DirProbe<E>>) -> Option<
    Seq<char>,
> {
    if is_nous_repo_spec(here) {
        Some(path)
    } else {
        enclosing_spec(path, kind_of(here.kind), probes)
    }
}

/// A probe that the operations can read: every file it lists has a name,
/// and so has its own path when it is a file.
pub open spec fn probe_named<E>(path: Seq<char>, probe: DirProbe<E>) -> bool {
    named_if_file(path, kind_of(probe.kind)) && entries_named(probe.entries)
}

/// One probe per ancestor of `path`, each listing only named files.
pub open spec fn ancestor_probes_fit<E>(path: Seq<char>, probes: Seq<DirProbe<E>>) -> bool {
    &&& probes.len() == ancestor_list(path).len()
    &&& forall|k: int| 0 <= k < probes.len() ==> #[trigger] entries_named(probes[k].entries)
}

pub proof fn lemma_named_has_parent(p: Seq<char>)
    requires
        file_name_of(p) is Some,
    ensures
        parent_of(p) is Some,
        ancestor_list(p).len() > 0,
        ancestor_list(p)[0] == parent_of(p).unwrap(),
{
}

/// Index of the first probe that describes a repository.
pub fn first_repo<E>(probes: &Vec<DirProbe<E>>) -> (r: Option<usize>)
    requires
        forall|k: int| 0 <= k < probes.len() ==> #[trigger] entries_named(probes[k].entries),
    ensures
        match r {
            Some(j) => first_repo_index(probes@, 0) == Some(j as int),
            None => first_repo_index(probes@, 0) is None,
        },
{
    let n = probes.len();
    let mut i: usize = 0;
    while i < n
        invariant
            n == probes.len(),
            i <= n,
            forall|k: int| 0 <= k < probes.len() ==> #[trigger] entries_named(probes[k].entries),
            first_repo_index(probes@, 0) == first_repo_index(probes@, i as int),
        decreases n - i,
    {
        assert(entries_named(probes[i as int].entries));
        if is_nous_repo(&probes[i]) {
            return Some(i);
        }
        i = i + 1;
    }
    None
}

/// The repository the project file or directory `path` belongs to, if any:
/// the parent of a description file, else the nearest ancestor that is a
/// repository. `path_kind` is what the metadata of `path` says; `probes`
/// describe the ancestors of `path`, nearest first (see `ancestors`).
pub fn enclosing_nous_repo<E>(path: &str, path_kind: Option<EntryKind>, probes: &Vec<DirProbe<E>>) -> (r:
    Option<String>)
    requires
        named_if_file(path@, path_kind),
        ancestor_probes_fit(path@, probes@),
    ensures
        r.deep_view() == enclosing_spec(path@, path_kind, probes@),
{
    if is_nous_file(path, path_kind) {
        proof {
            lemma_named_has_parent(path@);
        }
        parent(path)
    } else {
        proof {
            lemma_first_repo_index_bounds(probes@, 0);
        }
        match first_repo(probes) {
            Some(j) => {
                let all = ancestors(path);
                Some(all[j].clone())
            },
            None => None,
        }
    }
}

/// The repository that contains `path` or is `path` itself. `here`
/// describes `path`, `probes` its ancestors, nearest first.
pub fn enclosing_nous_repo_incl<E>(path: &str, here: &DirProbe<E>, probes: &Vec<DirProbe<E>>) -> (r: Option<
    String,
>)
    requires
        probe_named(path@, *here),
        ancestor_probes_fit(path@, probes@),
    ensures
        r.deep_view() == enclosing_incl_spec(path@, *here, probes@),
{
    if is_nous_repo(here) {
        Some(String::from_str(path))
    } else {
        let kind = match &here.kind {
            Ok(k) => Some(*k),
            Err(_) => None,
        };
        enclosing_nous_repo(path, kind, probes)
    }
}

/// What checking the repository `dir` gives: it must be a directory that
/// holds a `.nous` file. Errors of the metadata calls pass through.
pub open spec fn validate_spec<E>(dir: Seq<char>, probe: DirProbe<E>) -> Result<(), NousErrorView<E>> {
    match probe.kind {
        Err(e) => Err(NousErrorView::Io(e)),
        Ok(EntryKind::Dir) => match probe.nous_kind {
            Err(e) => Err(NousErrorView::Io(e)),
            Ok(EntryKind::File) => Ok(()),
            Ok(_) => Err(NousErrorView::NotFound(".nous file not found"@)),
        },
        Ok(_) => Err(NousErrorView::InvalidInput(dir + " is not a directory"@)),
    }
}

pub open spec fn unit_result_view<E>(r: Result<(), NousError<E>>) -> Result<(), NousErrorView<E>> {
    match r {
        Ok(()) => Ok(()),
        Err(e) => Err(e@),
    }
}

/// Checks that `dir`, described by `probe`, is a directory holding a
/// `.nous` file.
pub fn validate_nous_repo<E>(dir: &str, probe: DirProbe<E>) -> (r: Result<(), NousError<E>>)
    ensures
        unit_result_view(r) == validate_spec(dir@, probe),
{
    match probe.kind {
        Err(e) => Err(NousError::Io(e)),
        Ok(EntryKind::Dir) => match probe.nous_kind {
            Err(e) => Err(NousError::Io(e)),
            Ok(EntryKind::File) => Ok(()),
            Ok(_) => Err(NousError::NotFound(String::from_str(".nous file not found"))),
        },
        Ok(_) => Err(NousError::InvalidInput(String::from_str(dir).concat(" is not a directory"))),
    }
}

/// What `init` has to write: the description file, and the name of the
/// project it describes.
pub struct InitPlan {
    pub nous_file: String,
    pub project_name: String,
}

/// What initialising a repository in `dir` gives: refused when `dir` already
/// is one or is not a directory; else the description file to write, named
/// after the last component of `dir`.
pub open spec fn init_spec<E>(dir: Seq<char>, probe: DirProbe<E>) -> Result<
    (Seq<char>, Seq<char>),
    NousErrorView<E>,
> {
    if is_nous_repo_spec(probe) {
        Err(NousErrorView::InvalidInput(dir + " is already a nous repo"@))
    } else {
        match probe.kind {
            Err(e) => Err(NousErrorView::Io(e)),
            Ok(EntryKind::Dir) => Ok((nous_file_path_spec(dir), file_name_of(dir).unwrap())),
            Ok(_) => Err(NousErrorView::InvalidInput(dir + " is not a directory"@)),
        }
    }
}

pub open spec fn init_result_view<E>(r: Result<InitPlan, NousError<E>>) -> Result<
    (Seq<char>, Seq<char>),
    NousErrorView<E>,
> {
    match r {
        Ok(plan) => Ok((plan.nous_file@, plan.project_name@)),
        Err(e) => Err(e@),
    }
}

/// Decides what initialising a repository in `dir` does; `probe` describes
/// `dir`. The caller writes a new project, named `project_name`, to
/// `nous_file`.
pub fn nous_init<E>(dir: &str, probe: DirProbe<E>) -> (r: Result<InitPlan, NousError<E>>)
    requires
        entries_named(probe.entries),
        (!is_nous_repo_spec(probe) && (probe.kind matches Ok(EntryKind::Dir))) ==> file_name_of(dir@) is Some,
    ensures
        init_result_view(r) == init_spec(dir@, probe),
        r matches Ok(plan) ==> Some(plan.project_name@) == file_name_of(dir@)
            && plan.nous_file@ == join_of(dir@, nous_suffix()),
{
    if is_nous_repo(&probe) {
        return Err(NousError::InvalidInput(String::from_str(dir).concat(" is already a nous repo")));
    }
    match probe.kind {
        Err(e) => Err(NousError::Io(e)),
        Ok(EntryKind::Dir) => {
            let nous_file = nous_file_path(dir);
            let project_name = match file_name(dir) {
                Some(n) => n,
                None => String::new(),
            };
            Ok(InitPlan { nous_file, project_name })
        },
        Ok(_) => Err(NousError::InvalidInput(String::from_str(dir).concat(" is not a directory"))),
    }
}


proof fn lemma_nous_suffix_simple()
    ensures
        is_simple_name(nous_suffix()),
{
    assert(nous_suffix()[1] != seq!['.', '.'][1]);
}

/// The description file of any directory is recognised as a description
/// file once it exists as a file.
pub proof fn lemma_nous_file_path_is_nous_file(dir: Seq<char>)
    ensures
        is_nous_file_spec(nous_file_path_spec(dir), Some(EntryKind::File)),
{
    lemma_nous_suffix_simple();
    lemma_file_name_of_join(dir, nous_suffix());
}

/// From the description file of any directory, the enclosing repository is
/// that directory again, up to trailing separators and `.` segments.
pub proof fn lemma_nous_file_leads_back<E>(dir: Seq<char>, probes: Seq<DirProbe<E>>)
    ensures
        enclosing_spec(nous_file_path_spec(dir), Some(EntryKind::File), probes) == Some(
            trimmed_of(dir),
        ),
{
    lemma_nous_suffix_simple();
    lemma_nous_file_path_is_nous_file(dir);
    lemma_parent_of_join(dir, nous_suffix());
}

/// `path` is an entry of the directory `dir`: `dir` joined with a simple name.
pub open spec fn is_child_of(dir: Seq<char>, path: Seq<char>) -> bool {
    file_name_of(path) matches Some(n) && is_simple_name(n) && path == join_of(dir, n)
}

/// The probe of `dir` tells one story: every entry it lists is a child of
/// `dir`, and the listing holds `dir/.nous` exactly when the metadata of
/// `dir/.nous` could be read, with the same kind.
pub open spec fn probe_consistent<E>(dir: Seq<char>, probe: DirProbe<E>) -> bool {
    probe.entries matches Some(es) ==> {
        &&& forall|i: int| 0 <= i < es.len() ==> #[trigger] is_child_of(dir, es[i].path@)
        &&& forall|i: int|
            0 <= i < es.len() && #[trigger] es[i].path@ == nous_file_path_spec(dir) ==> es[i].kind
                == kind_of(probe.nous_kind)
        &&& probe.nous_kind is Ok ==> exists|i: int|
            0 <= i < es.len() && #[trigger] es[i].path@ == nous_file_path_spec(dir)
    }
}

/// For a readable directory whose probe is consistent, checking it as a
/// repository (`validate_nous_repo`) succeeds exactly when it is recognised
/// as one (`is_nous_repo`), and both come to: a directory whose `.nous` is a
/// description file.
pub proof fn lemma_validate_iff_repo<E>(dir: Seq<char>, probe: DirProbe<E>)
    requires
        probe.entries is Some,
        probe_consistent(dir, probe),
    ensures
        (validate_spec(dir, probe) is Ok) == is_nous_repo_spec(probe),
        is_nous_repo_spec(probe) == ((probe.kind matches Ok(EntryKind::Dir)) && is_nous_file_spec(
            nous_file_path_spec(dir),
            kind_of(probe.nous_kind),
        )),
{
    let es = probe.entries.unwrap();
    lemma_nous_file_path_is_nous_file(dir);
    lemma_nous_suffix_simple();
    lemma_file_name_of_join(dir, nous_suffix());
    assert forall|i: int| 0 <= i < es.len() implies #[trigger] is_nous_file_spec(es[i].path@, es[i].kind)
        == (es[i].path@ == nous_file_path_spec(dir) && es[i].kind == Some(EntryKind::File)) by {
        assert(is_child_of(dir, es[i].path@));
    }
    if probe.nous_kind == Ok::<EntryKind, E>(EntryKind::File) {
        let i = choose|i: int| 0 <= i < es.len() && #[trigger] es[i].path@ == nous_file_path_spec(dir);
        assert(is_nous_file_spec(es[i].path@, es[i].kind));
    }
}

/// Once `init` has written the description file of `dir`, `dir` is a
/// repository: the check accepts it, it is the repository that encloses
/// itself, and initialising it again is refused.
pub proof fn lemma_initialised_repo<E>(dir: Seq<char>, after: DirProbe<E>, probes: Seq<DirProbe<E>>, i: int)
    requires
        after.kind matches Ok(EntryKind::Dir),
        after.nous_kind matches Ok(EntryKind::File),
        after.entries matches Some(es) && 0 <= i < es.len() && es[i].path@ == nous_file_path_spec(dir)
            && es[i].kind == Some(EntryKind::File),
    ensures
        is_nous_repo_spec(after),
        validate_spec(dir, after) == Ok::<(), NousErrorView<E>>(()),
        enclosing_incl_spec(dir, after, probes) == Some(dir),
        init_spec(dir, after) == Err::<(Seq<char>, Seq<char>), NousErrorView<E>>(
            NousErrorView::InvalidInput(dir + " is already a nous repo"@),
        ),
{
    lemma_nous_file_path_is_nous_file(dir);
    let es = after.entries.unwrap();
    assert(is_nous_file_spec(es[i].path@, es[i].kind));
}

/// Initialising a fresh directory `base/n`, for a simple name `n`, writes
/// `base/n/.nous` and names the project `n`: the whole last component,
/// extension included.
pub proof fn lemma_init_names_project_after_directory<E>(base: Seq<char>, n: Seq<char>, probe: DirProbe<E>)
    requires
        is_simple_name(n),
        !is_nous_repo_spec(probe),
        probe.kind matches Ok(EntryKind::Dir),
    ensures
        init_spec(join_of(base, n), probe) == Ok::<(Seq<char>, Seq<char>), NousErrorView<E>>(
            (join_of(join_of(base, n), nous_suffix()), n),
        ),
{
    lemma_file_name_of_join(base, n);
}

} // verus!
