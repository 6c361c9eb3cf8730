//! Adding a resource to the project that encloses the working directory.

use vstd::prelude::*;
use crate::address::{Address, AddressView, address_of, url_parse};
use crate::digest::{hash_file, sha256};
use crate::path::{file_name, file_name_of, file_stem, file_stem_of};
use crate::repo::{
    DirProbe, EntryKind, NousError, NousErrorView, ancestor_probes_fit, enclosing_incl_spec,
    enclosing_nous_repo_incl, entries_named, first_repo, first_repo_index, is_nous_file,
    is_nous_file_spec, is_nous_repo, is_nous_repo_spec, kind_of, lemma_first_repo_index_bounds,
    lemma_named_has_parent, named_if_file, nous_file_path, nous_file_path_spec, validate_nous_repo,
    validate_spec,
};
use crate::path::join_of;
use crate::resource::{File, FetchActionView, Fetchable, GitRepository, Resource, fetch_plan};

verus! {

/// What the file system says about the local path of a resource.
pub struct TargetFacts {
    /// The metadata of the path, `None` when it could not be read.
    pub kind: Option<EntryKind>,
    /// A repository can be opened at the path.
    pub is_git_repository: bool,
    /// The contents of the path, read when it is a file.
    pub contents: Option<Vec<u8>>,
}

/// What the file system says about the working directory: its path, the
/// directory itself (`here`) and each of its ancestors, nearest first, as
/// `path::ancestors` lists them.
pub struct RepoWorld<E> {
    pub cwd: Result<String, E>,
    pub here: DirProbe<E>,
    pub ancestors: Vec<DirProbe<E>>,
}

/// What `add` has to do: push `resource` onto the project described in
/// `nous_file`.
pub struct AddPlan {
    pub nous_file: String,
    pub resource: Resource,
}

/// The facts about `path` cover what inferring a resource reads: a file's
/// contents, and a name for anything that becomes a resource.
pub open spec fn target_named(path: Seq<char>, t: TargetFacts) -> bool {
    &&& t.kind == Some(EntryKind::File) ==> t.contents is Some && file_name_of(path) is Some
    &&& (t.kind is Some && t.kind != Some(EntryKind::File) && t.is_git_repository) ==> file_name_of(
        path,
    ) is Some
}

/// Nothing can be made of the path: it cannot be read, or it is neither a
/// file nor a repository.
pub open spec fn infers_nothing(t: TargetFacts) -> bool {
    t.kind is None || (t.kind != Some(EntryKind::File) && !t.is_git_repository)
}

pub open spec fn local_origin(origin: Option<Address>, path: Seq<char>) -> bool {
    origin matches Some(a) && a@ == AddressView::Local(path)
}

/// `f` is the resource for the local file `path` whose checksum is `hash`:
/// it is fetched by name into a directory named after the file's stem.
pub open spec fn is_file_resource_of(f: File, path: Seq<char>, hash: Seq<u8>) -> bool {
    &&& local_origin(f.origin, path)
    &&& f.dest_dir@ == file_stem_of(path).unwrap()
    &&& f.name@ == file_name_of(path).unwrap()
    &&& f.hash@ == hash
}

/// `g` is the resource for the local repository `path`.
pub open spec fn is_git_resource_of(g: GitRepository, path: Seq<char>) -> bool {
    &&& local_origin(g.origin, path)
    &&& g.dest_dir@ == file_stem_of(path).unwrap()
    &&& g.name@ == file_name_of(path).unwrap()
}

/// `r` is what the facts `t` about `path` make of it: a file, with the
/// checksum of its contents, or else a repository.
pub open spec fn is_inferred(r: Resource, path: Seq<char>, t: TargetFacts) -> bool {
    if t.kind == Some(EntryKind::File) {
        r matches Resource::File(f) && is_file_resource_of(f, path, sha256(t.contents.unwrap()@))
    } else {
        r matches Resource::GitRepository(g) && is_git_resource_of(g, path)
    }
}

fn local_path(addr: &Address) -> (p: &String)
    ensures
        addr@ is Local ==> addr@ == AddressView::Local(p@),
{
    match addr {
        Address::Local(p) => p,
        Address::RemoteHttp(u) => u,
    }
}

/// The resource for the local file at `addr`, whose checksum is `hash`.
pub fn file_resource(addr: &Address, hash: Vec<u8>) -> (f: File)
    requires
        addr@ matches AddressView::Local(p) && file_name_of(p) is Some,
    ensures
        addr@ matches AddressView::Local(p) && is_file_resource_of(f, p, hash@),
{
    let path = local_path(addr);
    let dest_dir = file_stem(path.as_str()).unwrap();
    let name = file_name(path.as_str()).unwrap();
    File { origin: Some(Address::Local(path.clone())), dest_dir, name, hash }
}

/// The resource for the local repository at `addr`.
pub fn git_resource(addr: &Address) -> (g: GitRepository)
    requires
        addr@ matches AddressView::Local(p) && file_name_of(p) is Some,
    ensures
        addr@ matches AddressView::Local(p) && is_git_resource_of(g, p),
{
    let path = local_path(addr);
    let dest_dir = file_stem(path.as_str()).unwrap();
    let name = file_name(path.as_str()).unwrap();
    GitRepository { origin: Some(Address::Local(path.clone())), dest_dir, name }
}

/// Guesses what kind of resource the local path of `addr` is: a file, with
/// the checksum of its contents, or a repository; `None` when it is neither
/// or cannot be read.
pub fn infer_resource(addr: &Address, target: &TargetFacts) -> (r: Option<Resource>)
    requires
        addr@ matches AddressView::Local(p) && target_named(p, *target),
    ensures
        r is None <==> infers_nothing(*target),
        r matches Some(res) ==> (addr@ matches AddressView::Local(p) && is_inferred(res, p, *target)),
        r matches Some(Resource::File(f)) ==> f.hash@ == sha256(target.contents.unwrap()@),
        target.kind == Some(EntryKind::File) ==> r matches Some(Resource::File(_)),
{
    match target.kind {
        None => None,
        Some(EntryKind::File) => {
            let hash = match &target.contents {
                Some(c) => hash_file(c.as_slice()),
                None => Vec::new(),
            };
            Some(Resource::File(file_resource(addr, hash)))
        },
        Some(_) => {
            if target.is_git_repository {
                Some(Resource::GitRepository(git_resource(addr)))
            } else {
                None
            }
        },
    }
}

/// Every probe of `world` can be read.
pub open spec fn world_named<E>(world: RepoWorld<E>) -> bool {
    &&& entries_named(world.here.entries)
    &&& world.cwd matches Ok(c) ==> named_if_file(c@, kind_of(world.here.kind))
            && ancestor_probes_fit(c@, world.ancestors@)
}

/// Where a resource is added: the description file of the repository that
/// encloses the working directory, once that repository checks out.
pub open spec fn add_target_spec<E>(world: RepoWorld<E>) -> Result<Seq<char>, NousErrorView<E>> {
    match world.cwd {
        Err(e) => Err(NousErrorView::Io(e)),
        Ok(cwd) => match enclosing_incl_spec(cwd@, world.here, world.ancestors@) {
            None => Err(
                NousErrorView::InvalidInput("working directory not contained in a nous repo"@),
            ),
            Some(repo) => {
                let probe = if is_nous_repo_spec(world.here) {
                    world.here
                } else if is_nous_file_spec(cwd@, kind_of(world.here.kind)) {
                    world.ancestors@[0]
                } else {
                    world.ancestors@[first_repo_index(world.ancestors@, 0).unwrap()]
                };
                match validate_spec(repo, probe) {
                    Err(err) => Err(err),
                    Ok(()) => Ok(nous_file_path_spec(repo)),
                }
            },
        },
    }
}

pub open spec fn plan_result_view<E>(r: Result<AddPlan, NousError<E>>) -> Result<
    Seq<char>,
    NousErrorView<E>,
> {
    match r {
        Ok(plan) => Ok(plan.nous_file@),
        Err(e) => Err(e@),
    }
}

/// Decides where `resource` is added, given what the file system says of
/// the working directory.
pub fn nous_add_resource<E>(resource: Resource, world: RepoWorld<E>) -> (r: Result<AddPlan, NousError<E>>)
    requires
        world_named(world),
    ensures
        plan_result_view(r) == add_target_spec(world),
        r matches Ok(plan) ==> plan.resource == resource,
{
    let RepoWorld { cwd, here, ancestors } = world;
    let mut ancestors = ancestors;
    let cwd = match cwd {
        Ok(c) => c,
        Err(e) => {
            return Err(NousError::Io(e));
        },
    };
    let repo = match enclosing_nous_repo_incl(cwd.as_str(), &here, &ancestors) {
        Some(repo) => repo,
        None => {
            return Err(
                NousError::InvalidInput(
                    String::from_str("working directory not contained in a nous repo"),
                ),
            );
        },
    };
    let here_kind = match &here.kind {
        Ok(k) => Some(*k),
        Err(_) => None,
    };
    proof {
        lemma_first_repo_index_bounds(ancestors@, 0);
        if is_nous_file_spec(cwd@, here_kind) {
            lemma_named_has_parent(cwd@);
        }
    }
    let probe = if is_nous_repo(&here) {
        here
    } else if is_nous_file(cwd.as_str(), here_kind) {
        ancestors.remove(0)
    } else {
        match first_repo(&ancestors) {
            Some(j) => ancestors.remove(j),
            None => here,
        }
    };
    match validate_nous_repo(repo.as_str(), probe) {
        Ok(()) => Ok(AddPlan { nous_file: nous_file_path(repo.as_str()), resource }),
        Err(e) => Err(e),
    }
}

/// What adding the resource at `a` gives: remote resources are not
/// supported; a local one that is neither a file nor a repository is not
/// understood; else it is added where `add_target_spec` says.
pub open spec fn add_outcome<E>(
    r: Result<AddPlan, NousError<E>>,
    a: AddressView,
    t: TargetFacts,
    world: RepoWorld<E>,
) -> bool {
    match a {
        AddressView::RemoteHttp(u) => plan_result_view(r) == Err::<Seq<char>, NousErrorView<E>>(
            NousErrorView::UnsupportedRemote(u),
        ),
        AddressView::Local(p) => if infers_nothing(t) {
            plan_result_view(r) == Err::<Seq<char>, NousErrorView<E>>(
                NousErrorView::InvalidInput("I don't understand the meaning of that resource!"@),
            )
        } else {
            &&& plan_result_view(r) == add_target_spec(world)
            &&& r matches Ok(plan) ==> is_inferred(plan.resource, p, t)
        },
    }
}

/// Adds the resource at `addr` to the enclosing repository.
pub fn nous_add_address<E>(addr: Address, target: &TargetFacts, world: RepoWorld<E>) -> (r: Result<
    AddPlan,
    NousError<E>,
>)
    requires
        addr@ matches AddressView::Local(p) ==> target_named(p, *target),
        world_named(world),
    ensures
        add_outcome(r, addr@, *target, world),
{
    match &addr {
        Address::RemoteHttp(u) => {
            return Err(NousError::UnsupportedRemote(u.clone()));
        },
        Address::Local(_) => {},
    }
    match infer_resource(&addr, target) {
        Some(res) => nous_add_resource(res, world),
        None => Err(
            NousError::InvalidInput(
                String::from_str("I don't understand the meaning of that resource!"),
            ),
        ),
    }
}

/// Adds the resource named by `uri` to the repository that encloses the
/// working directory. `target` describes `uri` taken as a local path.
pub fn nous_add<E>(uri: String, target: &TargetFacts, world: RepoWorld<E>) -> (r: Result<
    AddPlan,
    NousError<E>,
>)
    requires
        target_named(uri@, *target),
        world_named(world),
    ensures
        add_outcome(r, address_of(uri@, url_parse(uri@)), *target, world),
        !uri@.contains(':') || (uri@.len() > 0 && uri@[0] == '/') ==> add_outcome(
            r,
            AddressView::Local(uri@),
            *target,
            world,
        ),
{
    let addr = Address::from_string(uri);
    nous_add_address(addr, target, world)
}


/// A resource inferred from a local path is fetched by linking its
/// destination, `stem/name` of that path, to the path itself.
pub proof fn lemma_inferred_fetch(r: Resource, path: Seq<char>, t: TargetFacts)
    requires
        is_inferred(r, path, t),
    ensures
        r.spec_origin() == Some(AddressView::Local(path)),
        fetch_plan(r.spec_origin().unwrap(), r.spec_destination(), r.spec_is_repository())
            == (FetchActionView::Symlink {
            target: path,
            link: join_of(file_stem_of(path).unwrap(), file_name_of(path).unwrap()),
        }),
{
}

/// A file inferred from a local path records the SHA-256 of the whole of its
/// contents, is named after the file and goes into a directory named after
/// the file's stem.
pub proof fn lemma_inferred_file(r: Resource, path: Seq<char>, t: TargetFacts)
    requires
        is_inferred(r, path, t),
        target_named(path, t),
        t.kind == Some(EntryKind::File),
    ensures
        r matches Resource::File(f) && {
            &&& f.hash@ == sha256(t.contents.unwrap()@)
            &&& Some(f.name@) == file_name_of(path)
            &&& Some(f.dest_dir@) == file_stem_of(path)
            &&& f.origin matches Some(a) && a@ == AddressView::Local(path)
        },
{
}

/// Two files inferred from local paths record the same checksum exactly
/// when the digests of their whole contents agree.
pub proof fn lemma_inferred_checksums(r1: Resource, p1: Seq<char>, t1: TargetFacts, r2: Resource, p2: Seq<char>, t2: TargetFacts)
    requires
        is_inferred(r1, p1, t1),
        is_inferred(r2, p2, t2),
        t1.kind == Some(EntryKind::File),
        t2.kind == Some(EntryKind::File),
    ensures
        (r1->File_0.hash@ == r2->File_0.hash@) == (sha256(t1.contents.unwrap()@) == sha256(
            t2.contents.unwrap()@,
        )),
{
}

} // verus!
