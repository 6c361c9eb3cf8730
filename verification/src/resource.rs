//! The resources a project lists, and how each of them is fetched.

use vstd::prelude::*;
use crate::address::{Address, AddressView};
use crate::path::{join, join_of};

verus! {

/// A version-controlled repository, cloned into `dest_dir/name`.
pub struct GitRepository {
    pub origin: Option<Address>,
    pub dest_dir: String,
    pub name: String,
}

/// A project description file, downloaded into `dest_dir/name`.
pub struct NousFile {
    pub origin: Option<Address>,
    pub dest_dir: String,
    pub name: String,
}

/// A plain file, downloaded into `dest_dir/name`, with the checksum of its
/// contents.
pub struct File {
    pub origin: Option<Address>,
    pub dest_dir: String,
    pub name: String,
    pub hash: Vec<u8>,
}

/// Any resource a project can hold.
pub enum Resource {
    GitRepository(GitRepository),
    NousFile(NousFile),
    File(File),
}

/// What fetching a resource does to the file system.
pub enum FetchAction {
    /// Make `link` a symbolic link to the local path `target`.
    Symlink { target: String, link: String },
    /// Clone the repository at `url` into `dest`.
    GitClone { url: String, dest: String },
    /// Download `url` into the file `dest`.
    Download { url: String, dest: String },
}

pub enum FetchActionView {
    Symlink { target: Seq<char>, link: Seq<char> },
    GitClone { url: Seq<char>, dest: Seq<char> },
    Download { url: Seq<char>, dest: Seq<char> },
}

impl View for FetchAction {
    type V = FetchActionView;

    open spec fn view(&self) -> FetchActionView {
        match self {
            FetchAction::Symlink { target, link } => FetchActionView::Symlink {
                target: target@,
                link: link@,
            },
            FetchAction::GitClone { url, dest } => FetchActionView::GitClone {
                url: url@,
                dest: dest@,
            },
            FetchAction::Download { url, dest } => FetchActionView::Download {
                url: url@,
                dest: dest@,
            },
        }
    }
}

/// How a resource from `origin` reaches `dest`: a local origin is linked to,
/// a remote repository is cloned, any other remote resource is downloaded.
pub open spec fn fetch_plan(origin: AddressView, dest: Seq<char>, repository: bool) -> FetchActionView {
    match origin {
        AddressView::Local(p) => FetchActionView::Symlink { target: p, link: dest },
        AddressView::RemoteHttp(u) => if repository {
            FetchActionView::GitClone { url: u, dest }
        } else {
            FetchActionView::Download { url: u, dest }
        },
    }
}

pub open spec fn origin_view(origin: Option<Address>) -> Option<AddressView> {
    match origin {
        Some(a) => Some(a@),
        None => None,
    }
}

/// The action that brings a resource from `origin` to `dest_dir/name`.
fn plan_fetch(origin: &Option<Address>, dest_dir: &String, name: &String, repository: bool) -> (a:
    FetchAction)
    requires
        origin is Some,
    ensures
        a@ == fetch_plan(origin.unwrap()@, join_of(dest_dir@, name@), repository),
        origin matches Some(Address::RemoteHttp(u)) ==> repository ==> a@ == (FetchActionView::GitClone {
            url: u@,
            dest: join_of(dest_dir@, name@),
        }),
        origin matches Some(Address::RemoteHttp(u)) ==> !repository ==> a@ == (FetchActionView::Download {
            url: u@,
            dest: join_of(dest_dir@, name@),
        }),
        origin matches Some(Address::Local(p)) ==> a@ == (FetchActionView::Symlink {
            target: p@,
            link: join_of(dest_dir@, name@),
        }),
{
    let dest = join(dest_dir.as_str(), name.as_str());
    match origin {
        Some(Address::Local(p)) => FetchAction::Symlink { target: p.clone(), link: dest },
        Some(Address::RemoteHttp(u)) => if repository {
            FetchAction::GitClone { url: u.clone(), dest }
        } else {
            FetchAction::Download { url: u.clone(), dest }
        },
        None => FetchAction::Download { url: String::new(), dest },
    }
}

/// Something that can be fetched into the working tree.
pub trait Fetchable {
    /// Where the resource comes from.
    spec fn spec_origin(&self) -> Option<AddressView>;

    /// Where the resource is put.
    spec fn spec_destination(&self) -> Seq<char>;

    /// The resource is cloned as a repository rather than downloaded.
    spec fn spec_is_repository(&self) -> bool;

    /// The action that retrieves the resource.
    fn fetch(&self) -> (action: FetchAction)
        requires
            self.spec_origin() is Some,
        ensures
            action@ == fetch_plan(
                self.spec_origin().unwrap(),
                self.spec_destination(),
                self.spec_is_repository(),
            ),
    ;
}

impl Fetchable for GitRepository {
    open spec fn spec_origin(&self) -> Option<AddressView> {
        origin_view(self.origin)
    }

    open spec fn spec_destination(&self) -> Seq<char> {
        join_of(self.dest_dir@, self.name@)
    }

    open spec fn spec_is_repository(&self) -> bool {
        true
    }

    fn fetch(&self) -> (action: FetchAction) {
        plan_fetch(&self.origin, &self.dest_dir, &self.name, true)
    }
}

impl Fetchable for NousFile {
    open spec fn spec_origin(&self) -> Option<AddressView> {
        origin_view(self.origin)
    }

    open spec fn spec_destination(&self) -> Seq<char> {
        join_of(self.dest_dir@, self.name@)
    }

    open spec fn spec_is_repository(&self) -> bool {
        false
    }

    fn fetch(&self) -> (action: FetchAction) {
        plan_fetch(&self.origin, &self.dest_dir, &self.name, false)
    }
}

impl Fetchable for File {
    open spec fn spec_origin(&self) -> Option<AddressView> {
        origin_view(self.origin)
    }

    open spec fn spec_destination(&self) -> Seq<char> {
        join_of(self.dest_dir@, self.name@)
    }

    open spec fn spec_is_repository(&self) -> bool {
        false
    }

    fn fetch(&self) -> (action: FetchAction) {
        plan_fetch(&self.origin, &self.dest_dir, &self.name, false)
    }
}

impl Fetchable for Resource {
    open spec fn spec_origin(&self) -> Option<AddressView> {
        match self {
            Resource::GitRepository(r) => r.spec_origin(),
            Resource::NousFile(r) => r.spec_origin(),
            Resource::File(r) => r.spec_origin(),
        }
    }

    open spec fn spec_destination(&self) -> Seq<char> {
        match self {
            Resource::GitRepository(r) => r.spec_destination(),
            Resource::NousFile(r) => r.spec_destination(),
            Resource::File(r) => r.spec_destination(),
        }
    }

    open spec fn spec_is_repository(&self) -> bool {
        self is GitRepository
    }

    fn fetch(&self) -> (action: FetchAction) {
        match self {
            Resource::GitRepository(r) => r.fetch(),
            Resource::NousFile(r) => r.fetch(),
            Resource::File(r) => r.fetch(),
        }
    }
}

/// Fetching goes by the kind of origin and of resource alone, whatever the
/// URL or path: a local origin is linked to, a remote repository is cloned
/// from its URL, any other remote resource is downloaded from it.
pub proof fn lemma_fetch_by_origin(origin: AddressView, dest: Seq<char>, repository: bool)
    ensures
        origin matches AddressView::RemoteHttp(u) ==> repository ==> fetch_plan(origin, dest, repository)
            == (FetchActionView::GitClone { url: u, dest }),
        origin matches AddressView::RemoteHttp(u) ==> !repository ==> fetch_plan(origin, dest, repository)
            == (FetchActionView::Download { url: u, dest }),
        origin matches AddressView::Local(p) ==> fetch_plan(origin, dest, repository)
            == (FetchActionView::Symlink { target: p, link: dest }),
{
}

/// A repository with a remote origin is cloned from that URL, whatever the
/// URL, into `dest_dir/name`.
pub proof fn lemma_remote_repository_is_cloned(g: GitRepository, u: Seq<char>)
    requires
        origin_view(g.origin) == Some(AddressView::RemoteHttp(u)),
    ensures
        fetch_plan(g.spec_origin().unwrap(), g.spec_destination(), g.spec_is_repository())
            == (FetchActionView::GitClone { url: u, dest: join_of(g.dest_dir@, g.name@) }),
{
}

} // verus!
