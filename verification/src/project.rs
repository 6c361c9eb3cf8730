//! A project: its own description file and the resources it lists.

use vstd::prelude::*;
use crate::resource::{NousFile, Resource};

verus! {

/// The suffix of a project's description file name.
pub open spec fn nous_suffix() -> Seq<char> {
    seq!['.', 'n', 'o', 'u', 's']
}

/// A project. Its description file is named after the project and lives in
/// the directory the project was created from; its resources come in the
/// order they were added.
pub struct Project {
    nous_file: NousFile,
    resources: Vec<Resource>,
    name: String,
}

impl Project {
    pub closed spec fn spec_nous_file(&self) -> NousFile {
        self.nous_file
    }

    pub closed spec fn spec_resources(&self) -> Seq<Resource> {
        self.resources@
    }

    pub closed spec fn spec_name(&self) -> Seq<char> {
        self.name@
    }

    /// A project named `name` with no resources, whose description file is
    /// `name.nous` in `dest_dir` and has no origin.
    pub fn new(name: String, dest_dir: String) -> (p: Project)
        ensures
            p.spec_name() == name@,
            p.spec_resources() == Seq::<Resource>::empty(),
            p.spec_nous_file().origin is None,
            p.spec_nous_file().dest_dir@ == dest_dir@,
            p.spec_nous_file().name@ == name@ + nous_suffix(),
    {
        proof {
            reveal_strlit(".nous");
            assert(".nous"@ =~= nous_suffix());
        }
        let file_name = name.clone().concat(".nous");
        Project {
            nous_file: NousFile { origin: None, dest_dir, name: file_name },
            resources: Vec::new(),
            name,
        }
    }

    /// A project put together from its parts, as read back from its
    /// description file.
    pub fn from_parts(nous_file: NousFile, resources: Vec<Resource>, name: String) -> (p: Project)
        ensures
            p.spec_nous_file() == nous_file,
            p.spec_resources() == resources@,
            p.spec_name() == name@,
    {
        Project { nous_file, resources, name }
    }

    /// Adds `res` after the resources already listed.
    pub fn push(&mut self, res: Resource)
        ensures
            final(self).spec_resources() == old(self).spec_resources().push(res),
            final(self).spec_nous_file() == old(self).spec_nous_file(),
            final(self).spec_name() == old(self).spec_name(),
    {
        self.resources.push(res);
    }

    pub fn nous_file(&self) -> (r: &NousFile)
        ensures
            *r == self.spec_nous_file(),
    {
        &self.nous_file
    }

    pub fn resources(&self) -> (r: &Vec<Resource>)
        ensures
            r@ == self.spec_resources(),
    {
        &self.resources
    }

    pub fn name(&self) -> (r: &String)
        ensures
            r@ == self.spec_name(),
    {
        &self.name
    }
}

} // verus!
