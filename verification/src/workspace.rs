//! Workspaces.
use vstd::prelude::*;

verus! {

pub type WorkspaceId = usize;

#[derive(Debug)]
pub struct Workspace {
    pub id: WorkspaceId,
    pub name: String,
    pub layout: String,
}

impl Workspace {
    pub fn new(id: WorkspaceId, name: &str, layout: &str) -> (r: Self)
        ensures
            r.id == id,
            r.name@ == name@,
            r.layout@ == layout@,
    {
        Workspace { id, name: name.to_string(), layout: layout.to_string() }
    }
}

impl Clone for Workspace {
    fn clone(&self) -> (r: Self)
        ensures
            r == *self,
    {
        Workspace { id: self.id, name: self.name.clone(), layout: self.layout.clone() }
    }
}

} // verus!
