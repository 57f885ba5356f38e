//! What is known of the desktop: its workspaces.
use vstd::prelude::*;

verus! {

/// What identifies a workspace.
#[derive(Debug, PartialEq, Eq, PartialOrd, Ord, Hash)]
pub struct WorkspaceId {
    pub id: String,
}

impl View for WorkspaceId {
    type V = Seq<char>;

    open spec fn view(&self) -> Seq<char> {
        self.id@
    }
}

impl Clone for WorkspaceId {
    fn clone(&self) -> (r: Self)
        ensures
            r == *self,
    {
        WorkspaceId { id: self.id.clone() }
    }
}

impl From<&str> for WorkspaceId {
    fn from(value: &str) -> (r: Self)
        ensures
            r@ == value@,
    {
        WorkspaceId { id: value.to_owned() }
    }
}

impl vstd::std_specs::convert::FromSpecImpl<&str> for WorkspaceId {
    open spec fn obeys_from_spec() -> bool {
        false
    }

    open spec fn from_spec(value: &str) -> Self {
        arbitrary()
    }
}

impl From<String> for WorkspaceId {
    fn from(value: String) -> (r: Self) {
        WorkspaceId { id: value }
    }
}

impl vstd::std_specs::convert::FromSpecImpl<String> for WorkspaceId {
    open spec fn obeys_from_spec() -> bool {
        true
    }

    open spec fn from_spec(value: String) -> Self {
        WorkspaceId { id: value }
    }
}

impl WorkspaceId {
    pub fn as_str(&self) -> (r: &str)
        ensures
            r@ == self@,
    {
        self.id.as_str()
    }
}

#[derive(Debug)]
pub struct BasicWorkspace {
    pub id: WorkspaceId,
    pub name: String,
    pub monitor: Option<String>,
    pub is_active: bool,
}

impl Clone for BasicWorkspace {
    fn clone(&self) -> (r: Self)
        ensures
            r == *self,
    {
        BasicWorkspace {
            id: self.id.clone(),
            name: self.name.clone(),
            monitor: match &self.monitor {
                Some(monitor) => Some(monitor.clone()),
                None => None,
            },
            is_active: self.is_active,
        }
    }
}

#[derive(Debug)]
pub struct BasicDesktopState {
    pub workspaces: Vec<BasicWorkspace>,
}

impl Default for BasicDesktopState {
    fn default() -> (r: Self)
        ensures
            r.workspaces@.len() == 0,
    {
        BasicDesktopState { workspaces: Vec::new() }
    }
}

} // verus!
