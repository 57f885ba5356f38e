//! What modules and their bar tell each other.
use vstd::prelude::*;
use crate::assoc::Assoc;
use crate::procs::menu_panel::InteractGeneric;
use crate::tui::{CustomId, Elem, Location};

verus! {

/// What a module asks of its bar.
#[derive(Debug)]
#[non_exhaustive]
pub enum ModuleAct {
    RenderByMonitor(Assoc<Elem>),
    RenderAll(Elem),
    HideModule,
    OpenMenu(OpenMenu),
}

#[derive(Debug)]
pub struct OpenMenu {
    pub monitor: String,
    pub tui: Elem,
    pub pos: Location,
    pub menu_kind: MenuKind,
}

#[derive(Clone, Copy, Debug, PartialEq, Eq, Structural)]
pub enum MenuKind {
    Tooltip,
    Context,
}

impl MenuKind {
    /// Tooltips close as soon as the mouse goes elsewhere.
    pub fn close_on_unfocus(self) -> (r: bool)
        ensures
            r == (self == MenuKind::Tooltip),
    {
        match self {
            MenuKind::Tooltip => true,
            MenuKind::Context => false,
        }
    }
}

/// What a module is told.
#[derive(Debug)]
pub enum ModuleUpd {
    Interact(InteractGeneric<ModuleInteractPayload>),
}

#[derive(Debug)]
pub struct ModuleInteractPayload {
    pub tag: CustomId,
    pub monitor: String,
}

} // verus!
