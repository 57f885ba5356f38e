//! What a controller and its host tell each other.
use vstd::prelude::*;
use crate::tui::{CustomId, Elem, InteractKind};

verus! {

/// Why a controller has no connection to its host.
#[derive(Debug)]
pub struct HostError {
    pub message: String,
}

#[derive(Debug)]
pub struct HostConnectOpts {}

/// What a controller asks of its host.
#[derive(Debug)]
#[non_exhaustive]
pub enum HostUpdate {
    UpdateBars(BarSelect, BarUpdate),
    SetDefaultTui(SetBarTui),
    OpenMenu(OpenMenu),
    CloseMenu,
}

#[derive(Debug)]
pub struct OpenMenu {
    pub tui: Elem,
    pub monitor: String,
    pub bar_anchor: CustomId,
    pub opts: OpenMenuOpts,
}

#[derive(Debug)]
pub struct OpenMenuOpts {}

impl Clone for OpenMenu {
    fn clone(&self) -> (r: Self)
        ensures
            r == *self,
    {
        OpenMenu {
            tui: self.tui.clone(),
            monitor: self.monitor.clone(),
            bar_anchor: self.bar_anchor.clone(),
            opts: OpenMenuOpts {  },
        }
    }
}

#[derive(Debug)]
pub struct CloseMenuOpts {}

#[non_exhaustive]
#[derive(Debug)]
pub enum BarUpdate {
    SetTui(SetBarTui),
    Hide,
    Show,
}

impl From<SetBarTui> for BarUpdate {
    fn from(value: SetBarTui) -> (r: Self) {
        BarUpdate::SetTui(value)
    }
}

impl vstd::std_specs::convert::FromSpecImpl<SetBarTui> for BarUpdate {
    open spec fn obeys_from_spec() -> bool {
        true
    }

    open spec fn from_spec(value: SetBarTui) -> Self {
        BarUpdate::SetTui(value)
    }
}

#[derive(Debug)]
pub struct SetBarTui {
    pub tui: Elem,
    pub options: SetBarTuiOpts,
}

#[derive(Debug)]
pub struct SetBarTuiOpts {}

/// Which bars an update is for.
#[non_exhaustive]
#[derive(Debug)]
pub enum BarSelect {
    All,
    OnMonitor { monitor_name: String },
}

#[derive(Debug)]
pub struct RegisterMenuOpts {}

/// What a host tells its controller.
#[derive(Debug)]
#[non_exhaustive]
pub enum HostEvent {
    Term(TermInfo, TermEvent),
}

#[derive(Debug)]
#[non_exhaustive]
pub enum TermEvent {
    Interact(InteractEvent),
    MouseLeave,
}

#[derive(Debug)]
#[non_exhaustive]
pub struct InteractEvent {
    pub kind: InteractKind,
    pub tag: Option<CustomId>,
}

impl InteractEvent {
    pub fn new(kind: InteractKind, tag: Option<CustomId>) -> (r: Self)
        ensures
            r == (InteractEvent { kind, tag }),
    {
        InteractEvent { kind, tag }
    }
}

#[derive(Debug)]
#[non_exhaustive]
pub struct FocusEvent {
    pub term: TermInfo,
    pub is_focused: bool,
}

#[derive(Debug)]
#[non_exhaustive]
pub struct TermInfo {
    pub monitor: String,
    pub kind: TermKind,
}

impl TermInfo {
    pub fn new(monitor: String, kind: TermKind) -> (r: Self)
        ensures
            r == (TermInfo { monitor, kind }),
    {
        TermInfo { monitor, kind }
    }
}

#[derive(Clone, Copy, Debug, PartialEq, Eq, Structural)]
#[non_exhaustive]
pub enum TermKind {
    Menu,
    Bar,
}

} // verus!
