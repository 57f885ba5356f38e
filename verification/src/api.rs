//! What a driver and its controller tell each other.
use vstd::prelude::*;
use crate::tui::{CustomId, Elem, ElemView, InteractKind};

verus! {

#[derive(Debug)]
#[non_exhaustive]
pub enum ControllerUpdate {
    UpdateBars(BarSelection, BarUpdate),
    SetDefaultTui(SetBarTui),
    RegisterMenu(RegisterMenu),
}

#[non_exhaustive]
#[derive(Debug)]
pub enum BarUpdate {
    SetTui(SetBarTui),
    Hide,
    Show,
}

impl From<SetBarTui> for BarUpdate {
    fn from(value: SetBarTui) -> (r: Self) {
        BarUpdate::SetTui(value)
    }
}

impl vstd::std_specs::convert::FromSpecImpl<SetBarTui> for BarUpdate {
    open spec fn obeys_from_spec() -> bool {
        true
    }

    open spec fn from_spec(value: SetBarTui) -> Self {
        BarUpdate::SetTui(value)
    }
}

#[derive(Debug)]
pub struct SetBarTui {
    pub tui: Elem,
    pub options: SetBarTuiOpts,
}

#[derive(Debug)]
pub struct SetBarTuiOpts {}

#[non_exhaustive]
#[derive(Debug)]
pub enum BarSelection {
    All,
    OnMonitor { monitor_name: String },
}

/// A menu that opens when the user does something with an element of the bar.
#[derive(Debug)]
pub struct RegisterMenu {
    pub on_tag: CustomId,
    pub on_kind: InteractKind,
    pub tui: Elem,
    pub menu_kind: MenuKind,
    pub options: RegisterMenuOpts,
}

/// What a [`RegisterMenu`] says.
#[verifier::ext_equal]
pub struct RegisterMenuView {
    pub on_tag: Seq<u8>,
    pub on_kind: InteractKind,
    pub tui: ElemView,
    pub menu_kind: MenuKind,
}

impl View for RegisterMenu {
    type V = RegisterMenuView;

    open spec fn view(&self) -> RegisterMenuView {
        RegisterMenuView {
            on_tag: self.on_tag@,
            on_kind: self.on_kind,
            tui: self.tui@,
            menu_kind: self.menu_kind,
        }
    }
}

#[derive(Debug)]
pub struct RegisterMenuOpts {}

/// A tooltip goes away by itself; a context menu stays until it is closed.
#[derive(Debug, PartialEq, Eq, Structural)]
#[non_exhaustive]
pub enum MenuKind {
    Tooltip,
    Context,
}

impl MenuKind {
    pub(crate) fn internal_clone(&self) -> (r: Self)
        ensures
            r == *self,
    {
        match self {
            MenuKind::Tooltip => MenuKind::Tooltip,
            MenuKind::Context => MenuKind::Context,
        }
    }
}

#[derive(Debug)]
#[non_exhaustive]
pub enum ControllerEvent {
    Interact(InteractEvent),
}

#[derive(Debug)]
#[non_exhaustive]
pub struct InteractEvent {
    pub kind: InteractKind,
    pub tag: CustomId,
}

/// Why a driver has no connection to its controller.
#[derive(Debug)]
pub struct Error {
    pub message: String,
}

} // verus!
