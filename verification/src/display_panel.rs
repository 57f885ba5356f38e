//! A panel that draws what it is given and tells what the user does with it.
use vstd::prelude::*;
use crate::tui::{CustomId, Elem, InteractKind, Location};

verus! {

/// What the user did, and with what.
#[derive(Debug)]
pub struct TuiInteract {
    pub location: Location,
    pub target: Option<CustomId>,
    pub kind: InteractKind,
}

#[derive(Debug)]
pub enum PanelEvent {
    Interact(TuiInteract),
}

#[derive(Debug)]
pub enum PanelUpdate {
    Display(Elem),
}

/// What happens in the terminal of the panel.
#[derive(Debug)]
pub enum PanelTermEvent {
    FocusGained,
    FocusLost,
    Key,
    /// What the mouse did, if it means anything.
    Mouse(Option<TuiInteract>),
    Resize,
}

/// What the panel tells of an event.
pub open spec fn told_of(event: PanelTermEvent) -> Option<PanelEvent> {
    match event {
        PanelTermEvent::FocusLost => Some(
            PanelEvent::Interact(
                TuiInteract {
                    location: Location { x: 0, y: 0 },
                    target: None,
                    kind: InteractKind::Hover,
                },
            ),
        ),
        PanelTermEvent::Mouse(Some(interact)) => Some(PanelEvent::Interact(interact)),
        _ => None,
    }
}

/// What the mouse did is told as it was, with its place, its target and its kind. The
/// loss of the focus is told as a mouse over nothing, and of everything else nothing
/// is told.
pub proof fn law_mouse_is_told_as_it_was(event: PanelTermEvent, interact: TuiInteract)
    ensures
        told_of(PanelTermEvent::Mouse(Some(interact))) == Some(PanelEvent::Interact(interact)),
        told_of(PanelTermEvent::Mouse(None)) is None,
        told_of(PanelTermEvent::FocusLost) matches Some(PanelEvent::Interact(nothing))
            && nothing.target is None && nothing.kind == InteractKind::Hover && nothing.location
            == (Location { x: 0, y: 0 }),
        event is FocusGained || event is Key || event is Resize ==> told_of(event) is None,
{
}

/// What the panel tells in answer: the loss of the focus counts as the mouse
/// over nothing.
pub fn on_term_event(event: PanelTermEvent) -> (r: Option<PanelEvent>)
    ensures
        r == told_of(event),
{
    match event {
        PanelTermEvent::FocusLost => Some(
            PanelEvent::Interact(
                TuiInteract {
                    location: Location { x: 0, y: 0 },
                    target: None,
                    kind: InteractKind::Hover,
                },
            ),
        ),
        PanelTermEvent::Mouse(interact) => match interact {
            Some(interact) => Some(PanelEvent::Interact(interact)),
            None => None,
        },
        _ => None,
    }
}

} // verus!
