//! The sound devices as a module.
use vstd::prelude::*;
use crate::procs::bar_panel::{
    audio_view, gap, push_audio, reacts_as, target_of, target_tag, BarInteractTarget, TargetView,
    SPACING,
};
use crate::pulse::{interact_update, update_kind, PulseDeviceKind, PulseState, PulseUpdate};
use crate::tui::{
    item_views, length_view, push_item, stack_view, Axis, CustomId, Elem, ElemView, InteractKind, StackItem,
};

verus! {

#[derive(Debug)]
pub struct Pulse {}

/// The devices as the module shows them: each with room on its right.
pub open spec fn module_view(state: PulseState) -> ElemView {
    stack_view(Axis::X, audio_view(state).drop_first().push(gap(SPACING)))
}

impl Pulse {
    /// Both devices, each with room on its right.
    pub fn render(&self, state: &PulseState) -> (r: Elem)
        ensures
            r@ == module_view(*state),
    {
        let mut items: Vec<StackItem> = Vec::new();
        push_audio(&mut items, state);
        let ghost all = item_views(items@);
        proof {
            assert(all =~= audio_view(*state));
            crate::tui::lemma_item_views(items@);
        }
        let _ = items.remove(0);
        proof {
            crate::tui::lemma_item_views(items@);
            assert(item_views(items@) =~= all.drop_first());
        }
        push_item(&mut items, StackItem::spacing(SPACING));
        Elem::stack(Axis::X, items)
    }

    /// What is asked of the device that a tag names. A tag that was made for a device
    /// leads back to it, and one that was made for anything else asks for nothing.
    pub fn react(&self, tag: &CustomId, kind: InteractKind) -> (r: Option<PulseUpdate>)
        ensures
            r == (match target_of(tag@) {
                Some(TargetView::Audio(target)) => match update_kind(kind) {
                    Some(kind) => Some(PulseUpdate { kind, target }),
                    None => None,
                },
                _ => None,
            }),
            forall|target: TargetView|
                tag@ == #[trigger] target_tag(target) ==> r == (match target {
                    TargetView::Audio(target) => match update_kind(kind) {
                        Some(kind) => Some(PulseUpdate { kind, target }),
                        None => None,
                    },
                    _ => None,
                }),
    {
        match BarInteractTarget::deserialize_tag(tag) {
            Some(BarInteractTarget::Audio(target)) => interact_update(target, kind),
            _ => None,
        }
    }
}

/// The module shows the microphone and then the loudspeaker, as the bar does, each
/// with three cells of room behind it.
pub proof fn law_module_shows_both_devices(state: PulseState)
    ensures
        module_view(state) matches ElemView::Stack { axis, items } && {
            &&& axis == Axis::X
            &&& items.len() == 4
            &&& reacts_as(items[0], TargetView::Audio(PulseDeviceKind::Source))
            &&& items[0] == audio_view(state)[1]
            &&& items[1] == length_view(3, ElemView::Empty)
            &&& reacts_as(items[2], TargetView::Audio(PulseDeviceKind::Sink))
            &&& items[2] == audio_view(state)[3]
            &&& items[3] == length_view(3, ElemView::Empty)
        },
{
}

} // verus!
