//! The bar of a monitor: what it shows of the state of everything, and what the
//! user can point at.
use vstd::prelude::*;
use crate::data::{BasicDesktopState, BasicWorkspace, WorkspaceId};
use crate::images::{
    encode_png, icon_fits, icon_image, icon_pixels, png_file, unsigned, IconPixmap,
};
use crate::ppd::{mk_profile_symbol, profile_symbol};
use crate::procs::menu_panel::InteractGeneric;
use crate::procs::PanelSet;
use crate::pulse::{
    device_elem, device_view, law_volumes_are_told_apart, volume_text, PulseDeviceKind, PulseState,
};
use crate::strs::{joined, texts};
use crate::tray::StatusNotifierItem;
use crate::tui::{
    auto_view, fill_view, interactive_view, item_views, length_view, plain_view, push_item,
    stack_view, Axis, CustomId, Elem, ElemView, ImageData, ImageView, InteractKind, ItemView,
    Location, Size, Sizes, StackItem, Style,
};
use crate::upower::{
    energy_text, mk_energy_text, mk_plain_rate_sign, plain_rate_sign, BatteryState,
};
use crate::wire::{
    concat_bytes, encode_text, encode_u32, law_numbers_are_told_apart, law_texts_are_told_apart,
    take_text, take_u32, text_at_start, text_bytes, u32_at_start, u32_bytes,
};
use crate::xtui::text::Color;
use crate::xtui::{center_symbol_view, tui_center_symbol};
use std::sync::Arc;

verus! {

#[derive(Debug)]
pub enum BarEvent {
    Interact(InteractGeneric<BarInteractTarget>),
}

#[derive(Debug)]
pub struct BarEventInfo {
    pub monitor: String,
}

/// What of the battery the bar shows: numbers that have been rounded and texts.
#[derive(Debug)]
pub struct EnergyState {
    pub should_show: bool,
    pub percentage: i64,
    pub rate: String,
    pub bstate: BatteryState,
}

#[derive(Debug)]
pub enum BarUpdate {
    SysTray(Arc<Vec<(String, StatusNotifierItem)>>),
    Desktop(BasicDesktopState),
    Energy(EnergyState),
    Pulse(PulseState),
    Ppd(String),
    Time(String),
}

/// What the user can point at in a bar.
#[derive(Debug)]
pub enum BarInteractTarget {
    Nothing,
    HyprWorkspace(WorkspaceId),
    Time,
    Energy,
    Ppd,
    Audio(PulseDeviceKind),
    Tray(String),
}

/// What a [`BarInteractTarget`] says.
#[verifier::ext_equal]
pub enum TargetView {
    Nothing,
    HyprWorkspace(Seq<char>),
    Time,
    Energy,
    Ppd,
    Audio(PulseDeviceKind),
    Tray(Seq<char>),
}

impl View for BarInteractTarget {
    type V = TargetView;

    open spec fn view(&self) -> TargetView {
        match *self {
            BarInteractTarget::Nothing => TargetView::Nothing,
            BarInteractTarget::HyprWorkspace(id) => TargetView::HyprWorkspace(id@),
            BarInteractTarget::Time => TargetView::Time,
            BarInteractTarget::Energy => TargetView::Energy,
            BarInteractTarget::Ppd => TargetView::Ppd,
            BarInteractTarget::Audio(kind) => TargetView::Audio(kind),
            BarInteractTarget::Tray(addr) => TargetView::Tray(addr@),
        }
    }
}

/// The number of a kind of devices.
pub open spec fn device_number(kind: PulseDeviceKind) -> u32 {
    match kind {
        PulseDeviceKind::Sink => 0,
        PulseDeviceKind::Source => 1,
    }
}

/// The bytes of the tag of a target.
pub open spec fn target_tag(target: TargetView) -> Seq<u8> {
    match target {
        TargetView::Nothing => u32_bytes(0),
        TargetView::HyprWorkspace(id) => u32_bytes(1) + text_bytes(id),
        TargetView::Time => u32_bytes(2),
        TargetView::Energy => u32_bytes(3),
        TargetView::Ppd => u32_bytes(4),
        TargetView::Audio(kind) => u32_bytes(5) + u32_bytes(device_number(kind)),
        TargetView::Tray(addr) => u32_bytes(6) + text_bytes(addr),
    }
}

/// The target that some bytes name.
pub open spec fn target_of(bytes: Seq<u8>) -> Option<TargetView> {
    match u32_at_start(bytes) {
        None => None,
        Some((kind, rest)) => if kind == 0 {
            Some(TargetView::Nothing)
        } else if kind == 1 {
            match text_at_start(rest, usize::MAX) {
                Some((id, _)) => Some(TargetView::HyprWorkspace(id)),
                None => None,
            }
        } else if kind == 2 {
            Some(TargetView::Time)
        } else if kind == 3 {
            Some(TargetView::Energy)
        } else if kind == 4 {
            Some(TargetView::Ppd)
        } else if kind == 5 {
            match u32_at_start(rest) {
                Some((device, _)) => if device == 0 {
                    Some(TargetView::Audio(PulseDeviceKind::Sink))
                } else if device == 1 {
                    Some(TargetView::Audio(PulseDeviceKind::Source))
                } else {
                    None
                },
                None => None,
            }
        } else if kind == 6 {
            match text_at_start(rest, usize::MAX) {
                Some((addr, _)) => Some(TargetView::Tray(addr)),
                None => None,
            }
        } else {
            None
        },
    }
}

impl BarInteractTarget {
    pub fn serialize_tag(&self) -> (r: CustomId)
        ensures
            r@ == target_tag(self@),
    {
        let bytes = match self {
            BarInteractTarget::Nothing => encode_u32(0),
            BarInteractTarget::HyprWorkspace(id) => concat_bytes(encode_u32(1), encode_text(id.as_str())),
            BarInteractTarget::Time => encode_u32(2),
            BarInteractTarget::Energy => encode_u32(3),
            BarInteractTarget::Ppd => encode_u32(4),
            BarInteractTarget::Audio(PulseDeviceKind::Sink) => concat_bytes(
                encode_u32(5),
                encode_u32(0),
            ),
            BarInteractTarget::Audio(PulseDeviceKind::Source) => concat_bytes(
                encode_u32(5),
                encode_u32(1),
            ),
            BarInteractTarget::Tray(addr) => concat_bytes(encode_u32(6), encode_text(addr)),
        };
        CustomId::from_bytes(bytes)
    }

    /// The target that a tag names. What was made into a tag is found again.
    pub fn deserialize_tag(tag: &CustomId) -> (r: Option<Self>)
        ensures
            r is Some <==> target_of(tag@) is Some,
            r matches Some(target) ==> target_of(tag@) == Some(target@),
            forall|target: TargetView|
                tag@ == #[trigger] target_tag(target) ==> r is Some && (r->0)@ == target,
    {
        proof {
            assert forall|n: u32| #[trigger] u32_bytes(n) == u32_bytes(n) + Seq::<u8>::empty() by {
                assert(u32_bytes(n) + Seq::<u8>::empty() =~= u32_bytes(n));
            }
            assert forall|text: Seq<char>| #[trigger] text_bytes(text) == text_bytes(text) + Seq::<
                u8,
            >::empty() by {
                assert(text_bytes(text) + Seq::<u8>::empty() =~= text_bytes(text));
            }
        }
        let (kind, rest) = match take_u32(&tag.bytes) {
            Some(it) => it,
            None => {
                return None;
            },
        };
        if kind == 0 {
            Some(BarInteractTarget::Nothing)
        } else if kind == 1 {
            match take_text(&rest) {
                Some((id, _)) => Some(BarInteractTarget::HyprWorkspace(WorkspaceId { id })),
                None => None,
            }
        } else if kind == 2 {
            Some(BarInteractTarget::Time)
        } else if kind == 3 {
            Some(BarInteractTarget::Energy)
        } else if kind == 4 {
            Some(BarInteractTarget::Ppd)
        } else if kind == 5 {
            match take_u32(&rest) {
                Some((device, _)) => if device == 0 {
                    Some(BarInteractTarget::Audio(PulseDeviceKind::Sink))
                } else if device == 1 {
                    Some(BarInteractTarget::Audio(PulseDeviceKind::Source))
                } else {
                    None
                },
                None => None,
            }
        } else if kind == 6 {
            match take_text(&rest) {
                Some((addr, _)) => Some(BarInteractTarget::Tray(addr)),
                None => None,
            }
        } else {
            None
        }
    }
}

/// What the controller hears of an interaction with a bar. A tag that was made for a
/// target leads back to it; one that stands for nothing gives no event.
pub fn bar_event(location: Location, kind: InteractKind, tag: &Option<CustomId>) -> (r: Option<
    BarEvent,
>)
    ensures
        tag is None ==> r is Some && (r->0)->Interact_0.target@ == TargetView::Nothing,
        tag matches Some(tag) ==> (r is Some <==> target_of(tag@) is Some),
        tag matches Some(tag) ==> (r matches Some(BarEvent::Interact(it)) ==> target_of(tag@) == Some(
            it.target@,
        )),
        r matches Some(BarEvent::Interact(it)) ==> it.location == location && it.kind == kind,
        forall|target: TargetView|
            (tag matches Some(tag) && tag@ == #[trigger] target_tag(target)) ==> (r matches Some(
                BarEvent::Interact(it),
            ) && it.target@ == target),
{
    let target = match tag {
        Some(tag) => match BarInteractTarget::deserialize_tag(tag) {
            Some(target) => target,
            None => {
                return None;
            },
        },
        None => BarInteractTarget::Nothing,
    };
    Some(BarEvent::Interact(InteractGeneric { location, kind, target }))
}

/// All that a bar shows.
#[derive(Debug)]
pub struct BarState {
    pub systray: Arc<Vec<(String, StatusNotifierItem)>>,
    pub desktop: BasicDesktopState,
    pub ppd_profile: String,
    pub energy: EnergyState,
    pub pulse: PulseState,
    pub time: String,
}

impl Default for BarState {
    /// Nothing is known yet.
    fn default() -> (r: Self)
        ensures
            r.systray@.len() == 0,
            r.desktop.workspaces@.len() == 0,
            r.ppd_profile@.len() == 0,
            !r.energy.should_show,
            r.energy.percentage == 0,
            r.energy.rate@.len() == 0,
            r.energy.bstate == BatteryState::Unknown,
            r.pulse == (PulseState { sink: crate::pulse::silent(), source: crate::pulse::silent() }),
            r.time@.len() == 0,
    {
        BarState {
            systray: Arc::new(Vec::new()),
            desktop: BasicDesktopState::default(),
            ppd_profile: String::new(),
            energy: EnergyState {
                should_show: false,
                percentage: 0,
                rate: String::new(),
                bstate: BatteryState::Unknown,
            },
            pulse: PulseState::default(),
            time: String::new(),
        }
    }
}

/// The state with one part of it replaced.
pub open spec fn updated(state: BarState, update: BarUpdate) -> BarState {
    match update {
        BarUpdate::SysTray(systray) => BarState { systray, ..state },
        BarUpdate::Desktop(desktop) => BarState { desktop, ..state },
        BarUpdate::Energy(energy) => BarState { energy, ..state },
        BarUpdate::Ppd(profile) => BarState { ppd_profile: profile, ..state },
        BarUpdate::Pulse(pulse) => BarState { pulse, ..state },
        BarUpdate::Time(time) => BarState { time, ..state },
    }
}

impl BarState {
    /// Each update replaces one part of the state.
    pub fn apply_update(&mut self, update: BarUpdate)
        ensures
            *final(self) == updated(*old(self), update),
    {
        match update {
            BarUpdate::SysTray(systray) => {
                self.systray = systray;
            },
            BarUpdate::Desktop(desktop) => {
                self.desktop = desktop;
            },
            BarUpdate::Energy(energy) => {
                self.energy = energy;
            },
            BarUpdate::Ppd(profile) => {
                self.ppd_profile = profile;
            },
            BarUpdate::Pulse(pulse) => {
                self.pulse = pulse;
            },
            BarUpdate::Time(time) => {
                self.time = time;
            },
        }
    }
}

/// The room between the parts of a bar.
pub const SPACING: u16 = 3;

/// Empty room in a bar.
pub open spec fn gap(len: u16) -> ItemView {
    length_view(len, ElemView::Empty)
}

/// Whether a workspace is on a monitor.
pub open spec fn is_on(ws: BasicWorkspace, monitor: Seq<char>) -> bool {
    ws.monitor matches Some(name) && name@ == monitor
}

/// A workspace in a bar: its name, green where it is active.
pub open spec fn workspace_view(ws: BasicWorkspace) -> ItemView {
    auto_view(
        interactive_view(
            ElemView::Text {
                text: ws.name@,
                style: if ws.is_active {
                    Style::colored(Color::Green)
                } else {
                    Style::plain()
                },
            },
            target_tag(TargetView::HyprWorkspace(ws.id@)),
        ),
    )
}

/// The workspaces of a monitor.
pub open spec fn workspaces_view(list: Seq<BasicWorkspace>, monitor: Seq<char>) -> Seq<ItemView>
    decreases list.len(),
{
    if list.len() == 0 {
        Seq::empty()
    } else {
        let before = workspaces_view(list.drop_last(), monitor);
        if is_on(list.last(), monitor) {
            before.push(workspace_view(list.last())).push(gap(1))
        } else {
            before
        }
    }
}

/// The file with the picture of an icon, if there is one.
pub open spec fn icon_file(icon: IconPixmap) -> Option<Seq<u8>> {
    if icon_fits(icon) {
        png_file(unsigned(icon.width), unsigned(icon.height), icon_pixels(icon))
    } else {
        None
    }
}

/// The icons of an application.
pub open spec fn icons_view(icons: Seq<IconPixmap>, addr: Seq<char>) -> Seq<ItemView>
    decreases icons.len(),
{
    if icons.len() == 0 {
        Seq::empty()
    } else {
        let before = icons_view(icons.drop_last(), addr);
        match icon_file(icons.last()) {
            Some(data) => before.push(
                auto_view(
                    interactive_view(
                        ElemView::Image { image: ImageView::Png { data }, axis: Axis::Y, len: 1 },
                        target_tag(TargetView::Tray(addr)),
                    ),
                ),
            ).push(gap(1)),
            None => before,
        }
    }
}

/// The icons of all applications.
pub open spec fn systray_view(entries: Seq<(String, StatusNotifierItem)>) -> Seq<ItemView>
    decreases entries.len(),
{
    if entries.len() == 0 {
        Seq::empty()
    } else {
        systray_view(entries.drop_last()) + (match entries.last().1.icon_pixmap {
            Some(icons) => icons_view(icons@, entries.last().0@),
            None => Seq::empty(),
        })
    }
}

/// The sound devices.
pub open spec fn audio_view(pulse: PulseState) -> Seq<ItemView> {
    seq![
        gap(SPACING),
        auto_view(
            device_view(
                if pulse.source.muted {
                    plain_view("\u{f131} "@)
                } else {
                    center_symbol_view("\u{f130}"@, 2)
                },
                pulse.source.percent,
                target_tag(TargetView::Audio(PulseDeviceKind::Source)),
            ),
        ),
        gap(SPACING),
        auto_view(
            device_view(
                if pulse.sink.muted {
                    plain_view("\u{eee8} "@)
                } else {
                    plain_view("\u{f028} "@)
                },
                pulse.sink.percent,
                target_tag(TargetView::Audio(PulseDeviceKind::Sink)),
            ),
        ),
    ]
}

/// What stands for the active profile.
pub open spec fn ppd_text(profile: Seq<char>) -> Seq<char> {
    match profile_symbol(profile) {
        Some(symbol) => symbol + " "@,
        None => ""@,
    }
}

/// The profile and the battery.
pub open spec fn energy_view(energy: EnergyState, profile: Seq<char>) -> Seq<ItemView> {
    if energy.should_show {
        seq![
            gap(SPACING),
            auto_view(
                interactive_view(plain_view(ppd_text(profile)), target_tag(TargetView::Ppd)),
            ),
            auto_view(
                interactive_view(
                    plain_view(
                        energy_text(
                            energy.percentage,
                            plain_rate_sign(energy.bstate),
                            energy.rate@,
                        ),
                    ),
                    target_tag(TargetView::Energy),
                ),
            ),
        ]
    } else {
        Seq::empty()
    }
}

/// The time, once it is known.
pub open spec fn time_view(time: Seq<char>) -> Seq<ItemView> {
    if time.len() > 0 {
        seq![
            gap(SPACING),
            auto_view(interactive_view(plain_view(time), target_tag(TargetView::Time))),
        ]
    } else {
        Seq::empty()
    }
}

/// The whole bar: the workspaces of its monitor on the left, all else on the right.
pub open spec fn bar_view(state: BarState, monitor: Seq<char>) -> ElemView {
    stack_view(
        Axis::X,
        seq![gap(1)] + workspaces_view(state.desktop.workspaces@, monitor) + seq![
            fill_view(1, ElemView::Empty),
        ] + systray_view(state.systray@) + audio_view(state.pulse) + energy_view(
            state.energy,
            state.ppd_profile@,
        ) + time_view(state.time@) + seq![gap(1)],
    )
}

pub(crate) fn push_workspaces(items: &mut Vec<StackItem>, list: &Vec<BasicWorkspace>, monitor: &String)
    ensures
        item_views(final(items)@) == item_views(old(items)@) + workspaces_view(list@, monitor@),
{
    let ghost before = item_views(items@);
    let mut i: usize = 0;
    proof {
        assert(list@.take(0) =~= Seq::empty());
        assert(before + workspaces_view(list@.take(0), monitor@) =~= before);
    }
    while i < list.len()
        invariant
            0 <= i <= list@.len(),
            item_views(items@) == before + workspaces_view(list@.take(i as int), monitor@),
        decreases list@.len() - i,
    {
        proof {
            assert(list@.take(i + 1).drop_last() =~= list@.take(i as int));
            assert(list@.take(i + 1).last() == list@[i as int]);
        }
        let ws = &list[i];
        let here = match &ws.monitor {
            Some(name) => *name == *monitor,
            None => false,
        };
        if here {
            let style = if ws.is_active {
                Style::colored(Color::Green)
            } else {
                Style::plain()
            };
            let tag = BarInteractTarget::HyprWorkspace(ws.id.clone()).serialize_tag();
            push_item(items, StackItem::auto(Elem::text(&ws.name, style).interactive(tag)));
            push_item(items, StackItem::spacing(1));
        }
        proof {
            assert(item_views(items@) =~= before + workspaces_view(list@.take(i + 1), monitor@));
        }
        i += 1;
    }
    proof {
        assert(list@.take(i as int) =~= list@);
    }
}

/// The icon of an application as an element, given the file with its picture.
pub fn icon_elem(data: Vec<u8>, addr: &String) -> (r: Elem)
    ensures
        r@ == interactive_view(
            ElemView::Image { image: ImageView::Png { data: data@ }, axis: Axis::Y, len: 1 },
            target_tag(TargetView::Tray(addr@)),
        ),
{
    let tag = BarInteractTarget::Tray(addr.clone()).serialize_tag();
    Elem::image(ImageData::Png { data: Arc::new(data) }, Axis::Y, 1).interactive(tag)
}

fn push_icons(items: &mut Vec<StackItem>, icons: &Vec<IconPixmap>, addr: &String)
    ensures
        item_views(final(items)@) == item_views(old(items)@) + icons_view(icons@, addr@),
{
    let ghost before = item_views(items@);
    let mut i: usize = 0;
    proof {
        assert(icons@.take(0) =~= Seq::empty());
        assert(before + icons_view(icons@.take(0), addr@) =~= before);
    }
    while i < icons.len()
        invariant
            0 <= i <= icons@.len(),
            item_views(items@) == before + icons_view(icons@.take(i as int), addr@),
        decreases icons@.len() - i,
    {
        proof {
            assert(icons@.take(i + 1).drop_last() =~= icons@.take(i as int));
            assert(icons@.take(i + 1).last() == icons@[i as int]);
        }
        let file = match icon_image(&icons[i]) {
            Some(img) => encode_png(img),
            None => None,
        };
        if let Some(data) = file {
            push_item(items, StackItem::auto(icon_elem(data, addr)));
            push_item(items, StackItem::spacing(1));
        }
        proof {
            assert(item_views(items@) =~= before + icons_view(icons@.take(i + 1), addr@));
        }
        i += 1;
    }
    proof {
        assert(icons@.take(i as int) =~= icons@);
    }
}

fn push_systray(items: &mut Vec<StackItem>, entries: &Vec<(String, StatusNotifierItem)>)
    ensures
        item_views(final(items)@) == item_views(old(items)@) + systray_view(entries@),
{
    let ghost before = item_views(items@);
    let mut i: usize = 0;
    proof {
        assert(entries@.take(0) =~= Seq::empty());
        assert(before + systray_view(entries@.take(0)) =~= before);
    }
    while i < entries.len()
        invariant
            0 <= i <= entries@.len(),
            item_views(items@) == before + systray_view(entries@.take(i as int)),
        decreases entries@.len() - i,
    {
        proof {
            assert(entries@.take(i + 1).drop_last() =~= entries@.take(i as int));
            assert(entries@.take(i + 1).last() == entries@[i as int]);
        }
        let (addr, item) = &entries[i];
        if let Some(icons) = &item.icon_pixmap {
            push_icons(items, icons, addr);
        }
        proof {
            assert(item_views(items@) =~= before + systray_view(entries@.take(i + 1)));
        }
        i += 1;
    }
    proof {
        assert(entries@.take(i as int) =~= entries@);
    }
}

pub(crate) fn push_audio(items: &mut Vec<StackItem>, pulse: &PulseState)
    ensures
        item_views(final(items)@) == item_views(old(items)@) + audio_view(*pulse),
{
    let ghost before = item_views(items@);
    push_item(items, StackItem::spacing(SPACING));
    // No microphone takes two cells by itself, so one is put in the middle of two.
    push_item(
        items,
        StackItem::auto(
            device_elem(
                pulse.source.percent,
                pulse.source.muted,
                &Elem::plain("\u{f131} "),
                &tui_center_symbol("\u{f130}", 2),
                BarInteractTarget::Audio(PulseDeviceKind::Source).serialize_tag(),
            ),
        ),
    );
    push_item(items, StackItem::spacing(SPACING));
    push_item(
        items,
        StackItem::auto(
            device_elem(
                pulse.sink.percent,
                pulse.sink.muted,
                &Elem::plain("\u{eee8} "),
                &Elem::plain("\u{f028} "),
                BarInteractTarget::Audio(PulseDeviceKind::Sink).serialize_tag(),
            ),
        ),
    );
    proof {
        assert(item_views(items@) =~= before + audio_view(*pulse));
    }
}

fn push_energy(items: &mut Vec<StackItem>, energy: &EnergyState, profile: &String)
    ensures
        item_views(final(items)@) == item_views(old(items)@) + energy_view(*energy, profile@),
{
    let ghost before = item_views(items@);
    if energy.should_show {
        let text = mk_energy_text(
            energy.percentage,
            mk_plain_rate_sign(energy.bstate),
            &energy.rate,
        );
        let symbol = match mk_profile_symbol(profile) {
            Some(symbol) => joined(symbol, " "),
            None => "".to_owned(),
        };
        push_item(items, StackItem::spacing(SPACING));
        push_item(
            items,
            StackItem::auto(
                Elem::plain(&symbol).interactive(BarInteractTarget::Ppd.serialize_tag()),
            ),
        );
        push_item(
            items,
            StackItem::auto(
                Elem::plain(&text).interactive(BarInteractTarget::Energy.serialize_tag()),
            ),
        );
    }
    proof {
        assert(item_views(items@) =~= before + energy_view(*energy, profile@));
    }
}

fn push_time(items: &mut Vec<StackItem>, time: &String)
    ensures
        item_views(final(items)@) == item_views(old(items)@) + time_view(time@),
{
    let ghost before = item_views(items@);
    if !time.as_str().is_empty() {
        push_item(items, StackItem::spacing(SPACING));
        push_item(
            items,
            StackItem::auto(
                Elem::plain(time).interactive(BarInteractTarget::Time.serialize_tag()),
            ),
        );
    }
    proof {
        assert(item_views(items@) =~= before + time_view(time@));
    }
}

pub fn to_tui(state: &BarState, monitor_name: &String) -> (r: Elem)
    ensures
        r@ == bar_view(*state, monitor_name@),
{
    let mut items: Vec<StackItem> = Vec::new();
    push_item(&mut items, StackItem::spacing(1));
    push_workspaces(&mut items, &state.desktop.workspaces, monitor_name);
    push_item(&mut items, StackItem::fill(1, Elem::empty()));
    push_systray(&mut items, &state.systray);
    push_audio(&mut items, &state.pulse);
    push_energy(&mut items, &state.energy, &state.ppd_profile);
    push_time(&mut items, &state.time);
    push_item(&mut items, StackItem::spacing(1));
    proof {
        assert(item_views(items@) =~= bar_view(*state, monitor_name@)->Stack_items);
    }
    Elem::stack(Axis::X, items)
}

/// A bar does not depend on the workspaces of other monitors.
pub proof fn law_bar_ignores_other_monitors(list: Seq<BasicWorkspace>, monitor: Seq<char>)
    ensures
        workspaces_view(list, monitor) == workspaces_view(
            list.filter(|ws: BasicWorkspace| is_on(ws, monitor)),
            monitor,
        ),
    decreases list.len(),
{
    reveal(Seq::filter);
    let own = |ws: BasicWorkspace| is_on(ws, monitor);
    if list.len() > 0 {
        law_bar_ignores_other_monitors(list.drop_last(), monitor);
        let front = list.drop_last().filter(own);
        assert(front.push(list.last()).drop_last() =~= front);
    }
}

/// What comes to the bar of a monitor.
#[derive(Debug)]
pub enum BarInc {
    /// Everything that is to be shown.
    Bar(Arc<BarState>),
    Sizes(Sizes),
    /// The user did something, with an element or beside all of them.
    Interact { location: Location, kind: InteractKind, tag: Option<CustomId> },
    Other,
}

/// What the bar of a monitor does.
#[derive(Debug)]
pub enum BarAct {
    Tell { location: Location, kind: InteractKind, tag: Option<CustomId> },
    /// Draw the bar over this size.
    Render(Size),
    Nothing,
}

/// The bar of a monitor: what it shows, and how large its terminal is.
#[derive(Debug)]
pub struct BarPanel {
    pub monitor: String,
    pub tui: Elem,
    pub sizes: Sizes,
}

impl BarPanel {
    /// A bar that shows what there is to show before anything is known.
    pub fn new(monitor: String, sizes: Sizes) -> (r: Self)
        ensures
            r.monitor == monitor,
            r.sizes == sizes,
            exists|state: BarState| #[trigger] is_unknown(state) && r.tui@ == bar_view(
                state,
                monitor@,
            ),
    {
        let state = BarState::default();
        let tui = to_tui(&state, &monitor);
        proof {
            assert(is_unknown(state));
        }
        BarPanel { monitor, tui, sizes }
    }

    /// Whether a panel follows from another by what came to it.
    pub open spec fn follows(after: BarPanel, before: BarPanel, inc: BarInc) -> bool {
        &&& after.monitor == before.monitor
        &&& match inc {
            BarInc::Bar(state) => {
                &&& after.tui@ == bar_view(*state, before.monitor@)
                &&& after.sizes == before.sizes
            },
            BarInc::Sizes(sizes) => {
                &&& after.tui == before.tui
                &&& after.sizes == sizes
            },
            BarInc::Interact { .. } => after == before,
            BarInc::Other => after == before,
        }
    }

    /// What is done about what came to the panel.
    pub open spec fn act_on(self, inc: BarInc) -> BarAct {
        match inc {
            BarInc::Bar(_) => BarAct::Render(self.sizes.cell_size),
            BarInc::Sizes(sizes) => BarAct::Render(sizes.cell_size),
            BarInc::Interact { location, kind, tag } => BarAct::Tell { location, kind, tag },
            BarInc::Other => BarAct::Nothing,
        }
    }

    /// Takes in what comes to the bar. It is drawn anew when there is something
    /// new to show or its terminal has changed.
    pub fn step(&mut self, inc: BarInc) -> (r: BarAct)
        ensures
            BarPanel::follows(*final(self), *old(self), inc),
            r == old(self).act_on(inc),
    {
        match inc {
            BarInc::Bar(state) => {
                self.tui = to_tui(&state, &self.monitor);
                BarAct::Render(self.sizes.cell_size)
            },
            BarInc::Sizes(sizes) => {
                self.sizes = sizes;
                BarAct::Render(sizes.cell_size)
            },
            BarInc::Interact { location, kind, tag } => BarAct::Tell { location, kind, tag },
            BarInc::Other => BarAct::Nothing,
        }
    }
}

/// Whether nothing is known yet.
pub open spec fn is_unknown(state: BarState) -> bool {
    &&& state.systray@.len() == 0
    &&& state.desktop.workspaces@.len() == 0
    &&& state.ppd_profile@.len() == 0
    &&& !state.energy.should_show
    &&& state.pulse == (PulseState { sink: crate::pulse::silent(), source: crate::pulse::silent() })
    &&& state.time@.len() == 0
}

/// Before anything is known a bar shows the two sound devices, silent and not muted, at
/// its right end, and nothing else.
pub proof fn law_unknown_bar_shows_silent_devices(state: BarState, monitor: Seq<char>)
    requires
        is_unknown(state),
    ensures
        bar_view(state, monitor) matches ElemView::Stack { axis, items } && {
            &&& axis == Axis::X
            &&& items.len() == 7
            &&& items[0] == length_view(1, ElemView::Empty)
            &&& items[1] == fill_view(1, ElemView::Empty)
            &&& items.subrange(2, 6) == audio_view(state.pulse)
            &&& items[6] == length_view(1, ElemView::Empty)
        },
        state.pulse.sink.percent == 0 && !state.pulse.sink.muted && state.pulse.sink.name is None,
        state.pulse.source.percent == 0 && !state.pulse.source.muted
            && state.pulse.source.name is None,
{
    let items = bar_view(state, monitor)->Stack_items;
    assert(items.subrange(2, 6) =~= audio_view(state.pulse));
}

/// The bars of all monitors and what they show.
#[derive(Debug)]
pub struct BarManager {
    pub state: BarState,
    pub panels: PanelSet,
}

impl BarManager {
    /// Takes in an update, which goes to all bars. Those that no longer listen
    /// are ended; the result lists them.
    pub fn broadcast(&mut self, update: BarUpdate, closed: &Vec<String>) -> (r: Vec<String>)
        requires
            old(self).panels.wf(),
        ensures
            final(self).panels.wf(),
            final(self).state == updated(old(self).state, update),
            forall|name: Seq<char>| #[trigger]
                final(self).panels.names().contains(name) <==> old(self).panels.names().contains(name)
                    && !texts(closed@).contains(name),
            crate::monitors::lists_names(
                r@,
                Set::new(
                    |name: Seq<char>|
                        old(self).panels.names().contains(name) && texts(closed@).contains(name),
                ),
            ),
    {
        self.state.apply_update(update);
        self.panels.drop_closed(closed)
    }
}

/// Whether two updates are of the same part.
pub open spec fn same_part(a: BarUpdate, b: BarUpdate) -> bool {
    ||| a is SysTray && b is SysTray
    ||| a is Desktop && b is Desktop
    ||| a is Energy && b is Energy
    ||| a is Ppd && b is Ppd
    ||| a is Pulse && b is Pulse
    ||| a is Time && b is Time
}

/// Updates of different parts can come in any order.
pub proof fn law_updates_of_parts_commute(state: BarState, a: BarUpdate, b: BarUpdate)
    requires
        !same_part(a, b),
    ensures
        updated(updated(state, a), b) == updated(updated(state, b), a),
{
}

/// Of two updates of the same part only the later one counts.
pub proof fn law_later_update_counts(state: BarState, a: BarUpdate, b: BarUpdate)
    requires
        same_part(a, b),
    ensures
        updated(updated(state, a), b) == updated(state, b),
{
}

/// Each target has a tag of its own.
pub proof fn law_targets_have_their_own_tags(a: TargetView, b: TargetView)
    requires
        target_tag(a) == target_tag(b),
    ensures
        a == b,
{
    let nothing = Seq::<u8>::empty();
    let (m, x) = tag_parts(a);
    let (n, y) = tag_parts(b);
    assert(target_tag(a) =~= u32_bytes(m) + x);
    assert(target_tag(b) =~= u32_bytes(n) + y);
    law_numbers_are_told_apart(m, n, x, y);
    match (a, b) {
        (TargetView::HyprWorkspace(s), TargetView::HyprWorkspace(t)) => {
            assert(text_bytes(s) + nothing =~= x);
            assert(text_bytes(t) + nothing =~= y);
            law_texts_are_told_apart(s, t, nothing, nothing);
        },
        (TargetView::Tray(s), TargetView::Tray(t)) => {
            assert(text_bytes(s) + nothing =~= x);
            assert(text_bytes(t) + nothing =~= y);
            law_texts_are_told_apart(s, t, nothing, nothing);
        },
        (TargetView::Audio(s), TargetView::Audio(t)) => {
            assert(u32_bytes(device_number(s)) + nothing =~= x);
            assert(u32_bytes(device_number(t)) + nothing =~= y);
            law_numbers_are_told_apart(device_number(s), device_number(t), nothing, nothing);
        },
        _ => {},
    }
}

/// The number of the kind of a target, and the bytes that say which one it is.
spec fn tag_parts(target: TargetView) -> (u32, Seq<u8>) {
    match target {
        TargetView::Nothing => (0, Seq::empty()),
        TargetView::HyprWorkspace(id) => (1, text_bytes(id)),
        TargetView::Time => (2, Seq::empty()),
        TargetView::Energy => (3, Seq::empty()),
        TargetView::Ppd => (4, Seq::empty()),
        TargetView::Audio(kind) => (5, u32_bytes(device_number(kind))),
        TargetView::Tray(addr) => (6, text_bytes(addr)),
    }
}

/// Whether an item of a bar reacts to the mouse as the given target.
pub open spec fn reacts_as(item: ItemView, target: TargetView) -> bool {
    item.elem matches ElemView::Interactive { tag, .. } && tag == target_tag(target)
}

/// The element that reacts as a sound device shows the volume of that device, and
/// behind which symbol it stands says whether that device is muted. There is one
/// such element for each of the two devices.
pub proof fn law_devices_show_their_own_volume(pulse: PulseState)
    ensures
        forall|i: int|
            0 <= i < audio_view(pulse).len() && reacts_as(
                #[trigger] audio_view(pulse)[i],
                TargetView::Audio(PulseDeviceKind::Sink),
            ) ==> audio_view(pulse)[i].elem == (ElemView::Interactive {
                inner: Box::new(
                    stack_view(
                        Axis::X,
                        seq![
                            auto_view(
                                plain_view(
                                    if pulse.sink.muted {
                                        "\u{eee8} "@
                                    } else {
                                        "\u{f028} "@
                                    },
                                ),
                            ),
                            auto_view(plain_view(volume_text(pulse.sink.percent))),
                        ],
                    ),
                ),
                tag: target_tag(TargetView::Audio(PulseDeviceKind::Sink)),
                hovered: None,
            }),
        forall|i: int|
            0 <= i < audio_view(pulse).len() && reacts_as(
                #[trigger] audio_view(pulse)[i],
                TargetView::Audio(PulseDeviceKind::Source),
            ) ==> audio_view(pulse)[i].elem == (ElemView::Interactive {
                inner: Box::new(
                    stack_view(
                        Axis::X,
                        seq![
                            auto_view(
                                if pulse.source.muted {
                                    plain_view("\u{f131} "@)
                                } else {
                                    center_symbol_view("\u{f130}"@, 2)
                                },
                            ),
                            auto_view(plain_view(volume_text(pulse.source.percent))),
                        ],
                    ),
                ),
                tag: target_tag(TargetView::Audio(PulseDeviceKind::Source)),
                hovered: None,
            }),
        exists|i: int|
            0 <= i < audio_view(pulse).len() && reacts_as(
                #[trigger] audio_view(pulse)[i],
                TargetView::Audio(PulseDeviceKind::Sink),
            ),
        exists|i: int|
            0 <= i < audio_view(pulse).len() && reacts_as(
                #[trigger] audio_view(pulse)[i],
                TargetView::Audio(PulseDeviceKind::Source),
            ),
        forall|i: int, j: int, kind: PulseDeviceKind|
            0 <= i < audio_view(pulse).len() && 0 <= j < audio_view(pulse).len() && reacts_as(
                #[trigger] audio_view(pulse)[i],
                TargetView::Audio(kind),
            ) && #[trigger] reacts_as(audio_view(pulse)[j], TargetView::Audio(kind)) ==> i == j,
{
    let sink = TargetView::Audio(PulseDeviceKind::Sink);
    let source = TargetView::Audio(PulseDeviceKind::Source);
    if target_tag(sink) == target_tag(source) {
        law_targets_have_their_own_tags(sink, source);
    }
    let shown = audio_view(pulse);
    assert(reacts_as(shown[1], source));
    assert(reacts_as(shown[3], sink));
}

/// A change of one device changes the element of that device and nothing else,
/// and another volume always shows.
pub proof fn law_volume_change_shows_at_its_device(
    before: PulseState,
    after: PulseState,
    kind: PulseDeviceKind,
    i: int,
)
    requires
        kind == PulseDeviceKind::Sink ==> before.source == after.source,
        kind == PulseDeviceKind::Source ==> before.sink == after.sink,
        0 <= i < audio_view(before).len(),
    ensures
        audio_view(after).len() == audio_view(before).len(),
        !reacts_as(audio_view(before)[i], TargetView::Audio(kind)) ==> audio_view(after)[i]
            == audio_view(before)[i],
        reacts_as(audio_view(before)[i], TargetView::Audio(kind)) <==> reacts_as(
            audio_view(after)[i],
            TargetView::Audio(kind),
        ),
        reacts_as(audio_view(before)[i], TargetView::Audio(kind)) && before.device(kind).percent
            != after.device(kind).percent ==> audio_view(after)[i] != audio_view(before)[i],
{
    let sink = TargetView::Audio(PulseDeviceKind::Sink);
    let source = TargetView::Audio(PulseDeviceKind::Source);
    if target_tag(sink) == target_tag(source) {
        law_targets_have_their_own_tags(sink, source);
    }
    if i == 1 || i == 3 {
        let first = audio_view(before)[i].elem;
        let second = audio_view(after)[i].elem;
        let left = (*first->Interactive_inner)->Stack_items;
        let right = (*second->Interactive_inner)->Stack_items;
        if first == second {
            assert(left[1] == right[1]);
            if i == 1 {
                law_volumes_are_told_apart(before.source.percent, after.source.percent);
            } else {
                law_volumes_are_told_apart(before.sink.percent, after.sink.percent);
            }
        }
    }
}

/// The workspaces that belong to a monitor.
pub open spec fn workspaces_on(list: Seq<BasicWorkspace>, monitor: Seq<char>) -> Seq<
    BasicWorkspace,
> {
    list.filter(|ws: BasicWorkspace| ws.monitor matches Some(name) && name@ == monitor)
}

/// Each workspace of a monitor appears in its bar, in its turn, by its name and
/// under its own tag. The active one is green, the others are plain; a cell of
/// room follows each.
pub proof fn law_workspaces_appear_in_the_bar(list: Seq<BasicWorkspace>, monitor: Seq<char>)
    ensures
        workspaces_view(list, monitor).len() == 2 * workspaces_on(list, monitor).len(),
        forall|k: int|
            0 <= k < workspaces_on(list, monitor).len() ==> {
                let ws = #[trigger] workspaces_on(list, monitor)[k];
                &&& workspaces_view(list, monitor)[2 * k] == auto_view(
                    ElemView::Interactive {
                        inner: Box::new(
                            ElemView::Text {
                                text: ws.name@,
                                style: Style {
                                    fg: if ws.is_active {
                                        Color::Green
                                    } else {
                                        Color::Unset
                                    },
                                    bold: false,
                                    underlined: false,
                                },
                            },
                        ),
                        tag: target_tag(TargetView::HyprWorkspace(ws.id@)),
                        hovered: None,
                    },
                )
                &&& workspaces_view(list, monitor)[2 * k + 1] == length_view(1, ElemView::Empty)
            },
    decreases list.len(),
{
    reveal(Seq::filter);
    if list.len() > 0 {
        law_workspaces_appear_in_the_bar(list.drop_last(), monitor);
    }
}

/// The icons of which a file can be made.
pub open spec fn usable_icons(icons: Seq<IconPixmap>) -> Seq<IconPixmap> {
    icons.filter(|icon: IconPixmap| icon_file(icon) is Some)
}

/// Each icon of an application of which a file can be made appears in the bar, in
/// its turn, one line high and under the tag of its application.
pub proof fn law_icons_appear_in_the_bar(icons: Seq<IconPixmap>, addr: Seq<char>)
    ensures
        icons_view(icons, addr).len() == 2 * usable_icons(icons).len(),
        forall|k: int|
            0 <= k < usable_icons(icons).len() ==> {
                let icon = #[trigger] usable_icons(icons)[k];
                &&& icons_view(icons, addr)[2 * k] == auto_view(
                    ElemView::Interactive {
                        inner: Box::new(
                            ElemView::Image {
                                image: ImageView::Png { data: icon_file(icon)->0 },
                                axis: Axis::Y,
                                len: 1,
                            },
                        ),
                        tag: target_tag(TargetView::Tray(addr)),
                        hovered: None,
                    },
                )
                &&& icons_view(icons, addr)[2 * k + 1] == length_view(1, ElemView::Empty)
            },
    decreases icons.len(),
{
    reveal(Seq::filter);
    if icons.len() > 0 {
        law_icons_appear_in_the_bar(icons.drop_last(), addr);
    }
}

/// The file of an icon with enough bytes holds its picture: as wide and as high,
/// with the bytes of its pixels. One with too few bytes has no file.
pub proof fn law_file_holds_the_icon(icon: IconPixmap)
    ensures
        icon_fits(icon) ==> icon_file(icon) == png_file(
            unsigned(icon.width),
            unsigned(icon.height),
            icon_pixels(icon),
        ),
        !icon_fits(icon) ==> icon_file(icon) is None,
{
}

/// The applications stand in the bar in their order, each with its icons under
/// its own address.
pub proof fn law_applications_appear_in_order(
    entries: Seq<(String, StatusNotifierItem)>,
    addr: String,
    item: StatusNotifierItem,
)
    ensures
        systray_view(Seq::empty()).len() == 0,
        item.icon_pixmap is None ==> systray_view(entries.push((addr, item))) == systray_view(
            entries,
        ),
        item.icon_pixmap matches Some(icons) ==> systray_view(entries.push((addr, item)))
            == systray_view(entries) + icons_view(icons@, addr@),
{
    assert(entries.push((addr, item)).drop_last() =~= entries);
    if item.icon_pixmap is None {
        assert(systray_view(entries.push((addr, item))) =~= systray_view(entries));
    }
}

/// The battery and the profile appear together, and only where there is a battery
/// to show: the symbol of the profile under the tag of the profile, and behind it
/// the text of the battery under the tag of the battery.
pub proof fn law_battery_appears_where_it_is_known(energy: EnergyState, profile: Seq<char>)
    ensures
        !energy.should_show ==> energy_view(energy, profile).len() == 0,
        energy.should_show ==> {
            let shown = energy_view(energy, profile);
            &&& shown.len() == 3
            &&& shown[0] == length_view(3, ElemView::Empty)
            &&& shown[1].elem matches ElemView::Interactive { inner, tag, hovered } && {
                &&& tag == target_tag(TargetView::Ppd)
                &&& hovered is None
                &&& profile_symbol(profile) matches Some(symbol) ==> *inner == plain_view(
                    symbol + seq![' '],
                )
                &&& profile_symbol(profile) is None ==> *inner == plain_view(Seq::empty())
            }
            &&& shown[2].elem matches ElemView::Interactive { inner, tag, hovered } && {
                &&& tag == target_tag(TargetView::Energy)
                &&& hovered is None
                &&& *inner == plain_view(
                    energy_text(
                        energy.percentage,
                        plain_rate_sign(energy.bstate),
                        energy.rate@,
                    ),
                )
            }
        },
{
    reveal_strlit(" ");
    reveal_strlit("");
    assert(" "@ =~= seq![' ']);
    assert(""@ =~= Seq::<char>::empty());
}

/// The time appears as it is, under its tag, once it is known.
pub proof fn law_time_appears_once_known(time: Seq<char>)
    ensures
        time.len() == 0 ==> time_view(time).len() == 0,
        time.len() > 0 ==> time_view(time) == seq![
            length_view(3, ElemView::Empty),
            auto_view(
                ElemView::Interactive {
                    inner: Box::new(plain_view(time)),
                    tag: target_tag(TargetView::Time),
                    hovered: None,
                },
            ),
        ],
{
}

/// The bar holds all its parts from left to right: a cell of room, the workspaces,
/// all the room that is left, the tray, the sound devices, the battery, the time,
/// and a cell of room.
pub proof fn law_bar_holds_its_parts(state: BarState, monitor: Seq<char>)
    ensures
        bar_view(state, monitor) matches ElemView::Stack { axis, items } && {
            let spaces = workspaces_view(state.desktop.workspaces@, monitor);
            let tray = systray_view(state.systray@);
            let audio = audio_view(state.pulse);
            let energy = energy_view(state.energy, state.ppd_profile@);
            let time = time_view(state.time@);
            let middle = 1 + spaces.len() as int;
            let sound = middle + 1 + tray.len();
            let power = sound + audio.len();
            let clock = power + energy.len();
            let end = clock + time.len();
            &&& axis == Axis::X
            &&& items.len() == end + 1
            &&& items[0] == length_view(1, ElemView::Empty)
            &&& items.subrange(1, middle) == spaces
            &&& items[middle] == fill_view(1, ElemView::Empty)
            &&& items.subrange(middle + 1, sound) == tray
            &&& items.subrange(sound, power) == audio
            &&& items.subrange(power, clock) == energy
            &&& items.subrange(clock, end) == time
            &&& items[end] == length_view(1, ElemView::Empty)
        },
{
    let items = bar_view(state, monitor)->Stack_items;
    let spaces = workspaces_view(state.desktop.workspaces@, monitor);
    let tray = systray_view(state.systray@);
    let audio = audio_view(state.pulse);
    let energy = energy_view(state.energy, state.ppd_profile@);
    let time = time_view(state.time@);
    let middle = 1 + spaces.len() as int;
    let sound = middle + 1 + tray.len();
    let power = sound + audio.len();
    let clock = power + energy.len();
    let end = clock + time.len();
    assert(items.subrange(1, middle) =~= spaces);
    assert(items.subrange(middle + 1, sound) =~= tray);
    assert(items.subrange(sound, power) =~= audio);
    assert(items.subrange(power, clock) =~= energy);
    assert(items.subrange(clock, end) =~= time);
}

/// An update is kept as it is in the part that it is for, and the other parts stay
/// as they were.
pub proof fn law_update_replaces_its_part(
    state: BarState,
    systray: Arc<Vec<(String, StatusNotifierItem)>>,
    desktop: BasicDesktopState,
    energy: EnergyState,
    pulse: PulseState,
    text: String,
)
    ensures
        updated(state, BarUpdate::SysTray(systray)) == (BarState { systray, ..state }),
        updated(state, BarUpdate::Desktop(desktop)) == (BarState { desktop, ..state }),
        updated(state, BarUpdate::Energy(energy)) == (BarState { energy, ..state }),
        updated(state, BarUpdate::Pulse(pulse)) == (BarState { pulse, ..state }),
        updated(state, BarUpdate::Ppd(text)) == (BarState { ppd_profile: text, ..state }),
        updated(state, BarUpdate::Time(text)) == (BarState { time: text, ..state }),
{
}

/// What the user does with a bar is told as it was: where, what, and with which
/// element. It changes nothing that the bar shows.
pub proof fn law_bar_tells_what_was_done(
    after: BarPanel,
    before: BarPanel,
    location: Location,
    kind: InteractKind,
    tag: Option<CustomId>,
)
    ensures
        before.act_on(BarInc::Interact { location, kind, tag }) == (BarAct::Tell {
            location,
            kind,
            tag,
        }),
        BarPanel::follows(after, before, BarInc::Interact { location, kind, tag }) ==> after
            == before,
        BarPanel::follows(after, before, BarInc::Other) ==> after == before,
        before.act_on(BarInc::Other) is Nothing,
{
}

/// A bar shows the last state that it was given, as its monitor sees it, and is drawn
/// over the last size that it was given: after either, and at once.
pub proof fn law_bar_shows_the_last_state(
    first: BarPanel,
    second: BarPanel,
    third: BarPanel,
    state: Arc<BarState>,
    sizes: Sizes,
)
    requires
        BarPanel::follows(second, first, BarInc::Bar(state)),
        BarPanel::follows(third, second, BarInc::Sizes(sizes)),
    ensures
        third.tui@ == bar_view(*state, first.monitor@),
        third.sizes == sizes,
        third.monitor == first.monitor,
        second.sizes == first.sizes,
        first.act_on(BarInc::Bar(state)) == BarAct::Render(first.sizes.cell_size),
        second.act_on(BarInc::Sizes(sizes)) == BarAct::Render(sizes.cell_size),
{
}

} // verus!
