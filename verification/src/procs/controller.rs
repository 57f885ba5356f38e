//! The controller of the panels: what follows from what the user does.
use vstd::prelude::*;
use crate::procs::bar_panel::BarInteractTarget;
use crate::procs::menu_panel::{InteractGeneric, Menu, MenuEvent, MenuUpdate};
use crate::pulse::{interact_update, update_kind, PulseDeviceKind, PulseUpdate, PulseUpdateKind};
use crate::tray::{MenuInteractTarget, Tooltip, TrayMenuExt, TrayMenuInteract};
use crate::tui::{Direction, InteractKind, Location, MouseButton};
use std::sync::Arc;

verus! {

/// The tooltips and the menus of the applications in the tray, by address.
#[derive(Debug)]
pub struct TrayMenus {
    pub tooltips: Vec<(String, Option<Arc<Tooltip>>)>,
    pub menus: Vec<(String, Arc<TrayMenuExt>)>,
}

/// The place of the first entry with that address.
pub open spec fn first_with<T>(list: Seq<(String, T)>, addr: Seq<char>) -> Option<int>
    decreases list.len(),
{
    if list.len() == 0 {
        None
    } else {
        match first_with(list.drop_last(), addr) {
            Some(i) => Some(i),
            None => if list.last().0@ == addr {
                Some(list.len() - 1)
            } else {
                None
            },
        }
    }
}

/// The place of the first entry with that address.
fn find_first<T>(list: &Vec<(String, T)>, addr: &String) -> (r: Option<usize>)
    ensures
        r is None <==> first_with(list@, addr@) is None,
        r matches Some(i) ==> i < list@.len() && first_with(list@, addr@) == Some(i as int),
{
    let mut found: Option<usize> = None;
    let mut i: usize = 0;
    proof {
        assert(list@.take(0) =~= Seq::empty());
    }
    while i < list.len()
        invariant
            0 <= i <= list@.len(),
            found is None <==> first_with(list@.take(i as int), addr@) is None,
            found matches Some(j) ==> j < i && first_with(list@.take(i as int), addr@) == Some(
                j as int,
            ),
        decreases list@.len() - i,
    {
        proof {
            assert(list@.take(i + 1).drop_last() =~= list@.take(i as int));
            assert(list@.take(i + 1).last() == list@[i as int]);
        }
        if found.is_none() && list[i].0 == *addr {
            found = Some(i);
        }
        i += 1;
    }
    proof {
        assert(list@.take(i as int) =~= list@);
    }
    found
}

impl TrayMenus {
    /// The tooltip of the application at an address.
    pub open spec fn tooltip(self, addr: Seq<char>) -> Option<Arc<Tooltip>> {
        match first_with(self.tooltips@, addr) {
            Some(i) => self.tooltips@[i].1,
            None => None,
        }
    }

    /// The menu of the application at an address.
    pub open spec fn menu(self, addr: Seq<char>) -> Option<Arc<TrayMenuExt>> {
        match first_with(self.menus@, addr) {
            Some(i) => Some(self.menus@[i].1),
            None => None,
        }
    }
}

/// What follows from an interaction with a bar.
#[derive(Debug)]
pub enum ControlAct {
    Menu(MenuUpdate),
    CycleProfile,
    Pulse(PulseUpdate),
}

/// What follows from an interaction with a bar. The mouse over an application
/// shows its tooltip; the right button opens its menu; the profile and the sound
/// devices react by themselves. Anything else closes what is open: tooltips when
/// the mouse moves on, everything when a button is pressed or the wheel turned.
pub open spec fn reaction(
    monitor: String,
    location: Location,
    kind: InteractKind,
    target: BarInteractTarget,
    tray: TrayMenus,
) -> ControlAct {
    match (kind, target) {
        (InteractKind::Hover, BarInteractTarget::Tray(addr)) => match tray.tooltip(addr@) {
            Some(tooltip) => ControlAct::Menu(
                MenuUpdate::SwitchSubject {
                    new_menu: Menu::TrayTooltip { addr, tooltip },
                    location,
                    monitor,
                },
            ),
            None => ControlAct::Menu(MenuUpdate::UnfocusMenu),
        },
        (InteractKind::Click(MouseButton::Right), BarInteractTarget::Tray(addr)) => match tray.menu(
            addr@,
        ) {
            Some(tmenu) => ControlAct::Menu(
                MenuUpdate::SwitchSubject {
                    new_menu: Menu::TrayContext { addr, tmenu },
                    location,
                    monitor,
                },
            ),
            None => ControlAct::Menu(MenuUpdate::Hide),
        },
        (InteractKind::Click(MouseButton::Left), BarInteractTarget::Ppd) => {
            ControlAct::CycleProfile
        },
        (_, BarInteractTarget::Audio(target)) if update_kind(kind) is Some => ControlAct::Pulse(
            PulseUpdate { kind: update_kind(kind)->0, target },
        ),
        (InteractKind::Hover, _) => ControlAct::Menu(MenuUpdate::UnfocusMenu),
        _ => ControlAct::Menu(MenuUpdate::Hide),
    }
}

pub fn react(
    monitor: String,
    location: Location,
    kind: InteractKind,
    target: BarInteractTarget,
    tray: &TrayMenus,
) -> (r: ControlAct)
    ensures
        r == reaction(monitor, location, kind, target, *tray),
{
    match target {
        BarInteractTarget::Tray(addr) => {
            match kind {
                InteractKind::Hover => {
                    let tooltip = match find_first(&tray.tooltips, &addr) {
                        Some(i) => match &tray.tooltips[i].1 {
                            Some(tooltip) => Some(tooltip.clone()),
                            None => None,
                        },
                        None => None,
                    };
                    match tooltip {
                        Some(tooltip) => ControlAct::Menu(
                            MenuUpdate::SwitchSubject {
                                new_menu: Menu::TrayTooltip { addr, tooltip },
                                location,
                                monitor,
                            },
                        ),
                        None => ControlAct::Menu(MenuUpdate::UnfocusMenu),
                    }
                },
                InteractKind::Click(MouseButton::Right) => {
                    match find_first(&tray.menus, &addr) {
                        Some(i) => ControlAct::Menu(
                            MenuUpdate::SwitchSubject {
                                new_menu: Menu::TrayContext {
                                    addr,
                                    tmenu: tray.menus[i].1.clone(),
                                },
                                location,
                                monitor,
                            },
                        ),
                        None => ControlAct::Menu(MenuUpdate::Hide),
                    }
                },
                _ => ControlAct::Menu(MenuUpdate::Hide),
            }
        },
        BarInteractTarget::Ppd => {
            match kind {
                InteractKind::Click(MouseButton::Left) => ControlAct::CycleProfile,
                InteractKind::Hover => ControlAct::Menu(MenuUpdate::UnfocusMenu),
                _ => ControlAct::Menu(MenuUpdate::Hide),
            }
        },
        BarInteractTarget::Audio(target) => {
            match interact_update(target, kind) {
                Some(update) => ControlAct::Pulse(update),
                None => match kind {
                    InteractKind::Hover => ControlAct::Menu(MenuUpdate::UnfocusMenu),
                    _ => ControlAct::Menu(MenuUpdate::Hide),
                },
            }
        },
        _ => {
            match kind {
                InteractKind::Hover => ControlAct::Menu(MenuUpdate::UnfocusMenu),
                _ => ControlAct::Menu(MenuUpdate::Hide),
            }
        },
    }
}

/// The entry that an interaction with a menu asks for.
pub open spec fn asked_entry(event: MenuEvent) -> Option<TrayMenuInteract> {
    match event {
        MenuEvent::Interact(InteractGeneric { kind, target, .. }) => match target {
            MenuInteractTarget::TrayMenu(entry) => if kind is Click {
                Some(entry)
            } else {
                None
            },
        },
    }
}

/// What follows from an interaction with a menu: any click asks for the entry.
pub fn react_to_menu(event: MenuEvent) -> (r: Option<TrayMenuInteract>)
    ensures
        r == asked_entry(event),
{
    match event {
        MenuEvent::Interact(InteractGeneric { location: _, kind, target }) => match target {
            MenuInteractTarget::TrayMenu(entry) => match kind {
                InteractKind::Click(_) => Some(entry),
                _ => None,
            },
        },
    }
}

/// The mouse that merely moves over a bar never closes a context menu: what
/// follows is a tooltip, or that tooltips close.
pub proof fn law_hovering_is_gentle(
    monitor: String,
    location: Location,
    target: BarInteractTarget,
    tray: TrayMenus,
)
    ensures
        reaction(monitor, location, InteractKind::Hover, target, tray) matches ControlAct::Menu(update)
            && (update is UnfocusMenu || (update matches MenuUpdate::SwitchSubject { new_menu, .. }
            && new_menu.is_tooltip())),
{
}

/// The first entry with an address is the one that counts, if there is one.
pub proof fn law_first_entry_counts<T>(list: Seq<(String, T)>, addr: Seq<char>)
    ensures
        first_with(list, addr) is None <==> forall|i: int|
            0 <= i < list.len() ==> (#[trigger] list[i]).0@ != addr,
        first_with(list, addr) matches Some(place) ==> {
            &&& 0 <= place < list.len()
            &&& list[place].0@ == addr
            &&& forall|i: int| 0 <= i < place ==> (#[trigger] list[i]).0@ != addr
        },
    decreases list.len(),
{
    if list.len() > 0 {
        let front = list.drop_last();
        law_first_entry_counts(front, addr);
        if first_with(list, addr) is Some {
            let place = first_with(list, addr)->0;
            if place < front.len() {
                assert(front[place] == list[place]);
            }
            assert forall|i: int| 0 <= i < place implies (#[trigger] list[i]).0@ != addr by {
                assert(front[i] == list[i]);
            }
        } else {
            assert forall|i: int| 0 <= i < list.len() implies (#[trigger] list[i]).0@ != addr by {
                if i < front.len() {
                    assert(front[i] == list[i]);
                }
            }
        }
    }
}

/// The tooltip and the menu of an application are those of the first entry under
/// its address.
pub proof fn law_menus_are_found_by_address(tray: TrayMenus, addr: Seq<char>)
    ensures
        first_with(tray.tooltips@, addr) matches Some(i) ==> tray.tooltip(addr)
            == tray.tooltips@[i].1,
        first_with(tray.tooltips@, addr) is None ==> tray.tooltip(addr) is None,
        first_with(tray.menus@, addr) matches Some(i) ==> tray.menu(addr) == Some(
            tray.menus@[i].1,
        ),
        first_with(tray.menus@, addr) is None ==> tray.menu(addr) is None,
{
}

/// The mouse over an application shows the tooltip of that application where it
/// was, and the right button opens its menu there. Where there is none, tooltips
/// close or everything does; any other button, and the wheel, close everything.
pub proof fn law_applications_react(
    monitor: String,
    location: Location,
    kind: InteractKind,
    addr: String,
    tray: TrayMenus,
)
    ensures
        ({
            let act = reaction(monitor, location, kind, BarInteractTarget::Tray(addr), tray);
            let right = InteractKind::Click(MouseButton::Right);
            &&& kind == InteractKind::Hover ==> (tray.tooltip(addr@) matches Some(tooltip) ==> act
                == ControlAct::Menu(
                MenuUpdate::SwitchSubject {
                    new_menu: Menu::TrayTooltip { addr, tooltip },
                    location,
                    monitor,
                },
            ))
            &&& kind == InteractKind::Hover && tray.tooltip(addr@) is None ==> act
                == ControlAct::Menu(MenuUpdate::UnfocusMenu)
            &&& kind == right ==> (tray.menu(addr@) matches Some(tmenu) ==> act == ControlAct::Menu(
                MenuUpdate::SwitchSubject {
                    new_menu: Menu::TrayContext { addr, tmenu },
                    location,
                    monitor,
                },
            ))
            &&& kind == right && tray.menu(addr@) is None ==> act == ControlAct::Menu(
                MenuUpdate::Hide,
            )
            &&& kind != InteractKind::Hover && kind != right ==> act == ControlAct::Menu(
                MenuUpdate::Hide,
            )
        }),
{
}

/// A sound device reacts to the buttons and to the wheel, each device for itself;
/// the middle button closes everything.
pub proof fn law_devices_react(
    monitor: String,
    location: Location,
    device: PulseDeviceKind,
    direction: Direction,
    tray: TrayMenus,
)
    ensures
        ({
            let target = BarInteractTarget::Audio(device);
            let up = direction is Up || direction is Right;
            &&& reaction(
                monitor,
                location,
                InteractKind::Click(MouseButton::Left),
                target,
                tray,
            ) == ControlAct::Pulse(
                PulseUpdate { kind: PulseUpdateKind::ToggleMute, target: device },
            )
            &&& reaction(
                monitor,
                location,
                InteractKind::Click(MouseButton::Right),
                target,
                tray,
            ) == ControlAct::Pulse(
                PulseUpdate { kind: PulseUpdateKind::ResetVolume, target: device },
            )
            &&& reaction(
                monitor,
                location,
                InteractKind::Click(MouseButton::Middle),
                target,
                tray,
            ) == ControlAct::Menu(MenuUpdate::Hide)
            &&& reaction(
                monitor,
                location,
                InteractKind::Scroll(direction),
                target,
                tray,
            ) matches ControlAct::Pulse(update) && update.target == device
                && (update.kind matches PulseUpdateKind::VolumeDelta(step) && (up ==> step == 2) && (
            !up ==> step == -2))
            &&& reaction(monitor, location, InteractKind::Hover, target, tray) == ControlAct::Menu(
                MenuUpdate::UnfocusMenu,
            )
        }),
{
}

/// The left button on the profile goes on to the next one, and does so nowhere
/// else.
pub proof fn law_profile_reacts(
    monitor: String,
    location: Location,
    kind: InteractKind,
    target: BarInteractTarget,
    tray: TrayMenus,
)
    ensures
        reaction(monitor, location, kind, target, tray) is CycleProfile <==> kind
            == InteractKind::Click(MouseButton::Left) && target is Ppd,
{
}

/// Whatever does not react by itself closes menus: tooltips where the mouse merely
/// moves over it, all of them where anything else is done with it.
pub proof fn law_other_places_close_menus(
    monitor: String,
    location: Location,
    kind: InteractKind,
    target: BarInteractTarget,
    tray: TrayMenus,
)
    requires
        target is Nothing || target is HyprWorkspace || target is Time || target is Energy || (
        target is Ppd && kind != InteractKind::Click(MouseButton::Left)),
    ensures
        kind == InteractKind::Hover ==> reaction(monitor, location, kind, target, tray)
            == ControlAct::Menu(MenuUpdate::UnfocusMenu),
        kind != InteractKind::Hover ==> reaction(monitor, location, kind, target, tray)
            == ControlAct::Menu(MenuUpdate::Hide),
{
}

/// A click on an entry asks for that very entry, with whichever button; nothing else
/// that is done with it does.
pub proof fn law_click_asks_for_the_entry(
    location: Location,
    kind: InteractKind,
    entry: TrayMenuInteract,
)
    ensures
        ({
            let target = MenuInteractTarget::TrayMenu(entry);
            let event = MenuEvent::Interact(InteractGeneric { location, kind, target });
            &&& kind is Click ==> asked_entry(event) == Some(entry)
            &&& !(kind is Click) ==> asked_entry(event) is None
        }),
{
}

} // verus!
