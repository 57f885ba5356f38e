use std::sync::Arc;

use scratchbar::floats::F64;
use scratchbar::monitors::{MonitorData, MonitorMode, State};
use scratchbar::procs::bar_panel::{BarInteractTarget, BarUpdate, BarManager, BarState};
use scratchbar::procs::controller::{react, react_to_menu, ControlAct, TrayMenus};
use scratchbar::procs::menu_panel::{
    menu_event, panel_margins, to_tui, Inc, InteractGeneric, Menu, MenuAct, MenuEvent, MenuManager,
    MenuPanel, MenuUpdate, MenuWatcherEvent, PanelAct, Upd,
};
use scratchbar::procs::{mk_bar_panel_args, mk_menu_panel_args, PanelSet};
use scratchbar::pulse::{PulseDeviceKind, PulseUpdate, PulseUpdateKind};
use scratchbar::tray::{
    tooltip_to_tui, MenuInteractTarget, MenuItem, MenuType, Tooltip, TrayMenuExt, TrayMenuInteract,
};
use scratchbar::tui::{
    CustomId, Direction, Elem, InteractKind, Location, MouseButton, Size, Sizes,
};

fn show<T: std::fmt::Debug>(value: &T) -> String {
    format!("{value:?}")
}

fn s(text: &str) -> String {
    text.to_owned()
}

fn tooltip() -> Menu {
    Menu::TrayTooltip {
        addr: s("app"),
        tooltip: Arc::new(Tooltip { title: s("title"), description: s("text") }),
    }
}

fn context() -> Menu {
    Menu::TrayContext {
        addr: s("app"),
        tmenu: Arc::new(TrayMenuExt { id: 1, menu_path: Some(s("/path")), submenus: vec![] }),
    }
}

const AT: Location = Location { x: 7, y: 0 };

fn switch(new_menu: Menu, monitor: &str) -> Upd {
    Upd::Menu(MenuUpdate::SwitchSubject { new_menu, location: AT, monitor: s(monitor) })
}

fn manager(names: &[&str]) -> MenuManager {
    let mut mgr = MenuManager::new();
    for name in names {
        mgr.panels.started(s(name));
    }
    mgr
}

#[test]
fn tooltips_never_replace_context_menus() {
    let mut mgr = manager(&["A", "B"]);
    assert_eq!(mgr.step(switch(context(), "A"), &vec![]).len(), 1);
    assert!(mgr.step(switch(tooltip(), "A"), &vec![]).is_empty());
    assert!(mgr.step(switch(tooltip(), "B"), &vec![]).is_empty());
    assert!(mgr.step(Upd::Menu(MenuUpdate::UnfocusMenu), &vec![]).is_empty());
    assert!(!mgr.cur.as_ref().unwrap().menu.close_on_unfocus());
}

#[test]
fn context_menus_replace_tooltips() {
    let mut mgr = manager(&["A", "B"]);
    let _ = mgr.step(switch(tooltip(), "A"), &vec![]);
    let acts = mgr.step(switch(context(), "B"), &vec![]);
    let expected = vec![
        MenuAct::Hide(s("A")),
        MenuAct::Show { term: s("B"), tui: to_tui(&context()), location: AT },
    ];
    assert_eq!(show(&acts), show(&expected));
}

#[test]
fn unfocus_closes_tooltips() {
    let mut mgr = manager(&["A"]);
    let _ = mgr.step(switch(tooltip(), "A"), &vec![]);
    let acts = mgr.step(Upd::Menu(MenuUpdate::UnfocusMenu), &vec![]);
    assert_eq!(show(&acts), show(&vec![MenuAct::Hide(s("A"))]));
    assert!(mgr.cur.is_none());
    assert!(mgr.step(Upd::Menu(MenuUpdate::Hide), &vec![]).is_empty());
}

#[test]
fn panel_that_no_longer_listens_is_ended() {
    let mut mgr = manager(&["A"]);
    let acts = mgr.step(switch(tooltip(), "A"), &vec![s("A")]);
    assert_eq!(show(&acts), show(&vec![MenuAct::Shutdown(s("A"))]));
    assert!(mgr.cur.is_none());
    // Without a panel the menu is kept in mind, but shown nowhere.
    assert!(mgr.step(switch(tooltip(), "A"), &vec![]).is_empty());
    assert_eq!(mgr.cur.as_ref().unwrap().term, "A");
}

#[test]
fn watcher_hides_its_own_panel() {
    let mut mgr = manager(&["A", "B"]);
    let _ = mgr.step(switch(context(), "A"), &vec![]);
    let acts = mgr.step(Upd::Watcher(s("B"), MenuWatcherEvent::Hide), &vec![]);
    assert_eq!(show(&acts), show(&vec![MenuAct::Hide(s("B"))]));
    assert!(mgr.cur.is_some());
    let acts = mgr.step(Upd::Watcher(s("A"), MenuWatcherEvent::Hide), &vec![]);
    assert_eq!(show(&acts), show(&vec![MenuAct::Hide(s("A"))]));
    assert!(mgr.cur.is_none());
    assert_eq!(MenuWatcherEvent::from_byte(0), Some(MenuWatcherEvent::Hide));
    assert_eq!(MenuWatcherEvent::from_byte(1), None);
}

fn output(name: &str, width: u32) -> MonitorData {
    MonitorData {
        name: s(name),
        scale: F64 { bits: 1f64.to_bits() },
        modes: vec![MonitorMode { width, height: 1, current: true }],
        enabled: true,
    }
}

#[test]
fn panels_follow_the_monitors() {
    let mut monitors = State::new();
    let mut panels = PanelSet::new();
    let event = monitors.refresh(vec![output("A", 1), output("B", 1), output("C", 1)]).unwrap();
    let (stopped, started) = panels.apply_monitors(&event);
    assert!(stopped.is_empty());
    assert_eq!(started.len(), 3);
    for info in started {
        panels.started(info.name);
    }
    let event = monitors.refresh(vec![output("A", 1), output("B", 2)]).unwrap();
    let (mut stopped, started) = panels.apply_monitors(&event);
    stopped.sort();
    assert_eq!(stopped, vec!["B", "C"]);
    assert_eq!(started.len(), 1);
    assert_eq!(panels.drop_closed(&vec![s("A"), s("X"), s("A")]), vec!["A"]);
    assert!(panels.running.entries.is_empty());
}

#[test]
fn broadcast_ends_bars_that_no_longer_listen() {
    let mut mgr = BarManager { state: BarState::default(), panels: PanelSet::new() };
    mgr.panels.started(s("A"));
    mgr.panels.started(s("B"));
    assert_eq!(mgr.broadcast(BarUpdate::Time(s("12:00")), &vec![s("B")]), vec!["B"]);
    assert_eq!(mgr.state.time, "12:00");
    assert_eq!(mgr.panels.running.entries.len(), 1);
}

#[test]
fn panel_arguments() {
    let bar = mk_bar_panel_args("DP-1");
    assert_eq!((bar.len(), bar[0].as_str(), bar[5].as_str()), (7, "--output-name=DP-1", "--edge=top"));
    let menu = mk_menu_panel_args("DP-1", "/tmp/w.py");
    assert_eq!((menu.len(), menu[0].as_str()), (17, "-o=watcher=/tmp/w.py"));
    assert_eq!(menu[15], "--hide-on-focus-loss");
}

const fn size(width: u16, height: u16) -> Size {
    Size { width, height }
}

fn panel() -> MenuPanel {
    MenuPanel::new(1000, Sizes { cell_size: size(20, 5), font_size: size(10, 20) })
}

fn show_menu(width: u16, height: u16) -> Inc {
    Inc::Show {
        tui: Elem::plain("m"),
        location: Location { x: 500, y: 0 },
        size: Some(size(width, height)),
    }
}

#[test]
fn small_menu_is_drawn_at_once() {
    let mut panel = panel();
    let acts = panel.step(show_menu(10, 2));
    let expected = vec![
        PanelAct::Place { left: 450, right: 450, lines: 2 },
        PanelAct::SetVisible(true),
        PanelAct::Render(size(10, 2)),
    ];
    assert_eq!(show(&acts), show(&expected));
    panel.drawn(true);
    let sizes = Sizes { cell_size: size(10, 2), font_size: size(10, 20) };
    assert!(panel.step(Inc::Sizes(sizes)).is_empty());
}

#[test]
fn large_menu_waits_for_its_room() {
    let mut panel = panel();
    assert_eq!(panel.step(show_menu(40, 2)).len(), 2);
    let sizes = Sizes { cell_size: size(40, 2), font_size: size(10, 20) };
    assert_eq!(show(&panel.step(Inc::Sizes(sizes))), show(&vec![PanelAct::Render(size(40, 2))]));
    panel.drawn(false);
    assert_eq!(panel.step(Inc::Sizes(sizes)).len(), 1);
    panel.drawn(true);
    assert!(panel.step(Inc::Sizes(sizes)).is_empty());
    assert_eq!(show(&panel.step(Inc::Hide)), show(&vec![PanelAct::SetVisible(false)]));
}

#[test]
fn menu_of_the_right_size_stays_in_place() {
    let mut panel = panel();
    let acts = panel.step(show_menu(20, 5));
    assert_eq!(show(&acts), show(&vec![PanelAct::SetVisible(true), PanelAct::Render(size(20, 5))]));
    let failed = Inc::Show { tui: Elem::empty(), location: AT, size: None };
    assert!(panel.step(failed).is_empty());
    assert!(panel.step(Inc::Other).is_empty());
}

#[test]
fn panel_tells_what_is_touched() {
    let mut panel = panel();
    let kind = InteractKind::Hover;
    assert!(panel.step(Inc::Interact { location: AT, kind, tag: None }).is_empty());
    let tag = CustomId::from_bytes(vec![1]);
    let acts = panel.step(Inc::Interact { location: AT, kind, tag: Some(tag.clone()) });
    assert_eq!(show(&acts), show(&vec![PanelAct::Tell { location: AT, kind, tag }]));
}

#[test]
fn margins_move_what_does_not_fit_on_the_left() {
    assert_eq!(panel_margins(500, size(10, 1), 10, 1000), (450, 450));
    assert_eq!(panel_margins(10, size(10, 1), 10, 1000), (0, 900));
    assert_eq!(panel_margins(5000, size(10, 1), 10, 1000), (950, 0));
}

fn entry() -> TrayMenuInteract {
    TrayMenuInteract { addr: s("app"), menu_path: s("/path"), id: -3 }
}

#[test]
fn menu_tags_are_read_back() {
    let tag = MenuInteractTarget::TrayMenu(entry()).serialize_tag();
    let expected = postcard::to_stdvec(&(0u32, "app", "/path", -3i32)).unwrap();
    assert_eq!(*tag.bytes, expected);
    let MenuInteractTarget::TrayMenu(read) = MenuInteractTarget::deserialize_tag(&tag).unwrap();
    assert_eq!((read.addr, read.menu_path, read.id), (s("app"), s("/path"), -3));
    assert!(MenuInteractTarget::deserialize_tag(&CustomId::from_bytes(vec![])).is_none());
    assert!(MenuInteractTarget::deserialize_tag(&CustomId::from_bytes(vec![1])).is_none());
    assert!(MenuInteractTarget::deserialize_tag(&CustomId::from_bytes(vec![0, 5])).is_none());
    assert!(MenuInteractTarget::deserialize_tag(&CustomId::from_bytes(vec![0, 0, 0])).is_none());
    let MenuEvent::Interact(it) = menu_event(AT, InteractKind::Hover, &tag).unwrap();
    assert_eq!(it.location, AT);
    assert!(menu_event(AT, InteractKind::Hover, &CustomId::from_bytes(vec![])).is_none());
}

#[test]
fn clicks_ask_for_entries() {
    let event = |kind| {
        MenuEvent::Interact(InteractGeneric {
            location: AT,
            kind,
            target: MenuInteractTarget::TrayMenu(entry()),
        })
    };
    let asked = react_to_menu(event(InteractKind::Click(MouseButton::Middle))).unwrap();
    assert_eq!(asked.id, -3);
    assert!(react_to_menu(event(InteractKind::Hover)).is_none());
}

fn tray() -> TrayMenus {
    let tip = |title: &str| Some(Arc::new(Tooltip { title: s(title), description: s("") }));
    TrayMenus {
        tooltips: vec![(s("bare"), None), (s("app"), tip("first")), (s("app"), tip("second"))],
        menus: vec![(
            s("app"),
            Arc::new(TrayMenuExt { id: 5, menu_path: None, submenus: vec![] }),
        )],
    }
}

fn reaction(kind: InteractKind, target: BarInteractTarget) -> ControlAct {
    react(s("A"), AT, kind, target, &tray())
}

#[test]
fn tray_icons_open_menus() {
    let act = reaction(InteractKind::Hover, BarInteractTarget::Tray(s("app")));
    match act {
        ControlAct::Menu(MenuUpdate::SwitchSubject { new_menu, location, monitor }) => {
            assert_eq!((location, monitor), (AT, s("A")));
            assert!(new_menu.close_on_unfocus());
            let first = Tooltip { title: s("first"), description: s("") };
            assert_eq!(show(&to_tui(&new_menu)), show(&tooltip_to_tui(&first)));
        }
        other => panic!("{other:?}"),
    }
    let right = InteractKind::Click(MouseButton::Right);
    let act = reaction(right, BarInteractTarget::Tray(s("app")));
    assert!(matches!(
        act,
        ControlAct::Menu(MenuUpdate::SwitchSubject { new_menu: Menu::TrayContext { .. }, .. })
    ));
    let act = reaction(InteractKind::Hover, BarInteractTarget::Tray(s("bare")));
    assert!(matches!(act, ControlAct::Menu(MenuUpdate::UnfocusMenu)));
    let act = reaction(right, BarInteractTarget::Tray(s("unknown")));
    assert!(matches!(act, ControlAct::Menu(MenuUpdate::Hide)));
}

#[test]
fn other_parts_of_the_bar_react() {
    let left = InteractKind::Click(MouseButton::Left);
    assert!(matches!(reaction(left, BarInteractTarget::Ppd), ControlAct::CycleProfile));
    let scroll = InteractKind::Scroll(Direction::Down);
    match reaction(scroll, BarInteractTarget::Audio(PulseDeviceKind::Source)) {
        ControlAct::Pulse(update) => assert_eq!(
            update,
            PulseUpdate {
                kind: PulseUpdateKind::VolumeDelta(-2),
                target: PulseDeviceKind::Source,
            }
        ),
        other => panic!("{other:?}"),
    }
    let act = reaction(InteractKind::Hover, BarInteractTarget::Audio(PulseDeviceKind::Sink));
    assert!(matches!(act, ControlAct::Menu(MenuUpdate::UnfocusMenu)));
    let act = reaction(left, BarInteractTarget::Time);
    assert!(matches!(act, ControlAct::Menu(MenuUpdate::Hide)));
    let act = reaction(InteractKind::Hover, BarInteractTarget::Nothing);
    assert!(matches!(act, ControlAct::Menu(MenuUpdate::UnfocusMenu)));
}

#[test]
fn invisible_entries_are_left_out() {
    let item = |label: &str, visible| MenuItem {
        id: 1,
        menu_type: MenuType::Standard,
        label: Some(s(label)),
        visible,
        icon_data: None,
        submenu: vec![],
    };
    let menu = |items| Menu::TrayContext {
        addr: s("app"),
        tmenu: Arc::new(TrayMenuExt { id: 1, menu_path: None, submenus: items }),
    };
    let with = to_tui(&menu(vec![item("a", true), item("b", false)]));
    let without = to_tui(&menu(vec![item("a", true)]));
    assert_eq!(show(&with), show(&without));
}
