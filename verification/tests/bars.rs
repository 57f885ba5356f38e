use std::sync::Arc;

use scratchbar::assoc::Assoc;
use scratchbar::data::{BasicDesktopState, BasicWorkspace, WorkspaceId};
use scratchbar::images::IconPixmap;
use scratchbar::modules::fixed::FixedTuiModule;
use scratchbar::modules::prelude::{self, ModuleAct, ModuleUpd};
use scratchbar::modules::pulse::Pulse;
use scratchbar::modules::tray::{apply_menu_paths, TrayReaction, TrayState};
use scratchbar::monitor_inst::MenuPlacement;
use scratchbar::host::TermKind;
use scratchbar::panels::bar::{
    ActOutcome, BarModules, BarMonitor, BarMonitorAct, BarTui, BarTuiElem, BarUpd,
};
use scratchbar::panels::{
    BarTuiState, MenuKind, MonitorPanels, MouseResult, Opened, PanelAct, Upd,
};
use scratchbar::procs::bar_panel::{
    bar_event, icon_elem, to_tui, BarAct, BarEvent, BarInc, BarInteractTarget, BarPanel, BarState,
    BarUpdate, EnergyState,
};
use scratchbar::pulse::{PulseDeviceKind, PulseState, PulseUpdate, PulseUpdateKind};
use scratchbar::tray::{
    context_to_tui, tooltip_to_tui, IconMode, MenuInteractTarget, MenuItem, MenuType,
    StatusNotifierItem, Tooltip, TrayMenuExt, TrayMenuInteract,
};
use scratchbar::tui::{
    Area, Axis, CustomId, Elem, ImageData, InteractKind, Location, MouseButton, Size, Sizes,
    StackItem, Style,
};
use scratchbar::upower::BatteryState;
use scratchbar::xtui::text::Color;
use scratchbar::xtui::tui_center_symbol;

fn show<T: std::fmt::Debug>(value: &T) -> String {
    format!("{value:?}")
}

fn s(text: &str) -> String {
    text.to_owned()
}

const LEFT: InteractKind = InteractKind::Click(MouseButton::Left);
const RIGHT: InteractKind = InteractKind::Click(MouseButton::Right);
const AT: Location = Location { x: 500, y: 0 };

const fn size(width: u16, height: u16) -> Size {
    Size { width, height }
}

const SIZES: Sizes = Sizes { cell_size: size(100, 1), font_size: size(8, 16) };

#[test]
fn bar_tags_are_read_back() {
    let targets = [
        (BarInteractTarget::Nothing, postcard::to_stdvec(&0u32)),
        (BarInteractTarget::HyprWorkspace(WorkspaceId::from("3")), postcard::to_stdvec(&(1u32, "3"))),
        (BarInteractTarget::Time, postcard::to_stdvec(&2u32)),
        (BarInteractTarget::Energy, postcard::to_stdvec(&3u32)),
        (BarInteractTarget::Ppd, postcard::to_stdvec(&4u32)),
        (BarInteractTarget::Audio(PulseDeviceKind::Sink), postcard::to_stdvec(&(5u32, 0u32))),
        (BarInteractTarget::Audio(PulseDeviceKind::Source), postcard::to_stdvec(&(5u32, 1u32))),
        (BarInteractTarget::Tray(s("app")), postcard::to_stdvec(&(6u32, "app"))),
    ];
    for (target, bytes) in targets {
        let tag = target.serialize_tag();
        assert_eq!(*tag.bytes, bytes.unwrap());
        let read = BarInteractTarget::deserialize_tag(&tag).unwrap();
        assert_eq!(show(&read), show(&target));
    }
    for bytes in [vec![], vec![7], vec![1], vec![1, 9], vec![5], vec![5, 2], vec![6, 1, 0xff]] {
        assert!(BarInteractTarget::deserialize_tag(&CustomId::from_bytes(bytes)).is_none());
    }
}

#[test]
fn bar_events_name_their_target() {
    let tag = BarInteractTarget::Ppd.serialize_tag();
    let BarEvent::Interact(it) = bar_event(AT, LEFT, &Some(tag)).unwrap();
    assert!(matches!(it.target, BarInteractTarget::Ppd));
    assert_eq!((it.location, it.kind), (AT, LEFT));
    let BarEvent::Interact(it) = bar_event(AT, LEFT, &None).unwrap();
    assert!(matches!(it.target, BarInteractTarget::Nothing));
    assert!(bar_event(AT, LEFT, &Some(CustomId::from_bytes(vec![]))).is_none());
}

fn workspace(id: &str, monitor: Option<&str>, is_active: bool) -> BasicWorkspace {
    BasicWorkspace { id: WorkspaceId::from(id), name: s(id), monitor: monitor.map(s), is_active }
}

fn gap(len: u16) -> StackItem {
    StackItem::spacing(len)
}

fn reacting(elem: Elem, target: BarInteractTarget) -> StackItem {
    StackItem::auto(elem.interactive(target.serialize_tag()))
}

fn device(symbol: Elem, text: &str, kind: PulseDeviceKind) -> String {
    let parts = vec![StackItem::auto(symbol), StackItem::auto(Elem::plain(text))];
    show(&reacting(Elem::stack(Axis::X, parts), BarInteractTarget::Audio(kind)))
}

#[test]
fn bar_of_which_nothing_is_known() {
    let shown = show(&to_tui(&BarState::default(), &s("A")));
    let symbol = tui_center_symbol("\u{f130}", 2);
    assert!(shown.contains(&device(symbol, "  0%", PulseDeviceKind::Source)));
    assert!(!shown.contains("Image"));
    assert_eq!(shown.matches("Interactive").count(), 2);
}

fn icon(pixels: Vec<u8>) -> StatusNotifierItem {
    StatusNotifierItem {
        icon_pixmap: Some(vec![
            IconPixmap { width: 1, height: 1, pixels },
            IconPixmap { width: 9, height: 9, pixels: vec![] },
        ]),
        tool_tip: Some(Tooltip { title: s("title"), description: s("text") }),
    }
}

#[test]
fn bar_shows_all_its_parts() {
    let mut state = BarState::default();
    state.apply_update(BarUpdate::Desktop(BasicDesktopState {
        workspaces: vec![
            workspace("1", Some("A"), true),
            workspace("2", Some("B"), true),
            workspace("3", None, false),
        ],
    }));
    state.apply_update(BarUpdate::SysTray(Arc::new(vec![(s("app"), icon(vec![4, 1, 2, 3]))])));
    state.apply_update(BarUpdate::Energy(EnergyState {
        should_show: true,
        percentage: 50,
        rate: s("1.0"),
        bstate: BatteryState::Discharging,
    }));
    state.apply_update(BarUpdate::Ppd(s("balanced")));
    state.apply_update(BarUpdate::Time(s("12:00")));
    let shown = show(&to_tui(&state, &s("A")));
    let green = Elem::text("1", Style::colored(Color::Green));
    let first = reacting(green, BarInteractTarget::HyprWorkspace(WorkspaceId::from("1")));
    assert!(shown.contains(&show(&first)));
    let energy = reacting(Elem::plain(" 50% -1.0W "), BarInteractTarget::Energy);
    assert!(shown.contains(&show(&energy)));
    let profile = reacting(Elem::plain("\u{f24e} "), BarInteractTarget::Ppd);
    assert!(shown.contains(&show(&profile)));
    let time = reacting(Elem::plain("12:00"), BarInteractTarget::Time);
    assert!(shown.contains(&show(&time)));
    let img = image::RgbaImage::from_vec(1, 1, vec![1, 2, 3, 4]).unwrap();
    let mut file = Vec::new();
    img.write_with_encoder(image::codecs::png::PngEncoder::new(&mut file)).unwrap();
    assert!(shown.contains(&show(&icon_elem(file, &s("app")))));
    assert_eq!(shown.matches("Image").count(), 1);
    // Workspaces of other monitors make no difference.
    state.apply_update(BarUpdate::Desktop(BasicDesktopState {
        workspaces: vec![workspace("1", Some("A"), true)],
    }));
    assert_eq!(show(&to_tui(&state, &s("A"))), shown);
}

#[test]
fn updates_can_come_in_any_order() {
    let (mut one, mut two) = (BarState::default(), BarState::default());
    one.apply_update(BarUpdate::Time(s("t")));
    one.apply_update(BarUpdate::Ppd(s("p")));
    two.apply_update(BarUpdate::Time(s("earlier")));
    two.apply_update(BarUpdate::Ppd(s("p")));
    two.apply_update(BarUpdate::Time(s("t")));
    assert_eq!(show(&one), show(&two));
}

#[test]
fn bar_panel_draws_and_tells() {
    let mut panel = BarPanel::new(s("A"), SIZES);
    let unknown = to_tui(&BarState::default(), &s("A"));
    assert_eq!(show(&panel.tui), show(&unknown));
    let larger = Sizes { cell_size: size(200, 1), ..SIZES };
    assert!(matches!(panel.step(BarInc::Sizes(larger)), BarAct::Render(it) if it == size(200, 1)));
    let state = BarState { time: s("now"), ..BarState::default() };
    let expected = to_tui(&state, &s("A"));
    assert!(matches!(panel.step(BarInc::Bar(Arc::new(state))), BarAct::Render(_)));
    assert_eq!(show(&panel.tui), show(&expected));
    let touched = BarInc::Interact { location: AT, kind: LEFT, tag: None };
    assert!(matches!(panel.step(touched), BarAct::Tell { location: AT, tag: None, .. }));
    assert!(matches!(panel.step(BarInc::Other), BarAct::Nothing));
}

fn opened(text: &str) -> Option<Opened> {
    Some(Opened { tui: Elem::plain(text), size: size(10, 3) })
}

fn hover(tooltip: Option<Opened>) -> Upd {
    Upd::Mouse(TermKind::Bar, MouseResult::HoverTooltip { pix_location: AT, tooltip })
}

fn click(reaction: Option<Opened>, tooltip: Option<Opened>) -> Upd {
    let res = MouseResult::Interact { pix_location: AT, reaction, tooltip };
    Upd::Mouse(TermKind::Bar, res)
}

fn beside(res: MouseResult) -> Upd {
    Upd::Mouse(TermKind::Bar, res)
}

fn menu_of(panels: &MonitorPanels) -> Option<(MenuKind, String)> {
    panels.show_menu.as_ref().map(|menu| (menu.kind, show(&menu.tui)))
}

fn text(text: &str) -> String {
    show(&Elem::plain(text))
}

#[test]
fn tooltips_open_under_the_mouse() {
    let mut panels = MonitorPanels::new(1000, SIZES, SIZES);
    let acts = panels.step(hover(opened("tip")));
    let expected = vec![
        PanelAct::PlaceMenu(MenuPlacement { left: 444, right: 444, lines: 4 }),
        PanelAct::RenderMenu {
            area: Area { x: 2, y: 0, size: size(10, 3) },
            font_size: size(8, 16),
        },
        PanelAct::SetMenuVisible(true),
    ];
    assert_eq!(show(&acts), show(&expected));
    assert_eq!(menu_of(&panels), Some((MenuKind::Tooltip, text("tip"))));
    let acts = panels.step(beside(MouseResult::HoverEmpty));
    assert!(menu_of(&panels).is_none());
    let area = Area { x: 0, y: 0, size: size(100, 1) };
    let expected = vec![
        PanelAct::SetMenuVisible(false),
        PanelAct::ResetHover { render: true, area, font_size: size(8, 16) },
    ];
    assert_eq!(show(&acts), show(&expected));
}

#[test]
fn context_menus_stay_while_hovering() {
    let mut panels = MonitorPanels::new(1000, SIZES, SIZES);
    let _ = panels.step(click(opened("context"), opened("tip")));
    assert_eq!(menu_of(&panels), Some((MenuKind::Context, text("context"))));
    let _ = panels.step(hover(opened("tip")));
    let _ = panels.step(beside(MouseResult::HoverEmpty));
    let _ = panels.step(beside(MouseResult::HoverChanged));
    assert_eq!(menu_of(&panels), Some((MenuKind::Context, text("context"))));
    let _ = panels.step(click(None, opened("tip")));
    assert_eq!(menu_of(&panels), Some((MenuKind::Context, text("tip"))));
}

#[test]
fn click_beside_closes_the_menu() {
    let mut panels = MonitorPanels::new(1000, SIZES, SIZES);
    let _ = panels.step(click(opened("context"), None));
    let acts = panels.step(beside(MouseResult::InteractEmpty));
    assert!(menu_of(&panels).is_none());
    assert!(matches!(acts[0], PanelAct::SetMenuVisible(false)));
    let _ = panels.step(click(opened("context"), None));
    let _ = panels.step(click(None, None));
    assert!(menu_of(&panels).is_none());
    let _ = panels.step(click(opened("context"), None));
    let inside = Upd::Mouse(TermKind::Menu, MouseResult::InteractEmpty);
    assert!(panels.step(inside).is_empty());
    assert!(menu_of(&panels).is_some());
    let acts = panels.step(Upd::MenuWatcherHide);
    assert!(menu_of(&panels).is_none());
    assert!(matches!(acts[..], [PanelAct::ResetHover { render: false, .. }]));
}

#[test]
fn panels_are_drawn_anew() {
    let mut panels = MonitorPanels::new(1000, SIZES, SIZES);
    let acts = panels.step(Upd::BarTui(Elem::plain("bar")));
    assert!(matches!(acts[..], [PanelAct::RenderBar { .. }]));
    let acts = panels.step(Upd::Sizes(TermKind::Bar, SIZES));
    assert!(matches!(acts[..], [PanelAct::Reload]));
    assert!(panels.step(Upd::Sizes(TermKind::Menu, SIZES)).is_empty());
    assert!(panels.step(Upd::Other).is_empty());
    assert!(panels.step(beside(MouseResult::Ignore)).is_empty());
}

#[test]
fn monitors_without_a_bar_of_their_own() {
    let mut state = BarTuiState::default();
    assert_eq!(show(&state.tui_for(&s("A"))), show(&Elem::empty()));
    state.by_monitor.insert(s("A"), Elem::plain("a"));
    state.fallback = Elem::plain("all");
    assert_eq!(show(&state.tui_for(&s("A"))), text("a"));
    assert_eq!(show(&state.tui_for(&s("B"))), text("all"));
}

fn bar(parts: Vec<StackItem>, right: Vec<StackItem>) -> String {
    let mut items = vec![gap(1)];
    items.extend(parts);
    items.push(StackItem::fill(1, Elem::empty()));
    items.extend(right);
    items.push(gap(1));
    show(&Elem::stack(Axis::X, items))
}

#[test]
fn hidden_modules_take_no_room() {
    let mut own = Assoc::new();
    own.insert(s("A"), Elem::plain("own"));
    let tui = BarTui {
        left: vec![BarTuiElem::Hide, BarTuiElem::Shared(Elem::plain("l")), BarTuiElem::Hide],
        right: vec![BarTuiElem::ByMonitor(own)],
    };
    let auto = |text: &str| StackItem::auto(Elem::plain(text));
    assert_eq!(show(&tui.to_tui(&s("A"))), bar(vec![auto("l")], vec![auto("own")]));
    assert_eq!(show(&tui.to_tui(&s("B"))), bar(vec![auto("l")], vec![]));
}

#[test]
fn modules_are_loaded_and_ended() {
    let mut modules = BarModules::new();
    modules.load(vec![s("a"), s("b")], vec![s("a")], vec![s("b"), s("missing")]);
    let unknown = modules.handle_act(&s("x"), ModuleAct::HideModule);
    assert!(matches!(unknown, ActOutcome::UnknownModule));
    let item = Elem::plain("item");
    let act = FixedTuiModule {}.render(&item);
    match modules.handle_act(&s("b"), act) {
        ActOutcome::Render(tui) => {
            let item = StackItem::auto(Elem::plain("item"));
            let unseen = StackItem::auto(Elem::empty());
            assert_eq!(show(&tui.to_tui(&s("A"))), bar(vec![unseen], vec![item]));
        }
        other => panic!("{other:?}"),
    }
    // A module that is loaded again goes on to show what it showed.
    modules.load(vec![s("b"), s("c")], vec![s("c")], vec![s("b")]);
    assert!(matches!(modules.modules.get(&s("b")), Some(BarTuiElem::Shared(_))));
    assert!(matches!(modules.modules.get(&s("c")), Some(BarTuiElem::Shared(_))));
    assert!(modules.modules.get(&s("a")).is_none());
    assert!(matches!(modules.handle_act(&s("b"), ModuleAct::HideModule), ActOutcome::Nothing));
    assert!(matches!(modules.modules.get(&s("b")), Some(BarTuiElem::Hide)));
    modules.retain(&vec![s("b")]);
    assert!(modules.modules.get(&s("b")).is_none());
    assert!(modules.modules.get(&s("c")).is_some());
}

#[test]
fn bar_monitor_draws_and_tells() {
    let mut monitor = BarMonitor { monitor: s("A"), sizes: SIZES };
    let tui = BarTui { left: vec![], right: vec![] };
    match monitor.step(BarUpd::BarTui(tui)) {
        BarMonitorAct::Render(elem, over) => {
            assert_eq!(show(&elem), bar(vec![], vec![]));
            assert_eq!(over, size(100, 1));
        }
        other => panic!("{other:?}"),
    }
    let tag = CustomId::from_bytes(vec![1]);
    let touched = BarUpd::Interact { location: AT, kind: LEFT, tag: Some(tag.clone()) };
    match monitor.step(touched) {
        BarMonitorAct::Tell(ModuleUpd::Interact(it)) => {
            assert_eq!((it.location, it.kind, it.target.monitor.as_str()), (AT, LEFT, "A"));
            assert!(it.target.tag.same(&tag));
        }
        other => panic!("{other:?}"),
    }
    let beside = BarUpd::Interact { location: AT, kind: LEFT, tag: None };
    assert!(matches!(monitor.step(beside), BarMonitorAct::Nothing));
    assert!(matches!(monitor.step(BarUpd::Sizes(SIZES)), BarMonitorAct::Reload));
    assert!(matches!(monitor.step(BarUpd::Other), BarMonitorAct::Nothing));
}

#[test]
fn sound_module_reacts() {
    let module = Pulse {};
    let tag = BarInteractTarget::Audio(PulseDeviceKind::Sink).serialize_tag();
    let update = PulseUpdate { kind: PulseUpdateKind::ToggleMute, target: PulseDeviceKind::Sink };
    assert_eq!(module.react(&tag, LEFT), Some(update));
    assert_eq!(module.react(&tag, InteractKind::Hover), None);
    assert_eq!(module.react(&BarInteractTarget::Time.serialize_tag(), LEFT), None);
    let mut state = PulseState::default();
    state.source.muted = true;
    state.source.percent = 30;
    let shown = show(&module.render(&state));
    let muted = Elem::plain("\u{f131} ");
    assert!(shown.contains(&device(muted, " 30%", PulseDeviceKind::Source)));
}

fn menu_ext(path: Option<&str>) -> TrayMenuExt {
    TrayMenuExt {
        id: 1,
        menu_path: path.map(s),
        submenus: vec![MenuItem {
            id: 3,
            menu_type: MenuType::Standard,
            label: Some(s("quit")),
            visible: true,
            icon_data: None,
            submenu: vec![],
        }],
    }
}

#[test]
fn tray_module_opens_menus() {
    let mut state = TrayState::new();
    state.items.insert(s("app"), icon(vec![4, 1, 2, 3]));
    state.menus.insert(s("app"), menu_ext(Some("/menu")));
    let target = BarInteractTarget::Tray(s("app"));
    let picture =
        ImageData::Rgba { width: 1, height: 1, pixels: Arc::new(vec![1, 2, 3, 4]) };
    let expected = Elem::stack(
        Axis::X,
        vec![reacting(Elem::image(picture, Axis::Y, 1), target), gap(1)],
    );
    assert_eq!(show(&state.render()), show(&expected));
    let tag = BarInteractTarget::Tray(s("app")).serialize_tag();
    let react = |tag: &CustomId, kind| state.react(tag, kind, AT, s("A"));
    match react(&tag, InteractKind::Hover) {
        TrayReaction::OpenMenu(open) => {
            assert_eq!(open.menu_kind, prelude::MenuKind::Tooltip);
            assert!(open.menu_kind.close_on_unfocus());
            let tip = Tooltip { title: s("title"), description: s("text") };
            assert_eq!(show(&open.tui), show(&tooltip_to_tui(&tip)));
            assert_eq!((open.monitor.as_str(), open.pos), ("A", AT));
        }
        other => panic!("{other:?}"),
    }
    match react(&tag, RIGHT) {
        TrayReaction::OpenMenu(open) => {
            assert!(!open.menu_kind.close_on_unfocus());
            let menu = menu_ext(Some("/menu"));
            let expected = context_to_tui(&s("app"), &menu, IconMode::Picture);
            assert_eq!(show(&open.tui), show(&expected));
        }
        other => panic!("{other:?}"),
    }
    let entry = MenuInteractTarget::TrayMenu(TrayMenuInteract {
        addr: s("app"),
        menu_path: s("/menu"),
        id: 3,
    });
    match react(&entry.serialize_tag(), LEFT) {
        TrayReaction::Activate(it) => assert_eq!((it.id, it.menu_path.as_str()), (3, "/menu")),
        other => panic!("{other:?}"),
    }
    let elsewhere = BarInteractTarget::Time.serialize_tag();
    assert!(matches!(react(&elsewhere, RIGHT), TrayReaction::Nothing));
    let gone = BarInteractTarget::Tray(s("gone")).serialize_tag();
    assert!(matches!(react(&gone, RIGHT), TrayReaction::Nothing));
    assert!(matches!(react(&CustomId::from_bytes(vec![]), RIGHT), TrayReaction::Nothing));
}

#[test]
fn paths_of_menus_are_remembered() {
    let mut menus = Assoc::new();
    menus.insert(s("app"), menu_ext(None));
    menus.insert(s("plain"), menu_ext(None));
    let mut paths = Assoc::new();
    paths.insert(s("app"), s("/menu"));
    paths.insert(s("gone"), s("/old"));
    let menus = apply_menu_paths(menus, &mut paths);
    assert_eq!(menus.get(&s("app")).unwrap().menu_path, Some(s("/menu")));
    assert_eq!(menus.get(&s("plain")).unwrap().menu_path, None);
    assert!(paths.contains(&s("app")) && !paths.contains(&s("gone")));
}
