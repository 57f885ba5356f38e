use scratchbar::bar_states::{HostState, Notice};
use scratchbar::exit_code::{child_code, preferred_code, signal_code, stop_code};
use scratchbar::floats::F64;
use scratchbar::host::{
    BarSelect, BarUpdate, HostEvent, HostUpdate, InteractEvent, OpenMenu, OpenMenuOpts, SetBarTui,
    SetBarTuiOpts, TermEvent, TermInfo, TermKind,
};
use scratchbar::monitor_inst::{
    after_run, half_pix_width, menu_init_updates, mk_bar_term_args, mk_menu_term_args, place_menu,
    place_update, set_vis_update, startup, term_log_name, AfterRun, Measured, MenuPlacement,
    MonitorAct, MonitorMain, MouseEventRes, StartEvent, Startup, TaskEnd, Upd,
};
use scratchbar::monitors::{MonitorData, MonitorMode, State};
use scratchbar::tui::{
    Area, CustomId, Elem, InteractKind, Location, MouseButton, Size, Sizes,
};

fn show<T: std::fmt::Debug>(value: &T) -> String {
    format!("{value:?}")
}

fn s(text: &str) -> String {
    text.to_owned()
}

fn set(text: &str) -> SetBarTui {
    SetBarTui { tui: Elem::plain(text), options: SetBarTuiOpts {} }
}

fn on(name: &str) -> BarSelect {
    BarSelect::OnMonitor { monitor_name: s(name) }
}

fn shown(state: &HostState, name: &str) -> (String, bool) {
    let it = state.bars.state_of(&s(name));
    (show(&it.tui), it.hidden)
}

fn plain(text: &str) -> String {
    show(&Elem::plain(text))
}

#[test]
fn setting_all_bars_reaches_every_monitor() {
    let mut host = HostState::new();
    assert_eq!(shown(&host, "A"), (show(&Elem::empty()), false));
    let _ = host.handle_update(HostUpdate::UpdateBars(on("A"), set("own").into()));
    let notice = host.handle_update(HostUpdate::UpdateBars(BarSelect::All, set("all").into()));
    assert!(matches!(notice, Notice::AllBars));
    assert_eq!(shown(&host, "A").0, plain("all"));
    assert_eq!(shown(&host, "never seen").0, plain("all"));
}

#[test]
fn setting_one_bar_leaves_the_others() {
    let mut host = HostState::new();
    let _ = host.handle_update(HostUpdate::UpdateBars(BarSelect::All, set("all").into()));
    let notice = host.handle_update(HostUpdate::UpdateBars(on("A"), set("own").into()));
    assert!(matches!(notice, Notice::Bar(name) if name == "A"));
    assert_eq!(shown(&host, "A").0, plain("own"));
    assert_eq!(shown(&host, "B").0, plain("all"));
}

#[test]
fn bars_and_menus_are_apart() {
    let mut host = HostState::new();
    let _ = host.handle_update(HostUpdate::OpenMenu(open("A", 1, "menu")));
    let _ = host.handle_update(HostUpdate::UpdateBars(on("A"), set("own").into()));
    let _ = host.handle_update(HostUpdate::UpdateBars(BarSelect::All, BarUpdate::Hide));
    assert_eq!(show(&host.open_menu.as_ref().unwrap().tui), plain("menu"));
    assert_eq!(shown(&host, "A"), (plain("own"), true));
    let _ = host.handle_update(HostUpdate::CloseMenu);
    assert_eq!(shown(&host, "A"), (plain("own"), true));
}

#[test]
fn default_reaches_those_that_follow() {
    let mut host = HostState::new();
    let _ = host.handle_update(HostUpdate::UpdateBars(on("A"), set("own").into()));
    let _ = host.handle_update(HostUpdate::UpdateBars(on("B"), BarUpdate::Hide));
    let notice = host.handle_update(HostUpdate::SetDefaultTui(set("default")));
    assert!(matches!(notice, Notice::Followers));
    assert_eq!(shown(&host, "A").0, plain("own"));
    assert_eq!(shown(&host, "B"), (plain("default"), true));
    assert_eq!(shown(&host, "C"), (plain("default"), false));
}

#[test]
fn hiding_all_and_showing_one() {
    let mut host = HostState::new();
    let _ = host.handle_update(HostUpdate::UpdateBars(BarSelect::All, BarUpdate::Hide));
    let _ = host.handle_update(HostUpdate::UpdateBars(on("A"), BarUpdate::Show));
    assert!(!shown(&host, "A").1);
    assert!(shown(&host, "B").1);
    let _ = host.handle_update(HostUpdate::UpdateBars(BarSelect::All, BarUpdate::Hide));
    assert!(shown(&host, "A").1);
}

fn open(monitor: &str, anchor: u8, text: &str) -> OpenMenu {
    OpenMenu {
        tui: Elem::plain(text),
        monitor: s(monitor),
        bar_anchor: CustomId::from_bytes(vec![anchor]),
        opts: OpenMenuOpts {},
    }
}

#[test]
fn menus_are_opened_and_closed() {
    let mut host = HostState::new();
    let notice = host.handle_update(HostUpdate::OpenMenu(open("A", 1, "menu")));
    assert!(matches!(notice, Notice::Menus));
    assert_eq!(host.open_menu.as_ref().unwrap().monitor, "A");
    let _ = host.handle_update(HostUpdate::CloseMenu);
    assert!(host.open_menu.is_none());
}

fn output(name: &str, width: u32) -> MonitorData {
    MonitorData {
        name: s(name),
        scale: F64 { bits: 1f64.to_bits() },
        modes: vec![MonitorMode { width, height: 1, current: true }],
        enabled: true,
    }
}

#[test]
fn monitors_come_and_go_with_what_was_set_for_them() {
    let mut host = HostState::new();
    let mut monitors = State::new();
    let event = monitors.refresh(vec![output("A", 1), output("B", 1)]).unwrap();
    let (stopped, started) = host.bars.apply_monitors(&event);
    assert!(stopped.is_empty());
    assert_eq!(started.len(), 2);
    let _ = host.handle_update(HostUpdate::UpdateBars(on("A"), set("a").into()));
    let _ = host.handle_update(HostUpdate::UpdateBars(on("B"), set("b").into()));
    let event = monitors.refresh(vec![output("A", 2)]).unwrap();
    let (stopped, started) = host.bars.apply_monitors(&event);
    assert_eq!(stopped, vec!["B"]);
    assert_eq!(started[0].name, "A");
    assert_eq!(shown(&host, "A").0, plain("a"));
    assert_eq!(shown(&host, "B").0, show(&Elem::empty()));
}

const fn size(width: u16, height: u16) -> Size {
    Size { width, height }
}

#[test]
fn menu_in_the_middle_is_centered() {
    // Ten cells and the padding, eight pixels each: 112 pixels.
    let placed = place_menu(500, size(10, 3), 8, 1000, false);
    assert_eq!(placed, MenuPlacement { left: 444, right: 444, lines: 3 });
    assert_eq!(half_pix_width(10, 8), 56);
    assert_eq!(half_pix_width(1, 1), 3);
}

#[test]
fn menu_at_an_edge_keeps_its_width() {
    assert_eq!(
        place_menu(0, size(10, 3), 8, 1000, true),
        MenuPlacement { left: 0, right: 888, lines: 4 }
    );
    assert_eq!(
        place_menu(5000, size(10, 3), 8, 1000, false),
        MenuPlacement { left: 888, right: 0, lines: 3 }
    );
}

#[test]
fn menu_wider_than_the_screen_gets_all_of_it() {
    let placed = place_menu(10, size(1000, 1), 8, 100, false);
    assert_eq!(placed, MenuPlacement { left: 0, right: 0, lines: 1 });
    let tall = place_menu(10, size(1, u16::MAX), 8, 100, true);
    assert_eq!(tall.lines, u16::MAX);
}

#[test]
fn remote_control_commands() {
    assert_eq!(set_vis_update(true), vec!["resize-os-window", "--action=show"]);
    assert_eq!(set_vis_update(false), vec!["resize-os-window", "--action=hide"]);
    assert_eq!(
        place_update(1, 22, 3),
        vec![
            "resize-os-window",
            "--incremental",
            "--action=os-panel",
            "margin-left=1",
            "margin-right=22",
            "lines=3",
        ]
    );
    assert_eq!(menu_init_updates(false).len(), 1);
    assert_eq!(menu_init_updates(true)[1], vec!["set-spacing", "padding-top=1", "padding-bottom=1"]);
}

#[test]
fn terminals_are_started_on_their_monitor() {
    let bar = mk_bar_term_args("DP-1");
    assert_eq!(bar.len(), 10);
    assert_eq!(bar[1], "--output-name=DP-1");
    assert_eq!(bar[8], "--edge=top");
    let menu = mk_menu_term_args("DP-1");
    assert_eq!(menu.len(), 16);
    assert_eq!(menu[14], "--layer=overlay");
    assert_eq!(term_log_name(TermKind::Bar, "DP-1"), "BAR@DP-1");
    assert_eq!(term_log_name(TermKind::Menu, "DP-1"), "MENU@DP-1");
}

const SIZES: Sizes = Sizes { cell_size: size(100, 1), font_size: size(8, 16) };

fn monitor() -> MonitorMain {
    MonitorMain::new(s("A"), 1000, SIZES, SIZES)
}

fn measured(anchor: Option<(u32, u32)>, width: u16, height: u16) -> Measured {
    Measured {
        anchor: anchor.map(|(x, y)| Location { x, y }),
        min_size: size(width, height),
    }
}

#[test]
fn menu_opens_is_moved_and_closes() {
    let mut main = monitor();
    let acts = main.step(Upd::OpenMenu(Some(open("A", 1, "m")), measured(Some((500, 0)), 10, 3)));
    let expected = vec![
        MonitorAct::ResetMenuLayout,
        MonitorAct::PlaceMenu(MenuPlacement { left: 444, right: 444, lines: 3 }),
        MonitorAct::RenderMenu {
            area: Area { x: 2, y: 0, size: size(10, 3) },
            font_size: size(8, 16),
        },
        MonitorAct::SetMenuVisible(true),
    ];
    assert_eq!(show(&acts), show(&expected));
    // The same anchor: the menu stays where it is.
    let _ = main.step(Upd::OpenMenu(Some(open("A", 1, "n")), measured(Some((9, 9)), 10, 3)));
    assert_eq!(main.show_menu.as_ref().unwrap().pix_location, Location { x: 500, y: 0 });
    // Another anchor, which is not in the bar.
    let _ = main.step(Upd::OpenMenu(Some(open("A", 2, "o")), measured(None, 10, 3)));
    assert_eq!(main.show_menu.as_ref().unwrap().pix_location, Location { x: 0, y: 0 });
    // A menu elsewhere closes this one.
    let acts = main.step(Upd::OpenMenu(Some(open("B", 2, "o")), measured(None, 10, 3)));
    let expected = vec![MonitorAct::ResetMenuLayout, MonitorAct::SetMenuVisible(false)];
    assert_eq!(show(&acts), show(&expected));
    assert!(main.step(Upd::OpenMenu(None, measured(None, 1, 1))).is_empty());
}

#[test]
fn hidden_bar_is_not_drawn() {
    let mut main = monitor();
    let acts = main.step(Upd::BarHidden(true));
    assert_eq!(show(&acts), show(&vec![MonitorAct::SetBarVisible(false)]));
    assert!(main.step(Upd::BarTui(Elem::plain("x"))).is_empty());
    assert!(main.step(Upd::BarHidden(true)).is_empty());
    let acts = main.step(Upd::BarHidden(false));
    let expected = vec![
        MonitorAct::RenderBar {
            area: Area { x: 0, y: 0, size: size(100, 1) },
            font_size: size(8, 16),
        },
        MonitorAct::SetBarVisible(true),
    ];
    assert_eq!(show(&acts), show(&expected));
}

fn told(kind: TermKind, event: TermEvent) -> MonitorAct {
    MonitorAct::Tell(HostEvent::Term(TermInfo::new(s("A"), kind), event))
}

#[test]
fn controller_hears_of_the_mouse() {
    let mut main = monitor();
    let mouse = |kind, changed, rerender| {
        Upd::Mouse(
            TermKind::Bar,
            MouseEventRes::Interact { kind, tag: None, changed, rerender },
        )
    };
    assert!(main.step(mouse(InteractKind::Hover, false, false)).is_empty());
    let hover = told(
        TermKind::Bar,
        TermEvent::Interact(InteractEvent::new(InteractKind::Hover, None)),
    );
    assert_eq!(show(&main.step(mouse(InteractKind::Hover, true, false))), show(&vec![hover]));
    let click = InteractKind::Click(MouseButton::Left);
    assert_eq!(main.step(mouse(click, false, true)).len(), 2);
    let leave = Upd::Mouse(TermKind::Menu, MouseEventRes::MouseLeave { rerender: false });
    let expected = vec![told(TermKind::Menu, TermEvent::MouseLeave)];
    assert_eq!(show(&main.step(leave)), show(&expected));
}

#[test]
fn new_font_places_the_menu_anew() {
    let mut main = monitor();
    let _ = main.step(Upd::OpenMenu(Some(open("A", 1, "m")), measured(Some((500, 0)), 10, 3)));
    let larger = Sizes { cell_size: size(50, 1), font_size: size(8, 16) };
    assert!(main.step(Upd::Sizes(TermKind::Menu, larger)).is_empty());
    let font = Sizes { cell_size: size(50, 1), font_size: size(16, 32) };
    let acts = main.step(Upd::Sizes(TermKind::Menu, font));
    assert_eq!(acts.len(), 3);
    assert!(matches!(acts[0], MonitorAct::PlaceMenu(MenuPlacement { left: 388, right: 388, .. })));
    assert_eq!(main.step(Upd::Sizes(TermKind::Bar, font)).len(), 1);
    assert!(main.step(Upd::Other).is_empty());
}

#[test]
fn terminals_say_their_size_first() {
    assert_eq!(startup(StartEvent::Sizes(SIZES)), Startup::Ready(SIZES));
    assert_eq!(startup(StartEvent::Other), Startup::Waiting);
    assert_eq!(startup(StartEvent::Closed), Startup::Failed);
}

#[test]
fn failed_monitors_are_tried_again() {
    assert_eq!(after_run(TaskEnd::Stopped), AfterRun::Exit);
    assert_eq!(after_run(TaskEnd::Cancelled), AfterRun::Exit);
    assert_eq!(after_run(TaskEnd::Panicked), AfterRun::RetryAfterSecs(20));
    assert_eq!(after_run(TaskEnd::Failed), AfterRun::RetryAfterSecs(20));
}

#[test]
fn exit_codes() {
    assert_eq!(signal_code(15), 143);
    assert_eq!(signal_code(i32::MAX), (i32::MAX.wrapping_add(128)) as u8);
    assert_eq!(signal_code(-1), 127);
    assert_eq!(child_code(None), 1);
    assert_eq!(child_code(Some(None)), 0);
    assert_eq!(child_code(Some(Some(3))), 3);
    assert_eq!(child_code(Some(Some(-1))), 255);
    assert_eq!(preferred_code(4, 5), 4);
    assert_eq!(preferred_code(0, 5), 5);
    assert_eq!(preferred_code(0, 0), 0);
    assert_eq!((stop_code(true), stop_code(false)), (0, 1));
}
