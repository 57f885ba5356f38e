use scratchbar::api::{MenuKind, RegisterMenu, RegisterMenuOpts};
use scratchbar::assoc::Assoc;
use scratchbar::bar_states::HostState;
use scratchbar::control::hypr::{render_workspaces, switches};
use scratchbar::control::tray::{activates, mk_row, render_tray, tray_menu_to_tui, TrayEntry};
use scratchbar::control::{
    event_callback, handle_event, initial_bar, menu_request, refresh_menu, send_bar_tui, BarMenus,
    BarTuiElem, CurMenu,
};
use scratchbar::data::{BasicWorkspace, WorkspaceId};
use scratchbar::host::{HostEvent, HostUpdate, InteractEvent, TermEvent, TermInfo, TermKind};
use scratchbar::hypr::{
    comes_before, refresh_after, HyprEvent, HyprMonitor, HyprState, HyprWorkspace, Refresh,
};
use scratchbar::images::{icon_image, IconPixmap, RgbaImage};
use scratchbar::modules::hypr::render;
use scratchbar::tags::{mk_fresh_interact_tag, ByteOrder, InteractTagRegistry, TagCounter};
use scratchbar::tray::{
    context_to_tui, label_item, tray_menu_to_tui as plain_menu_to_tui, IconMode, MenuItem,
    MenuType, StatusNotifierItem, TrayMenuExt,
};
use scratchbar::tui::{
    Axis, CustomId, Elem, InteractKind, LineSet, MouseButton, StackItem, Style,
};
use scratchbar::xtui::text::Color;
use scratchbar::xtui::{rgba_img_fill_axis, BlockBorders, StackBuilder};

fn show<T: std::fmt::Debug>(value: &T) -> String {
    format!("{value:?}")
}

fn s(text: &str) -> String {
    text.to_owned()
}

fn counter(next: u64) -> TagCounter {
    TagCounter { next, order: ByteOrder::Big }
}

fn tag(n: u64) -> CustomId {
    CustomId::from_bytes(n.to_be_bytes().to_vec())
}

const LEFT: InteractKind = InteractKind::Click(MouseButton::Left);
const RIGHT: InteractKind = InteractKind::Click(MouseButton::Right);

#[test]
fn fresh_tags_are_numbers() {
    let mut big = counter(258);
    assert_eq!(*mk_fresh_interact_tag(&mut big).bytes, 258u64.to_be_bytes());
    assert_eq!(*mk_fresh_interact_tag(&mut big).bytes, 259u64.to_be_bytes());
    let mut little = TagCounter { next: u64::MAX, order: ByteOrder::Little };
    assert_eq!(*mk_fresh_interact_tag(&mut little).bytes, u64::MAX.to_le_bytes());
    assert_eq!(little.next, 0);
    little.next = 258;
    assert_eq!(*mk_fresh_interact_tag(&mut little).bytes, 258u64.to_le_bytes());
}

#[test]
fn registry_gives_each_key_its_own_tag() {
    let mut tags = counter(0);
    let mut registry: InteractTagRegistry<usize> = InteractTagRegistry::new();
    let (a, at_a) = registry.get_or_init(&mut tags, &s("a"), |tag| tag.bytes.len());
    let _ = mk_fresh_interact_tag(&mut tags);
    let (b, at_b) = registry.get_or_init(&mut tags, &s("b"), |_| 2);
    assert!(!a.same(&b));
    assert_eq!((at_a, at_b), (0, 1));
    let (again, at) = registry.get_or_init(&mut tags, &s("a"), |_| 3);
    assert!(again.same(&a));
    assert_eq!((at, tags.next), (0, 3));
    assert_eq!(registry.key_to_tag.get(&s("a")).unwrap().1, 8);
    assert_eq!(registry.key_to_tag.get(&s("b")).unwrap().1, 2);
}

#[test]
fn opacity_moves_behind_the_colors() {
    let icon = IconPixmap { width: 2, height: 1, pixels: vec![1, 2, 3, 4, 5, 6, 7, 8, 9] };
    let img = icon_image(&icon).unwrap();
    assert_eq!((img.width, img.height), (2, 1));
    assert_eq!(img.pixels, vec![2, 3, 4, 1, 6, 7, 8, 5, 9]);
    let short = IconPixmap { width: 2, height: 1, pixels: vec![0; 7] };
    assert!(icon_image(&short).is_none());
    let negative = IconPixmap { width: -1, height: 1, pixels: vec![0; 8] };
    assert!(icon_image(&negative).is_none());
    let nothing = IconPixmap { width: 0, height: 5, pixels: vec![] };
    assert!(icon_image(&nothing).unwrap().pixels.is_empty());
}

#[test]
fn four_moves_of_the_opacity_change_nothing() {
    let mut pixels: Vec<u8> = (0..16).collect();
    for _ in 0..4 {
        pixels = icon_image(&IconPixmap { width: 2, height: 2, pixels }).unwrap().pixels;
    }
    assert_eq!(pixels, (0..16).collect::<Vec<u8>>());
}

fn item(id: i32, label: Option<&str>, submenu: Vec<MenuItem>) -> MenuItem {
    MenuItem {
        id,
        menu_type: MenuType::Standard,
        label: label.map(s),
        visible: true,
        icon_data: None,
        submenu,
    }
}

fn separator() -> MenuItem {
    MenuItem { menu_type: MenuType::Separator, ..item(0, None, vec![]) }
}

fn png() -> (Vec<u8>, Vec<u8>) {
    let pixels = vec![10, 20, 30, 40, 50, 60, 70, 80];
    let img = image::RgbaImage::from_vec(2, 1, pixels.clone()).unwrap();
    let mut file = std::io::Cursor::new(Vec::new());
    img.write_to(&mut file, image::ImageFormat::Png).unwrap();
    (file.into_inner(), pixels)
}

#[test]
fn entries_of_a_menu_get_tags() {
    let items = vec![
        item(7, Some("open"), vec![item(8, Some("below"), vec![])]),
        separator(),
        item(9, None, vec![item(10, Some("lost"), vec![])]),
    ];
    let mut tags = counter(100);
    let mut activations = vec![];
    let elem = tray_menu_to_tui(
        0,
        &items,
        &mut tags,
        &s("app"),
        &Some(s("/menu")),
        &mut activations,
    );
    assert_eq!(tags.next, 102);
    assert_eq!(activations.len(), 2);
    assert_eq!((activations[0].id, activations[1].id), (7, 8));
    assert!(activations[1].tag.same(&tag(101)));
    assert_eq!(activations[0].menu_path, "/menu");
    assert_eq!(activations[0].addr, "app");
    let open = Elem::stack(
        Axis::Y,
        vec![
            StackItem::auto(mk_row(0, "open", None, tag(100))),
            StackItem::auto(Elem::stack(
                Axis::Y,
                vec![StackItem::auto(mk_row(1, "below", None, tag(101)))],
            )),
        ],
    );
    let line = Elem::block(
        BlockBorders { top: true, bottom: false, left: false, right: false },
        Color::DarkGrey,
        LineSet::Normal,
        None,
    );
    let expected = Elem::stack(Axis::Y, vec![StackItem::auto(open), StackItem::auto(line)]);
    assert_eq!(show(&elem), show(&expected));
}

#[test]
fn menu_without_a_path_takes_no_requests() {
    let items = vec![item(7, Some("open"), vec![item(8, Some("below"), vec![])])];
    let mut tags = counter(0);
    let mut activations = vec![];
    let _ = tray_menu_to_tui(0, &items, &mut tags, &s("app"), &None, &mut activations);
    assert!(activations.is_empty());
    assert_eq!(tags.next, 2);
    let plain = plain_menu_to_tui(0, &items, &s("app"), &None, IconMode::File);
    assert!(!show(&plain).contains("Interactive"));
    let reacting = plain_menu_to_tui(0, &items, &s("app"), &Some(s("/p")), IconMode::File);
    assert!(show(&reacting).contains("Interactive"));
    assert!(activates(LEFT) && !activates(RIGHT) && !activates(InteractKind::Hover));
}

#[test]
fn icons_of_entries_are_pictures() {
    let (file, pixels) = png();
    let mut with_icon = item(1, Some("x"), vec![]);
    with_icon.icon_data = Some(file.clone());
    let mut broken = item(2, Some("y"), vec![]);
    broken.icon_data = Some(vec![1, 2, 3]);
    let items = vec![with_icon, broken];
    let mut tags = counter(0);
    let elem = tray_menu_to_tui(0, &items, &mut tags, &s("app"), &None, &mut vec![]);
    let picture = RgbaImage { width: 2, height: 1, pixels: pixels.clone() };
    let expected = Elem::stack(
        Axis::Y,
        vec![
            StackItem::auto(mk_row(0, "x", Some(picture), tag(0))),
            StackItem::auto(mk_row(0, "y", None, tag(1))),
        ],
    );
    assert_eq!(show(&elem), show(&expected));
    let menu = TrayMenuExt { id: 1, menu_path: None, submenus: items };
    let as_file = show(&context_to_tui(&s("app"), &menu, IconMode::File));
    let as_picture = show(&context_to_tui(&s("app"), &menu, IconMode::Picture));
    assert!(as_file.contains("Png") && as_file.contains("[1, 2, 3]"));
    assert!(!as_picture.contains("Png") && !as_picture.contains("[1, 2, 3]"));
    assert!(as_picture.contains(&show(&pixels)));
}

#[test]
fn icon_stands_before_the_first_line() {
    let image = scratchbar::tui::ImageData::Png { data: std::sync::Arc::new(vec![1]) };
    let label = label_item("one\ntwo\nthree", Some(image.clone()));
    let upper = vec![
        StackItem::auto(Elem::image(image, Axis::Y, 1)),
        StackItem::spacing(1),
        StackItem::auto(Elem::plain("one")),
    ];
    let expected = StackItem::auto(Elem::stack(
        Axis::Y,
        vec![
            StackItem::length(1, Elem::stack(Axis::X, upper)),
            StackItem::auto(Elem::plain("two\nthree")),
        ],
    ));
    assert_eq!(show(&label), show(&expected));
    assert_eq!(show(&label_item("a\nb", None)), show(&StackItem::auto(Elem::plain("a\nb"))));
}

fn entry(addr: &str) -> TrayEntry {
    TrayEntry {
        addr: s(addr),
        item: StatusNotifierItem {
            icon_pixmap: Some(vec![IconPixmap { width: 1, height: 1, pixels: vec![4, 1, 2, 3] }]),
            tool_tip: Some(scratchbar::tray::Tooltip { title: s("t"), description: s("d") }),
        },
        menu: Some(TrayMenuExt {
            id: 1,
            menu_path: Some(s("/menu")),
            submenus: vec![item(3, Some("quit"), vec![])],
        }),
    }
}

#[test]
fn tray_is_drawn_with_menus() {
    let mut tags = counter(0);
    let mut registry = InteractTagRegistry::new();
    let first = render_tray(&vec![entry("app")], &mut registry, &mut tags);
    assert_eq!(first.menus.len(), 2);
    let hover = first.menus.iter().find(|it| it.menu_kind == MenuKind::Tooltip).unwrap();
    let context = first.menus.iter().find(|it| it.menu_kind == MenuKind::Context).unwrap();
    assert_eq!((hover.on_kind, context.on_kind), (InteractKind::Hover, RIGHT));
    assert!(hover.on_tag.same(&context.on_tag));
    assert_eq!(first.activations.len(), 1);
    assert_eq!(first.activations[0].id, 3);
    let icon = rgba_img_fill_axis(1, 1, &vec![1, 2, 3, 4], Axis::Y, 1);
    assert!(show(&first.bar).contains(&show(&icon)));
    // Another look: the application has kept its tag.
    let second = render_tray(&vec![entry("other"), entry("app")], &mut registry, &mut tags);
    assert!(second.menus.iter().any(|it| it.on_tag.same(&hover.on_tag)));
    assert_eq!(second.menus.len(), 4);
    assert!(show(&render_tray(&vec![], &mut registry, &mut tags).bar)
        .eq(&show(&Elem::stack(Axis::X, vec![]))));
}

fn workspace(id: &str, monitor: Option<&str>, is_active: bool) -> BasicWorkspace {
    BasicWorkspace {
        id: WorkspaceId::from(id),
        name: s(id),
        monitor: monitor.map(s),
        is_active,
    }
}

fn named(name: &str, fg: Color, tag: CustomId) -> Elem {
    let style = |underlined| Style { fg, bold: false, underlined };
    Elem::text(name, style(false)).interactive_hover(tag, Elem::text(name, style(true)))
}

#[test]
fn workspaces_are_drawn_on_their_monitor() {
    let mut tags = counter(0);
    let mut registry = InteractTagRegistry::new();
    let list = vec![
        workspace("1", Some("A"), true),
        workspace("2", None, false),
        workspace("3", Some("B"), false),
        workspace("4", Some("A"), false),
    ];
    let (shown, made) = render_workspaces(&list, &mut registry, &mut tags);
    let mut a = StackBuilder::new(Axis::X);
    a.push(named("1", Color::Green, tag(0)));
    a.spacing(1);
    a.push(named("4", Color::Unset, tag(2)));
    a.spacing(1);
    assert_eq!(show(shown.get(&s("A")).unwrap()), show(&a.build()));
    assert!(shown.get(&s("B")).is_some());
    assert_eq!(shown.entries.len(), 2);
    let switched: Vec<&str> = made.iter().map(|it| it.workspace.as_str()).collect();
    assert_eq!(switched, vec!["1", "3", "4"]);
    // The tag of a workspace is made once.
    let (shown, made) = render_workspaces(
        &vec![workspace("4", Some("A"), true)],
        &mut registry,
        &mut tags,
    );
    assert!(made.is_empty());
    assert!(show(shown.get(&s("A")).unwrap()).contains(&show(&named("4", Color::Green, tag(2)))));
    assert_eq!(tags.next, 3);
    assert!(switches(LEFT) && !switches(RIGHT));
}

fn hypr() -> HyprState {
    let mut state = HyprState::new();
    let ws = |id, name: &str, monitor_id| HyprWorkspace { id, name: s(name), monitor_id };
    state.workspaces = vec![ws(3, "c", Some(1)), ws(1, "b", Some(0)), ws(-2, "B", Some(9))];
    state.set_monitors(vec![
        HyprMonitor { id: 0, name: s("old"), active_workspace: 3 },
        HyprMonitor { id: 1, name: s("right"), active_workspace: 3 },
        HyprMonitor { id: 0, name: s("left"), active_workspace: 4 },
    ]);
    state
}

#[test]
fn desktop_is_sorted_by_name() {
    let mut state = hypr();
    let desktop = state.desktop();
    let names: Vec<&str> = desktop.workspaces.iter().map(|it| it.name.as_str()).collect();
    assert_eq!(names, vec!["B", "b", "c"]);
    assert_eq!(desktop.workspaces[0].id.as_str(), "-2");
    assert_eq!(desktop.workspaces[0].monitor, None);
    assert_eq!(desktop.workspaces[1].monitor, Some(s("left")));
    assert!(!desktop.workspaces[1].is_active);
    assert!(desktop.workspaces[2].is_active);
    // A monitor that is not reported again stays known.
    state.set_monitors(vec![HyprMonitor { id: 0, name: s("left"), active_workspace: 1 }]);
    let desktop = state.desktop();
    assert!(desktop.workspaces[1].is_active);
    assert_eq!(desktop.workspaces[2].monitor, Some(s("right")));
}

#[test]
fn texts_are_ordered_by_characters() {
    let words = ["", "10", "2", "B", "a", "ab", "b", "ä", "日"];
    for (i, a) in words.iter().enumerate() {
        for (j, b) in words.iter().enumerate() {
            assert_eq!(comes_before(&s(a), &s(b)), i <= j);
            assert_eq!(comes_before(&s(a), &s(b)), a <= b);
        }
    }
}

#[test]
fn events_of_the_compositor() {
    let both = Some(Refresh { workspaces: true, monitors: true });
    assert_eq!(refresh_after(HyprEvent::Reload), both);
    let monitors = Some(Refresh { workspaces: false, monitors: true });
    assert_eq!(refresh_after(HyprEvent::WorkspaceChanged), monitors);
    let workspaces = Some(Refresh { workspaces: true, monitors: false });
    assert_eq!(refresh_after(HyprEvent::WorkspaceMoved), workspaces);
    assert_eq!(refresh_after(HyprEvent::Other), None);
}

#[test]
fn workspace_ids_are_texts() {
    assert_eq!(WorkspaceId::from("7").as_str(), "7");
    assert_eq!(WorkspaceId::from(s("7")).as_str(), "7");
}

#[test]
fn module_draws_the_desktop() {
    let shown = render(&hypr().desktop());
    assert_eq!(shown.entries.len(), 2);
    assert!(show(shown.get(&s("left")).unwrap()).contains("\"b\""));
    assert!(show(shown.get(&s("right")).unwrap()).contains("Green"));
}

fn applied(elems: &Vec<BarTuiElem>) -> HostState {
    let mut host = HostState::new();
    for update in send_bar_tui(elems) {
        let _ = host.handle_update(update);
    }
    host
}

fn bar_of(host: &HostState, monitor: &str) -> String {
    show(&host.bars.state_of(&s(monitor)).tui)
}

fn stack(items: Vec<StackItem>) -> String {
    show(&Elem::stack(Axis::X, items))
}

#[test]
fn bars_show_what_the_modules_have() {
    let mut own = Assoc::new();
    own.insert(s("A"), Elem::plain("own"));
    let elems = vec![
        BarTuiElem::Spacing(2),
        BarTuiElem::ByMonitor(own),
        BarTuiElem::FillSpace(1),
        BarTuiElem::Hide,
        Elem::plain("shared").into(),
    ];
    let host = applied(&elems);
    let spacing = || StackItem::auto(Elem::spacing(Axis::X, 2));
    let fill = || StackItem::fill(1, Elem::empty());
    let shared = || StackItem::auto(Elem::plain("shared"));
    let own = StackItem::auto(Elem::plain("own"));
    assert_eq!(bar_of(&host, "A"), stack(vec![spacing(), own, fill(), shared()]));
    assert_eq!(bar_of(&host, "B"), stack(vec![spacing(), fill(), shared()]));
    assert_eq!(bar_of(&host, "C"), bar_of(&host, "B"));
}

#[test]
fn first_bar_is_empty() {
    let bar = initial_bar();
    assert_eq!(bar.len(), 14);
    assert_eq!(send_bar_tui(&bar).len(), 1);
    assert_eq!(send_bar_tui(&vec![]).len(), 1);
}

fn menu(on: u64, on_kind: InteractKind, text: &str, menu_kind: MenuKind) -> RegisterMenu {
    RegisterMenu {
        on_tag: tag(on),
        on_kind,
        tui: Elem::plain(text),
        menu_kind,
        options: RegisterMenuOpts {},
    }
}

fn menus() -> BarMenus {
    let mut menus = BarMenus::new();
    menus.register_menu(menu(1, InteractKind::Hover, "old tip", MenuKind::Tooltip));
    menus.register_menu(menu(1, InteractKind::Hover, "tip", MenuKind::Tooltip));
    menus.register_menu(menu(1, RIGHT, "context", MenuKind::Context));
    menus.register_menu(menu(2, InteractKind::Hover, "other", MenuKind::Tooltip));
    menus
}

#[test]
fn later_menus_replace_earlier_ones() {
    let menus = menus();
    let tip = menus.get(&tag(1), InteractKind::Hover).unwrap();
    assert_eq!(show(&tip.tui), show(&Elem::plain("tip")));
    assert!(menus.get(&tag(1), LEFT).is_none());
    assert!(menus.get(&tag(3), RIGHT).is_none());
}

fn event(kind: TermKind, interact: InteractKind, on: Option<u64>) -> HostEvent {
    HostEvent::Term(
        TermInfo::new(s("A"), kind),
        TermEvent::Interact(InteractEvent::new(interact, on.map(tag))),
    )
}

fn leave(kind: TermKind) -> HostEvent {
    HostEvent::Term(TermInfo::new(s("A"), kind), TermEvent::MouseLeave)
}

fn text_of(cur: &Option<CurMenu>) -> String {
    show(&cur.as_ref().unwrap().tui)
}

#[test]
fn hovering_leaves_context_menus_open() {
    let menus = menus();
    let mut cur = None;
    assert!(handle_event(&mut cur, event(TermKind::Bar, InteractKind::Hover, Some(1)), &menus));
    assert_eq!(text_of(&cur), show(&Elem::plain("tip")));
    assert!(handle_event(&mut cur, event(TermKind::Bar, RIGHT, Some(1)), &menus));
    assert_eq!(text_of(&cur), show(&Elem::plain("context")));
    for on in [None, Some(1), Some(2), Some(3)] {
        let hover = event(TermKind::Bar, InteractKind::Hover, on);
        assert!(!handle_event(&mut cur, hover, &menus));
        assert_eq!(text_of(&cur), show(&Elem::plain("context")));
    }
    let inside = event(TermKind::Menu, LEFT, Some(9));
    let _ = handle_event(&mut cur, inside, &menus);
    assert!(cur.is_some());
    assert!(handle_event(&mut cur, leave(TermKind::Menu), &menus));
    assert!(cur.is_none());
}

#[test]
fn tooltips_close_when_touched() {
    let menus = menus();
    let mut cur = None;
    let _ = handle_event(&mut cur, event(TermKind::Bar, InteractKind::Hover, Some(1)), &menus);
    assert!(handle_event(&mut cur, event(TermKind::Menu, InteractKind::Hover, Some(5)), &menus));
    assert!(cur.is_none());
    let _ = handle_event(&mut cur, event(TermKind::Bar, InteractKind::Hover, Some(1)), &menus);
    assert!(handle_event(&mut cur, event(TermKind::Bar, InteractKind::Hover, None), &menus));
    assert!(cur.is_none());
}

#[test]
fn open_menu_gets_new_content() {
    let menus = menus();
    let mut cur = None;
    let tip = |text| menu(1, InteractKind::Hover, text, MenuKind::Tooltip);
    assert!(!refresh_menu(&mut cur, &tip("new")));
    assert!(cur.is_none());
    let _ = handle_event(&mut cur, event(TermKind::Bar, InteractKind::Hover, Some(1)), &menus);
    assert!(!refresh_menu(&mut cur, &menu(1, RIGHT, "other", MenuKind::Context)));
    assert!(!refresh_menu(&mut cur, &menu(2, InteractKind::Hover, "other", MenuKind::Tooltip)));
    assert!(!refresh_menu(&mut cur, &menu(1, LEFT, "other", MenuKind::Tooltip)));
    assert_eq!(text_of(&cur), show(&Elem::plain("tip")));
    assert!(refresh_menu(&mut cur, &tip("new")));
    assert_eq!(text_of(&cur), show(&Elem::plain("new")));
}

#[test]
fn host_is_asked_for_menus() {
    let mut tags = counter(4);
    let mut cur = None;
    assert!(matches!(menu_request(&cur, &mut tags), HostUpdate::CloseMenu));
    let menus = menus();
    let _ = handle_event(&mut cur, event(TermKind::Bar, InteractKind::Hover, Some(1)), &menus);
    match menu_request(&cur, &mut tags) {
        HostUpdate::OpenMenu(open) => {
            assert_eq!(open.monitor, "A");
            assert!(open.bar_anchor.same(&tag(1)));
            assert_eq!(show(&open.tui), show(&Elem::plain("tip").interactive(tag(4))));
        }
        other => panic!("{other:?}"),
    }
    let _ = handle_event(&mut cur, event(TermKind::Bar, RIGHT, Some(1)), &menus);
    match menu_request(&cur, &mut tags) {
        HostUpdate::OpenMenu(open) => {
            assert_eq!(show(&open.tui), show(&Elem::plain("context")));
        }
        other => panic!("{other:?}"),
    }
}

#[test]
fn callbacks_go_by_tag() {
    let (on, kind) = event_callback(&event(TermKind::Menu, LEFT, Some(3))).unwrap();
    assert!(on.same(&tag(3)));
    assert_eq!(kind, LEFT);
    assert!(event_callback(&event(TermKind::Menu, LEFT, None)).is_none());
    assert!(event_callback(&leave(TermKind::Bar)).is_none());
}
