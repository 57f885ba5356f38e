//! The menus of the panels: which one is open, and where it is drawn.
use vstd::prelude::*;
use crate::monitor_inst::rest;
use crate::procs::PanelSet;
use crate::strs::texts;
use crate::tray::{
    context_to_tui, context_view, menu_height, tooltip_to_tui, tooltip_view, IconMode,
    MenuInteractTarget, Tooltip, TrayMenuExt,
};
use crate::tui::{CustomId, Elem, ElemView, InteractKind, Location, Size, Sizes};
use std::sync::Arc;

verus! {

/// What the user did with something.
#[derive(Debug)]
pub struct InteractGeneric<T> {
    pub location: Location,
    pub kind: InteractKind,
    pub target: T,
}

#[derive(Debug)]
pub enum MenuEvent {
    Interact(InteractGeneric<MenuInteractTarget>),
}

#[derive(Clone, Copy, Debug, PartialEq, Eq, Structural)]
pub enum MenuWatcherEvent {
    Hide,
}

impl MenuWatcherEvent {
    /// The event that a byte from the watcher of a panel stands for.
    pub fn from_byte(byte: u8) -> (r: Option<Self>)
        ensures
            r == (if byte == 0 {
                Some(MenuWatcherEvent::Hide)
            } else {
                None
            }),
    {
        if byte == 0 {
            Some(MenuWatcherEvent::Hide)
        } else {
            None
        }
    }
}

#[derive(Debug)]
pub enum MenuUpdate {
    UnfocusMenu,
    Hide,
    SwitchSubject { new_menu: Menu, location: Location, monitor: String },
}

/// The menus that there are.
#[derive(Debug)]
pub enum Menu {
    TrayContext { addr: String, tmenu: Arc<TrayMenuExt> },
    TrayTooltip { addr: String, tooltip: Arc<Tooltip> },
}

impl Menu {
    /// Menus that close as soon as the mouse goes elsewhere.
    pub open spec fn is_tooltip(self) -> bool {
        self is TrayTooltip
    }

    /// No menu is deeper than can be counted.
    pub open spec fn wf(self) -> bool {
        self matches Menu::TrayContext { tmenu, .. } ==> menu_height(tmenu.submenus@) <= u16::MAX
    }

    /// What a menu shows.
    pub open spec fn shown(self) -> ElemView {
        match self {
            Menu::TrayContext { addr, tmenu } => context_view(addr@, *tmenu, IconMode::File),
            Menu::TrayTooltip { addr, tooltip } => tooltip_view(
                tooltip.title@,
                tooltip.description@,
            ),
        }
    }

    pub fn close_on_unfocus(&self) -> (r: bool)
        ensures
            r == self.is_tooltip(),
    {
        match self {
            Menu::TrayTooltip { .. } => true,
            Menu::TrayContext { .. } => false,
        }
    }
}

pub fn to_tui(menu: &Menu) -> (r: Elem)
    requires
        menu.wf(),
    ensures
        r@ == menu.shown(),
{
    match menu {
        Menu::TrayContext { addr, tmenu } => context_to_tui(addr, tmenu, IconMode::File),
        Menu::TrayTooltip { addr: _, tooltip } => tooltip_to_tui(tooltip),
    }
}

/// The menu that is open, and the panel that shows it.
#[derive(Debug)]
pub struct Current {
    pub menu: Menu,
    pub term: String,
}

/// What happens around the menus, apart from changes of the monitors.
#[derive(Debug)]
pub enum Upd {
    Menu(MenuUpdate),
    Watcher(String, MenuWatcherEvent),
}

/// What the panels are told.
#[derive(Debug)]
pub enum MenuAct {
    Show { term: String, tui: Elem, location: Location },
    Hide(String),
    /// The panel no longer listens and is ended.
    Shutdown(String),
}

/// What a [`MenuAct`] says.
#[verifier::ext_equal]
pub enum MenuActView {
    Show { term: Seq<char>, tui: ElemView, location: Location },
    Hide(Seq<char>),
    Shutdown(Seq<char>),
}

impl View for MenuAct {
    type V = MenuActView;

    open spec fn view(&self) -> MenuActView {
        match *self {
            MenuAct::Show { term, tui, location } => MenuActView::Show {
                term: term@,
                tui: tui@,
                location,
            },
            MenuAct::Hide(term) => MenuActView::Hide(term@),
            MenuAct::Shutdown(term) => MenuActView::Shutdown(term@),
        }
    }
}

/// What a list of acts says.
pub open spec fn act_views(acts: Seq<MenuAct>) -> Seq<MenuActView> {
    Seq::new(acts.len(), |i: int| acts[i]@)
}

/// The panels, and the menu that is open.
#[derive(Debug)]
pub struct MenuManager {
    pub panels: PanelSet,
    pub cur: Option<Current>,
}

/// The panels and the open menu, with what was told on the way.
#[verifier::ext_equal]
pub struct Outcome {
    pub running: Set<Seq<char>>,
    pub cur: Option<Current>,
    pub acts: Seq<MenuActView>,
}

/// Telling a panel to hide its menu. One that no longer listens is ended; one
/// that is not running is not told.
pub open spec fn hide_on(out: Outcome, term: Seq<char>, closed: Seq<Seq<char>>) -> Outcome {
    if !out.running.contains(term) {
        out
    } else if closed.contains(term) {
        Outcome {
            running: out.running.remove(term),
            cur: out.cur,
            acts: out.acts.push(MenuActView::Shutdown(term)),
        }
    } else {
        Outcome { acts: out.acts.push(MenuActView::Hide(term)), ..out }
    }
}

/// Closing the open menu, if there is one.
pub open spec fn hide_current(out: Outcome, closed: Seq<Seq<char>>) -> Outcome {
    match out.cur {
        Some(cur) => hide_on(Outcome { cur: None, ..out }, cur.term@, closed),
        None => out,
    }
}

/// Whether a tooltip would take the place of a menu that is not one.
pub open spec fn would_cover(cur: Option<Current>, menu: Menu) -> bool {
    menu.is_tooltip() && (cur matches Some(cur) && !cur.menu.is_tooltip())
}

/// Opening a menu. A context menu is never replaced by a tooltip. Where the
/// panel of the monitor no longer listens, it is ended and nothing is opened.
pub open spec fn switch_to(
    out: Outcome,
    menu: Menu,
    location: Location,
    monitor: String,
    closed: Seq<Seq<char>>,
) -> Outcome {
    if would_cover(out.cur, menu) {
        out
    } else {
        let freed = if out.cur matches Some(cur) && cur.term@ != monitor@ {
            hide_current(out, closed)
        } else {
            out
        };
        let opened = Some(Current { menu, term: monitor });
        if !freed.running.contains(monitor@) {
            Outcome { cur: opened, ..freed }
        } else if closed.contains(monitor@) {
            Outcome {
                running: freed.running.remove(monitor@),
                cur: freed.cur,
                acts: freed.acts.push(MenuActView::Shutdown(monitor@)),
            }
        } else {
            Outcome {
                running: freed.running,
                cur: opened,
                acts: freed.acts.push(
                    MenuActView::Show { term: monitor@, tui: menu.shown(), location },
                ),
            }
        }
    }
}

/// What follows from an event. `closed` names the panels that no longer listen.
pub open spec fn outcome(before: Outcome, upd: Upd, closed: Seq<Seq<char>>) -> Outcome {
    match upd {
        Upd::Menu(MenuUpdate::UnfocusMenu) => if before.cur matches Some(cur)
            && cur.menu.is_tooltip() {
            hide_current(before, closed)
        } else {
            before
        },
        Upd::Menu(MenuUpdate::Hide) => hide_current(before, closed),
        Upd::Menu(MenuUpdate::SwitchSubject { new_menu, location, monitor }) => switch_to(
            before,
            new_menu,
            location,
            monitor,
            closed,
        ),
        Upd::Watcher(monitor, MenuWatcherEvent::Hide) => if before.cur matches Some(cur)
            && cur.term@ == monitor@ {
            hide_current(before, closed)
        } else {
            hide_on(before, monitor@, closed)
        },
    }
}

/// Whether a list holds a text.
fn list_has(list: &Vec<String>, text: &String) -> (r: bool)
    ensures
        r == texts(list@).contains(text@),
{
    let mut i: usize = 0;
    while i < list.len()
        invariant
            0 <= i <= list@.len(),
            forall|j: int| 0 <= j < i ==> (#[trigger] list@[j])@ != text@,
        decreases list@.len() - i,
    {
        if list[i] == *text {
            proof {
                assert(texts(list@)[i as int] == text@);
            }
            return true;
        }
        i += 1;
    }
    proof {
        if texts(list@).contains(text@) {
            let j = choose|j: int| 0 <= j < texts(list@).len() && texts(list@)[j] == text@;
            assert(list@[j]@ == text@);
        }
    }
    false
}

impl MenuManager {
    pub open spec fn wf(&self) -> bool {
        self.panels.wf()
    }

    /// The state, before anything was told.
    pub open spec fn start(self) -> Outcome {
        Outcome { running: self.panels.names(), cur: self.cur, acts: Seq::empty() }
    }

    pub fn new() -> (r: Self)
        ensures
            r.wf(),
            r.cur is None,
            r.panels.names() == Set::<Seq<char>>::empty(),
    {
        MenuManager { panels: PanelSet::new(), cur: None }
    }

    fn send_hide(
        &mut self,
        term: &String,
        closed: &Vec<String>,
        acts: &mut Vec<MenuAct>,
    )
        requires
            old(self).wf(),
        ensures
            final(self).wf(),
            final(self).cur == old(self).cur,
            (Outcome {
                running: final(self).panels.names(),
                cur: final(self).cur,
                acts: act_views(final(acts)@),
            }) == hide_on(
                Outcome {
                    running: old(self).panels.names(),
                    cur: old(self).cur,
                    acts: act_views(old(acts)@),
                },
                term@,
                texts(closed@),
            ),
    {
        let ghost before = self.panels.names();
        let ghost had = act_views(acts@);
        if !self.panels.running.contains(term) {
            return;
        }
        if list_has(closed, term) {
            let _ = self.panels.running.remove(term);
            acts.push(MenuAct::Shutdown(term.clone()));
            proof {
                assert(self.panels.names() =~= before.remove(term@));
                assert(act_views(acts@) =~= had.push(MenuActView::Shutdown(term@)));
            }
        } else {
            acts.push(MenuAct::Hide(term.clone()));
            proof {
                assert(act_views(acts@) =~= had.push(MenuActView::Hide(term@)));
            }
        }
    }

    fn close_current(&mut self, closed: &Vec<String>, acts: &mut Vec<MenuAct>)
        requires
            old(self).wf(),
        ensures
            final(self).wf(),
            (Outcome {
                running: final(self).panels.names(),
                cur: final(self).cur,
                acts: act_views(final(acts)@),
            }) == hide_current(
                Outcome {
                    running: old(self).panels.names(),
                    cur: old(self).cur,
                    acts: act_views(old(acts)@),
                },
                texts(closed@),
            ),
    {
        let cur = self.cur.take();
        if let Some(cur) = cur {
            self.send_hide(&cur.term, closed, acts);
        }
    }

    /// Takes in an event. `closed` names the panels that no longer listen.
    pub fn step(&mut self, upd: Upd, closed: &Vec<String>) -> (r: Vec<MenuAct>)
        requires
            old(self).wf(),
            upd matches Upd::Menu(MenuUpdate::SwitchSubject { new_menu, .. }) ==> new_menu.wf(),
        ensures
            final(self).wf(),
            (Outcome {
                running: final(self).panels.names(),
                cur: final(self).cur,
                acts: act_views(r@),
            }) == outcome(old(self).start(), upd, texts(closed@)),
    {
        let ghost first = self.start();
        let mut acts: Vec<MenuAct> = Vec::new();
        proof {
            assert(act_views(acts@) =~= Seq::empty());
        }
        match upd {
            Upd::Menu(MenuUpdate::UnfocusMenu) => {
                let tooltip = match &self.cur {
                    Some(cur) => cur.menu.close_on_unfocus(),
                    None => false,
                };
                if tooltip {
                    self.close_current(closed, &mut acts);
                }
            },
            Upd::Menu(MenuUpdate::Hide) => {
                self.close_current(closed, &mut acts);
            },
            Upd::Watcher(monitor, MenuWatcherEvent::Hide) => {
                let here = match &self.cur {
                    Some(cur) => cur.term == monitor,
                    None => false,
                };
                if here {
                    self.close_current(closed, &mut acts);
                } else {
                    self.send_hide(&monitor, closed, &mut acts);
                }
            },
            Upd::Menu(MenuUpdate::SwitchSubject { new_menu, location, monitor }) => {
                let (covers, elsewhere) = match &self.cur {
                    Some(cur) => (
                        new_menu.close_on_unfocus() && !cur.menu.close_on_unfocus(),
                        cur.term != monitor,
                    ),
                    None => (false, false),
                };
                if covers {
                    return acts;
                }
                if elsewhere {
                    self.close_current(closed, &mut acts);
                }
                let ghost freed = Outcome {
                    running: self.panels.names(),
                    cur: self.cur,
                    acts: act_views(acts@),
                };
                if self.panels.running.contains(&monitor) {
                    if list_has(closed, &monitor) {
                        let _ = self.panels.running.remove(&monitor);
                        acts.push(MenuAct::Shutdown(monitor.clone()));
                        proof {
                            assert(self.panels.names() =~= freed.running.remove(monitor@));
                            assert(act_views(acts@) =~= freed.acts.push(
                                MenuActView::Shutdown(monitor@),
                            ));
                        }
                        return acts;
                    }
                    acts.push(
                        MenuAct::Show { term: monitor.clone(), tui: to_tui(&new_menu), location },
                    );
                    proof {
                        assert(act_views(acts@) =~= freed.acts.push(
                            MenuActView::Show { term: monitor@, tui: new_menu.shown(), location },
                        ));
                    }
                }
                self.cur = Some(Current { menu: new_menu, term: monitor });
            },
        }
        acts
    }
}

/// A context menu that is open stays open, and unchanged, when a tooltip wants
/// to open anywhere.
pub proof fn law_tooltip_never_replaces_context_menu(
    before: Outcome,
    tooltip: Menu,
    location: Location,
    monitor: String,
    closed: Seq<Seq<char>>,
)
    requires
        tooltip.is_tooltip(),
        before.cur matches Some(cur) && !cur.menu.is_tooltip(),
    ensures
        outcome(
            before,
            Upd::Menu(MenuUpdate::SwitchSubject { new_menu: tooltip, location, monitor }),
            closed,
        ) == before,
        outcome(before, Upd::Menu(MenuUpdate::UnfocusMenu), closed) == before,
{
}

/// A request to hide leaves no menu open.
pub proof fn law_hide_closes(before: Outcome, closed: Seq<Seq<char>>)
    ensures
        outcome(before, Upd::Menu(MenuUpdate::Hide), closed).cur is None,
{
}

/// A panel that is told to show a menu is the one of the menu that is then open;
/// at most one panel is told to show one.
pub proof fn law_shown_menu_is_current(before: Outcome, upd: Upd, closed: Seq<Seq<char>>, i: int)
    requires
        before.acts.len() == 0,
        0 <= i < outcome(before, upd, closed).acts.len(),
        outcome(before, upd, closed).acts[i] is Show,
    ensures
        i == outcome(before, upd, closed).acts.len() - 1,
        outcome(before, upd, closed).cur matches Some(cur) && outcome(before, upd, closed).acts[i]
            matches MenuActView::Show { term, tui, .. } && term == cur.term@ && tui
            == cur.menu.shown(),
{
}

/// A panel that is ended is no longer counted as running.
pub proof fn law_ended_panels_do_not_run(before: Outcome, upd: Upd, closed: Seq<Seq<char>>, i: int)
    requires
        before.acts.len() == 0,
        0 <= i < outcome(before, upd, closed).acts.len(),
    ensures
        outcome(before, upd, closed).acts[i] matches MenuActView::Shutdown(term)
            ==> closed.contains(term) && !outcome(before, upd, closed).running.contains(term),
{
}

/// A menu opens on its monitor: its panel is told to show what the menu holds, at
/// the place that was asked for, and the menu counts as open there. One that was
/// open on another monitor is hidden first; one on the same monitor gives way
/// without more ado. Only a tooltip does not take the place of a context menu.
pub proof fn law_menu_opens_on_its_monitor(
    before: Outcome,
    menu: Menu,
    location: Location,
    monitor: String,
    closed: Seq<Seq<char>>,
)
    requires
        before.running.contains(monitor@),
        !closed.contains(monitor@),
        menu is TrayContext || before.cur is None || before.cur->0.menu is TrayTooltip,
    ensures
        ({
            let after = outcome(
                before,
                Upd::Menu(MenuUpdate::SwitchSubject { new_menu: menu, location, monitor }),
                closed,
            );
            let show = MenuActView::Show { term: monitor@, tui: menu.shown(), location };
            &&& after.cur == Some(Current { menu, term: monitor })
            &&& (before.cur is None || before.cur->0.term@ == monitor@) ==> {
                &&& after.acts == before.acts.push(show)
                &&& after.running == before.running
            }
            &&& before.cur matches Some(cur) ==> (cur.term@ != monitor@ ==> {
                let elsewhere = cur.term@;
                &&& before.running.contains(elsewhere) && !closed.contains(elsewhere) ==> {
                    &&& after.acts == before.acts.push(MenuActView::Hide(elsewhere)).push(show)
                    &&& after.running == before.running
                }
                &&& before.running.contains(elsewhere) && closed.contains(elsewhere) ==> {
                    &&& after.acts == before.acts.push(MenuActView::Shutdown(elsewhere)).push(show)
                    &&& after.running == before.running.remove(elsewhere)
                }
                &&& !before.running.contains(elsewhere) ==> {
                    &&& after.acts == before.acts.push(show)
                    &&& after.running == before.running
                }
            })
        }),
{
}

/// Where the panel of the monitor no longer listens, it is ended and nothing opens
/// there; a menu on another monitor is closed all the same.
pub proof fn law_nothing_opens_on_a_deaf_panel(
    before: Outcome,
    menu: Menu,
    location: Location,
    monitor: String,
    closed: Seq<Seq<char>>,
)
    requires
        before.running.contains(monitor@),
        closed.contains(monitor@),
        menu is TrayContext || before.cur is None || before.cur->0.menu is TrayTooltip,
    ensures
        ({
            let after = outcome(
                before,
                Upd::Menu(MenuUpdate::SwitchSubject { new_menu: menu, location, monitor }),
                closed,
            );
            &&& !after.running.contains(monitor@)
            &&& after.acts.len() > 0 && after.acts.last() == MenuActView::Shutdown(monitor@)
            &&& (before.cur matches Some(cur) && cur.term@ == monitor@) ==> after.cur == before.cur
            &&& !(before.cur matches Some(cur) && cur.term@ == monitor@) ==> after.cur is None
        }),
{
}

/// A menu for a monitor without a panel counts as open there, though no panel is
/// told of it.
pub proof fn law_menu_without_a_panel(
    before: Outcome,
    menu: Menu,
    location: Location,
    monitor: String,
    closed: Seq<Seq<char>>,
)
    requires
        !before.running.contains(monitor@),
        before.cur is None,
    ensures
        outcome(
            before,
            Upd::Menu(MenuUpdate::SwitchSubject { new_menu: menu, location, monitor }),
            closed,
        ) == (Outcome { cur: Some(Current { menu, term: monitor }), ..before }),
{
}

/// To close the open menu is to tell its panel to hide it, once, or to end a panel
/// that no longer listens. Where none is open, nothing is told.
pub proof fn law_closing_hides_the_menu(before: Outcome, closed: Seq<Seq<char>>)
    ensures
        ({
            let after = outcome(before, Upd::Menu(MenuUpdate::Hide), closed);
            &&& before.cur is None ==> after == before
            &&& before.cur matches Some(cur) ==> {
                let term = cur.term@;
                &&& !before.running.contains(term) ==> after == (Outcome { cur: None, ..before })
                &&& before.running.contains(term) && !closed.contains(term) ==> after == (Outcome {
                    running: before.running,
                    cur: None,
                    acts: before.acts.push(MenuActView::Hide(term)),
                })
                &&& before.running.contains(term) && closed.contains(term) ==> after == (Outcome {
                    running: before.running.remove(term),
                    cur: None,
                    acts: before.acts.push(MenuActView::Shutdown(term)),
                })
            }
        }),
{
}

/// A mouse that goes elsewhere closes a tooltip just as a request to hide does, and
/// leaves everything else as it is.
pub proof fn law_tooltip_closes_without_the_mouse(before: Outcome, closed: Seq<Seq<char>>)
    ensures
        ({
            let after = outcome(before, Upd::Menu(MenuUpdate::UnfocusMenu), closed);
            &&& (before.cur matches Some(cur) && cur.menu is TrayTooltip) ==> after == outcome(
                before,
                Upd::Menu(MenuUpdate::Hide),
                closed,
            )
            &&& !(before.cur matches Some(cur) && cur.menu is TrayTooltip) ==> after == before
        }),
{
}

/// The watcher of a panel closes the menu that is open there, as a request to hide
/// does. Where none is open there, its panel is told to hide what it may still
/// show, and a menu elsewhere stays open.
pub proof fn law_watcher_hides_its_own_panel(
    before: Outcome,
    monitor: String,
    closed: Seq<Seq<char>>,
)
    ensures
        ({
            let after = outcome(before, Upd::Watcher(monitor, MenuWatcherEvent::Hide), closed);
            let term = monitor@;
            &&& (before.cur matches Some(cur) && cur.term@ == term) ==> after == outcome(
                before,
                Upd::Menu(MenuUpdate::Hide),
                closed,
            )
            &&& !(before.cur matches Some(cur) && cur.term@ == term) ==> {
                &&& after.cur == before.cur
                &&& !before.running.contains(term) ==> after == before
                &&& before.running.contains(term) && !closed.contains(term) ==> after.acts
                    == before.acts.push(MenuActView::Hide(term)) && after.running == before.running
                &&& before.running.contains(term) && closed.contains(term) ==> after.acts
                    == before.acts.push(MenuActView::Shutdown(term)) && after.running
                    == before.running.remove(term)
            }
        }),
{
}

/// A tooltip shows its title and description, the menu of an application its
/// entries, with their icons as the files they came in.
pub proof fn law_menus_show_their_subject(
    addr: String,
    tmenu: Arc<TrayMenuExt>,
    tooltip: Arc<Tooltip>,
)
    ensures
        (Menu::TrayTooltip { addr, tooltip }).shown() == tooltip_view(
            tooltip.title@,
            tooltip.description@,
        ),
        (Menu::TrayContext { addr, tmenu }).shown() == context_view(addr@, *tmenu, IconMode::File),
        (Menu::TrayTooltip { addr, tooltip }).is_tooltip(),
        !(Menu::TrayContext { addr, tmenu }).is_tooltip(),
{
}

/// What is told is said act by act, and a manager begins with the panels that run,
/// the menu that is open, and nothing told.
pub proof fn law_acts_are_said_one_by_one(acts: Seq<MenuAct>, i: int, manager: MenuManager)
    ensures
        act_views(acts).len() == acts.len(),
        0 <= i < acts.len() ==> match acts[i] {
            MenuAct::Show { term, tui, location } => act_views(acts)[i] == (MenuActView::Show {
                term: term@,
                tui: tui@,
                location,
            }),
            MenuAct::Hide(term) => act_views(acts)[i] == MenuActView::Hide(term@),
            MenuAct::Shutdown(term) => act_views(acts)[i] == MenuActView::Shutdown(term@),
        },
        manager.start().running == manager.panels.names(),
        manager.start().cur == manager.cur,
        manager.start().acts.len() == 0,
{
}

/// What the controller hears of an interaction with an element of a menu. A tag
/// that was made for an entry leads back to it; one that stands for nothing gives no
/// event.
pub fn menu_event(location: Location, kind: InteractKind, tag: &CustomId) -> (r: Option<MenuEvent>)
    ensures
        r is Some <==> crate::tray::menu_target_of(tag@) is Some,
        r matches Some(MenuEvent::Interact(it)) ==> it.location == location && it.kind == kind
            && crate::tray::menu_target_of(tag@) == Some(it.target.parts()),
        forall|addr: Seq<char>, menu_path: Seq<char>, id: i32|
            tag@ == #[trigger] crate::tray::menu_tag(addr, menu_path, id) ==> (r matches Some(
                MenuEvent::Interact(it),
            ) && it.target.parts() == (addr, menu_path, id)),
{
    match MenuInteractTarget::deserialize_tag(tag) {
        Some(target) => Some(MenuEvent::Interact(InteractGeneric { location, kind, target })),
        None => None,
    }
}

/// A menu that a panel shows.
#[derive(Debug)]
pub struct Show {
    pub tui: Elem,
    pub location: Location,
    pub size: Size,
    pub rendered: bool,
}

/// What comes to a panel.
#[derive(Debug)]
pub enum Inc {
    /// A menu is to be shown. Its size is missing where it could not be found.
    Show { tui: Elem, location: Location, size: Option<Size> },
    Hide,
    Sizes(Sizes),
    /// The user did something, with an element or beside all of them.
    Interact { location: Location, kind: InteractKind, tag: Option<CustomId> },
    Other,
}

/// What a panel does, in this order.
#[derive(Debug)]
pub enum PanelAct {
    Tell { location: Location, kind: InteractKind, tag: CustomId },
    /// The margins left and right in pixels, and the lines.
    Place { left: u32, right: u32, lines: u16 },
    SetVisible(bool),
    /// Draw the menu over this size. Then say whether that worked.
    Render(Size),
}

/// The panel of a monitor.
#[derive(Debug)]
pub struct MenuPanel {
    pub screen_width: u32,
    pub sizes: Sizes,
    pub show: Option<Show>,
}

/// Half the width of a menu in pixels, rounded up.
pub open spec fn half_of(size: Size, font_width: u16) -> int {
    (size.width * font_width + 1) / 2
}

/// The point of the screen to which a menu belongs.
pub open spec fn capped(x: u32, screen_width: u32) -> int {
    if x <= screen_width {
        x as int
    } else {
        screen_width as int
    }
}

/// The left margin of a menu: half of the menu lies between it and the point.
pub open spec fn left_margin(x: u32, half: int, screen_width: u32) -> int {
    rest(capped(x, screen_width), half)
}

/// The right margin of a menu: the other half, less what the left one had not
/// enough room for.
pub open spec fn right_margin(x: u32, half: int, screen_width: u32) -> int {
    rest(
        rest(screen_width - capped(x, screen_width), half),
        rest(half, capped(x, screen_width)),
    )
}

/// The margins of a menu of the given size.
pub fn panel_margins(x: u32, size: Size, font_width: u16, screen_width: u32) -> (r: (u32, u32))
    ensures
        r.0 == left_margin(x, half_of(size, font_width), screen_width),
        r.1 == right_margin(x, half_of(size, font_width), screen_width),
{
    let x: u32 = if x <= screen_width {
        x
    } else {
        screen_width
    };
    assert(0 <= size.width as int * font_width as int <= 0xffff * 0xffff) by (nonlinear_arith)
        requires
            size.width <= 0xffffu16,
            font_width <= 0xffffu16,
    ;
    let pix_w: u32 = size.width as u32 * font_width as u32;
    let half: u32 = pix_w / 2 + pix_w % 2;
    let left: u32 = x.saturating_sub(half);
    let overshoot: u32 = half.saturating_sub(x);
    let right: u32 = (screen_width - x).saturating_sub(half).saturating_sub(overshoot);
    (left, right)
}

/// A menu that fits on the screen, with room for its right half, gets exactly
/// its width, rounded up to whole pixels on each side.
pub proof fn law_panel_gets_its_width(x: u32, half: int, screen_width: u32)
    requires
        half >= 0,
        2 * half <= screen_width,
        x + half <= screen_width,
    ensures
        left_margin(x, half, screen_width) + 2 * half + right_margin(x, half, screen_width)
            == screen_width,
{
}

/// The two halves of a menu make up its width in pixels, and one pixel more where
/// that is odd.
pub proof fn law_halves_make_up_the_width(size: Size, font_width: u16)
    ensures
        ({
            let pixels = size.width * font_width;
            let both = 2 * half_of(size, font_width);
            &&& pixels % 2 == 0 ==> both == pixels
            &&& pixels % 2 != 0 ==> both == pixels + 1
        }),
{
    assert(0 <= size.width * font_width) by (nonlinear_arith)
        requires
            size.width >= 0,
            font_width >= 0,
    ;
}

/// A menu with room for both halves is centered on its point. One that is too near
/// to the left edge touches it and keeps its width, one too near to the right edge
/// touches that one with its left half in place.
pub proof fn law_panel_is_centered(x: u32, half: int, screen_width: u32)
    requires
        half >= 0,
    ensures
        ({
            let left = left_margin(x, half, screen_width);
            let right = right_margin(x, half, screen_width);
            &&& half <= x && x + half <= screen_width ==> left == x - half && right == screen_width
                - x - half
            &&& x < half && 2 * half <= screen_width ==> left == 0 && right == screen_width - 2
                * half
            &&& half <= x <= screen_width && x + half > screen_width ==> left == x - half && right
                == 0
            &&& x > screen_width ==> left == left_margin(screen_width, half, screen_width) && right
                == right_margin(screen_width, half, screen_width)
            &&& 0 <= left <= screen_width
            &&& 0 <= right <= screen_width
        }),
{
}

impl MenuPanel {
    /// Whether a size has room in another one.
    pub open spec fn fits(size: Size, room: Size) -> bool {
        size.width <= room.width && size.height <= room.height
    }

    /// The panel after something came to it.
    pub open spec fn after(self, inc: Inc) -> MenuPanel {
        match inc {
            Inc::Show { tui, location, size: Some(size) } => MenuPanel {
                show: Some(Show { tui, location, size, rendered: false }),
                ..self
            },
            Inc::Hide => MenuPanel { show: None, ..self },
            Inc::Sizes(sizes) => MenuPanel { sizes, ..self },
            _ => self,
        }
    }

    /// Whether a menu was opened or closed.
    pub open spec fn resizes(inc: Inc) -> bool {
        match inc {
            Inc::Show { size, .. } => size is Some,
            Inc::Hide => true,
            _ => false,
        }
    }

    /// Whether a menu waits to be drawn.
    pub open spec fn waiting(self) -> bool {
        self.show matches Some(show) && !show.rendered
    }

    /// Putting a menu in its place, where the panel does not have its size, and
    /// showing or hiding the panel.
    pub open spec fn placing(self) -> Seq<PanelAct> {
        let place = match self.show {
            Some(show) if !show.rendered && show.size != self.sizes.cell_size => seq![
                PanelAct::Place {
                    left: left_margin(
                        show.location.x,
                        half_of(show.size, self.sizes.font_size.width),
                        self.screen_width,
                    ) as u32,
                    right: right_margin(
                        show.location.x,
                        half_of(show.size, self.sizes.font_size.width),
                        self.screen_width,
                    ) as u32,
                    lines: show.size.height,
                },
            ],
            _ => Seq::empty(),
        };
        place + seq![PanelAct::SetVisible(self.show is Some)]
    }

    /// Whether a menu that waits can be drawn: the size of the panel is new, or
    /// it has enough room already.
    pub open spec fn ready(self, inc: Inc) -> bool {
        inc is Sizes || (Self::resizes(inc) && (self.show matches Some(show) && Self::fits(
            show.size,
            self.sizes.cell_size,
        )))
    }

    /// What the panel does.
    pub open spec fn acts(self, inc: Inc) -> Seq<PanelAct> {
        let next = self.after(inc);
        let told = match inc {
            Inc::Interact { location, kind, tag: Some(tag) } => seq![
                PanelAct::Tell { location, kind, tag },
            ],
            _ => Seq::empty(),
        };
        let placed = if Self::resizes(inc) {
            next.placing()
        } else {
            Seq::empty()
        };
        let drawn = if next.waiting() && next.ready(inc) {
            seq![PanelAct::Render(next.show->0.size)]
        } else {
            Seq::empty()
        };
        told + placed + drawn
    }

    pub fn new(screen_width: u32, sizes: Sizes) -> (r: Self)
        ensures
            r == (MenuPanel { screen_width, sizes, show: None }),
    {
        MenuPanel { screen_width, sizes, show: None }
    }

    /// Takes in what comes to the panel.
    pub fn step(&mut self, inc: Inc) -> (r: Vec<PanelAct>)
        ensures
            *final(self) == old(self).after(inc),
            r@ == old(self).acts(inc),
    {
        let ghost start = *self;
        let mut acts: Vec<PanelAct> = Vec::new();
        let mut resize = false;
        let mut render_ready = false;
        match inc {
            Inc::Show { tui, location, size } => {
                if let Some(size) = size {
                    self.show = Some(Show { tui, location, size, rendered: false });
                    resize = true;
                }
            },
            Inc::Hide => {
                self.show = None;
                resize = true;
            },
            Inc::Sizes(sizes) => {
                self.sizes = sizes;
                render_ready = true;
            },
            Inc::Interact { location, kind, tag } => {
                if let Some(tag) = tag {
                    acts.push(PanelAct::Tell { location, kind, tag });
                }
            },
            Inc::Other => {},
        }
        if resize {
            if let Some(show) = &self.show {
                if !show.rendered {
                    let size = show.size;
                    let room = self.sizes.cell_size;
                    if size.width <= room.width && size.height <= room.height {
                        render_ready = true;
                    }
                    if size != room {
                        let (left, right) = panel_margins(
                            show.location.x,
                            size,
                            self.sizes.font_size.width,
                            self.screen_width,
                        );
                        acts.push(PanelAct::Place { left, right, lines: size.height });
                    }
                }
            }
            acts.push(PanelAct::SetVisible(self.show.is_some()));
        }
        if render_ready {
            if let Some(show) = &self.show {
                if !show.rendered {
                    acts.push(PanelAct::Render(show.size));
                }
            }
        }
        proof {
            assert(*self == start.after(inc));
            assert(acts@ =~= start.acts(inc));
        }
        acts
    }

    /// The panel after an attempt to draw its menu.
    pub open spec fn after_drawing(self, ok: bool) -> MenuPanel {
        MenuPanel {
            show: match self.show {
                Some(show) => Some(Show { rendered: show.rendered || ok, ..show }),
                None => None,
            },
            ..self
        }
    }

    /// Notes whether the menu was drawn.
    pub fn drawn(&mut self, ok: bool)
        ensures
            *final(self) == old(self).after_drawing(ok),
    {
        if ok {
            let show = self.show.take();
            if let Some(mut show) = show {
                show.rendered = true;
                self.show = Some(show);
            }
        }
    }
}

/// A menu that was drawn is not drawn again until another one is shown.
pub proof fn law_drawn_once(panel: MenuPanel, inc: Inc, i: int)
    requires
        !panel.waiting(),
        inc !is Show,
        0 <= i < panel.acts(inc).len(),
    ensures
        panel.acts(inc)[i] !is Render,
        panel.acts(inc)[i] !is Place,
{
}

/// A menu whose size is known is kept as it is to be shown. Its panel is placed
/// first, unless it has that very size already, with the margins of the menu and as
/// many lines; then it is shown; and the menu is drawn at once where there is room
/// for it.
pub proof fn law_panel_shows_the_menu(panel: MenuPanel, tui: Elem, location: Location, size: Size)
    ensures
        ({
            let inc = Inc::Show { tui, location, size: Some(size) };
            let room = panel.sizes.cell_size;
            let half = half_of(size, panel.sizes.font_size.width);
            let place = PanelAct::Place {
                left: left_margin(location.x, half, panel.screen_width) as u32,
                right: right_margin(location.x, half, panel.screen_width) as u32,
                lines: size.height,
            };
            let acts = panel.acts(inc);
            &&& panel.after(inc).show == Some(Show { tui, location, size, rendered: false })
            &&& panel.after(inc).sizes == panel.sizes
            &&& panel.after(inc).screen_width == panel.screen_width
            &&& size == room ==> acts == seq![PanelAct::SetVisible(true), PanelAct::Render(size)]
            &&& size != room && size.width <= room.width && size.height <= room.height ==> acts
                == seq![place, PanelAct::SetVisible(true), PanelAct::Render(size)]
            &&& size.width > room.width || size.height > room.height ==> acts == seq![
                place,
                PanelAct::SetVisible(true),
            ]
        }),
{
    let inc = Inc::Show { tui, location, size: Some(size) };
    let room = panel.sizes.cell_size;
    let half = half_of(size, panel.sizes.font_size.width);
    let place = PanelAct::Place {
        left: left_margin(location.x, half, panel.screen_width) as u32,
        right: right_margin(location.x, half, panel.screen_width) as u32,
        lines: size.height,
    };
    let acts = panel.acts(inc);
    if size == room {
        assert(acts =~= seq![PanelAct::SetVisible(true), PanelAct::Render(size)]);
    } else if size.width <= room.width && size.height <= room.height {
        assert(acts =~= seq![place, PanelAct::SetVisible(true), PanelAct::Render(size)]);
    } else {
        assert(acts =~= seq![place, PanelAct::SetVisible(true)]);
    }
}

/// A panel that is told to hide forgets its menu and is hidden. A menu of unknown
/// size changes nothing.
pub proof fn law_panel_hides_the_menu(panel: MenuPanel, tui: Elem, location: Location)
    ensures
        panel.after(Inc::Hide) == (MenuPanel { show: None, ..panel }),
        panel.acts(Inc::Hide) == seq![PanelAct::SetVisible(false)],
        panel.after(Inc::Show { tui, location, size: None }) == panel,
        panel.acts(Inc::Show { tui, location, size: None }).len() == 0,
        panel.after(Inc::Other) == panel,
        panel.acts(Inc::Other).len() == 0,
{
    assert(panel.acts(Inc::Hide) =~= seq![PanelAct::SetVisible(false)]);
}

/// A panel keeps its new sizes. A menu that waited for room is then drawn over its
/// own size; nothing else is done.
pub proof fn law_waiting_menu_is_drawn_with_new_sizes(panel: MenuPanel, sizes: Sizes)
    ensures
        panel.after(Inc::Sizes(sizes)) == (MenuPanel { sizes, ..panel }),
        (panel.show matches Some(show) && !show.rendered) ==> panel.acts(Inc::Sizes(sizes)) == seq![
            PanelAct::Render(panel.show->0.size),
        ],
        !(panel.show matches Some(show) && !show.rendered) ==> panel.acts(Inc::Sizes(sizes)).len()
            == 0,
{
    if panel.show matches Some(show) && !show.rendered {
        assert(panel.acts(Inc::Sizes(sizes)) =~= seq![PanelAct::Render(panel.show->0.size)]);
    }
}

/// What is done with an element of the menu is told, with where it was done, what
/// was done and the very tag of the element. What is done beside all of them is not
/// told. Neither changes the panel.
pub proof fn law_panel_tells_of_its_elements(
    panel: MenuPanel,
    location: Location,
    kind: InteractKind,
    tag: CustomId,
)
    ensures
        panel.acts(Inc::Interact { location, kind, tag: Some(tag) }) == seq![
            PanelAct::Tell { location, kind, tag },
        ],
        panel.acts(Inc::Interact { location, kind, tag: None }).len() == 0,
        panel.after(Inc::Interact { location, kind, tag: Some(tag) }) == panel,
        panel.after(Inc::Interact { location, kind, tag: None }) == panel,
{
    assert(panel.acts(Inc::Interact { location, kind, tag: Some(tag) }) =~= seq![
        PanelAct::Tell { location, kind, tag },
    ]);
}

/// A menu that was drawn no longer waits, one that could not be drawn still does;
/// nothing else changes.
pub proof fn law_drawn_menu_does_not_wait(panel: MenuPanel)
    ensures
        !panel.after_drawing(true).waiting(),
        panel.after_drawing(false) == panel,
        panel.after_drawing(true).sizes == panel.sizes,
        panel.after_drawing(true).screen_width == panel.screen_width,
        panel.show is None ==> panel.after_drawing(true) == panel,
        panel.show matches Some(show) ==> (panel.after_drawing(true).show matches Some(drawn)
            && drawn.tui == show.tui && drawn.location == show.location && drawn.size == show.size),
{
}

} // verus!
