//! The bar and the menu of a monitor whose elements bring their own reactions:
//! what opens and closes menus, and when something is drawn.
use vstd::prelude::*;
use crate::assoc::Assoc;
use crate::host::TermKind;
use crate::monitor_inst::{
    bar_area, menu_area, place_menu, placement, MenuPlacement, HORIZONTAL_PADDING,
};
use crate::tui::{Area, Elem, ElemView, Location, Size, Sizes};

pub mod bar;

verus! {

/// Whether menus get an extra line, with their content centered by a padding of
/// half a cell.
pub const VERTICAL_PADDING: bool = true;

#[derive(Clone, Copy, Debug, PartialEq, Eq, Structural)]
pub enum MenuKind {
    Tooltip,
    Context,
}

/// What the bars show: something of their own, or what all others show.
#[derive(Debug)]
pub struct BarTuiState {
    pub by_monitor: Assoc<Elem>,
    pub fallback: Elem,
}

impl Default for BarTuiState {
    fn default() -> (r: Self)
        ensures
            r.by_monitor.wf(),
            r.by_monitor@ == Map::<Seq<char>, Elem>::empty(),
            r.fallback@ == ElemView::Empty,
    {
        BarTuiState { by_monitor: Assoc::new(), fallback: Elem::empty() }
    }
}

impl BarTuiState {
    /// What the bar of a monitor shows.
    pub open spec fn shown_on(self, monitor: Seq<char>) -> Elem {
        if self.by_monitor@.dom().contains(monitor) {
            self.by_monitor@[monitor]
        } else {
            self.fallback
        }
    }

    /// What the bar of a monitor shows.
    pub fn tui_for(&self, monitor: &String) -> (r: Elem)
        requires
            self.by_monitor.wf(),
        ensures
            r == self.shown_on(monitor@),
    {
        match self.by_monitor.get(monitor) {
            Some(tui) => tui.clone(),
            None => self.fallback.clone(),
        }
    }
}

/// A monitor shows what there is for it, and every other one what there is for all.
pub proof fn law_monitors_show_their_own(state: BarTuiState, monitor: Seq<char>)
    ensures
        state.by_monitor@.dom().contains(monitor) ==> state.shown_on(monitor)
            == state.by_monitor@[monitor],
        !state.by_monitor@.dom().contains(monitor) ==> state.shown_on(monitor) == state.fallback,
{
}

/// The content of a menu, measured.
#[derive(Debug)]
pub struct Opened {
    pub tui: Elem,
    pub size: Size,
}

/// A menu that is shown.
#[derive(Debug)]
pub struct ShowMenu {
    pub kind: MenuKind,
    pub pix_location: Location,
    pub cached_size: Size,
    pub font_size: Size,
    pub tui: Elem,
}

/// What the mouse did, and what the elements that it met answered.
#[derive(Debug)]
pub enum MouseResult {
    Ignore,
    HoverChanged,
    HoverEmpty,
    /// Over an element with a tooltip, and what the tooltip is.
    HoverTooltip { pix_location: Location, tooltip: Option<Opened> },
    /// On an element: what its reaction opens, or else what its tooltip is.
    Interact { pix_location: Location, reaction: Option<Opened>, tooltip: Option<Opened> },
    InteractEmpty,
}

/// What happens around a monitor.
#[derive(Debug)]
pub enum Upd {
    BarTui(Elem),
    Mouse(TermKind, MouseResult),
    Sizes(TermKind, Sizes),
    MenuWatcherHide,
    /// An event of a terminal that nothing depends on.
    Other,
}

/// What is to be done in answer, in this order.
#[derive(Debug)]
pub enum PanelAct {
    /// Everything that is shown is to be looked at again.
    Reload,
    PlaceMenu(MenuPlacement),
    RenderMenu { area: Area, font_size: Size },
    SetMenuVisible(bool),
    /// Draw the bar.
    RenderBar { area: Area, font_size: Size },
    /// The mouse is over no element of the bar any more. Draw the bar if it was,
    /// or where that is due anyway.
    ResetHover { render: bool, area: Area, font_size: Size },
}

/// A monitor with its bar and its menu.
#[derive(Debug)]
pub struct MonitorPanels {
    pub width: u32,
    pub show_menu: Option<ShowMenu>,
    pub bar: Elem,
    pub bar_sizes: Sizes,
    pub menu_sizes: Sizes,
}

/// The menu that opens.
pub open spec fn opened(kind: MenuKind, at: Location, menu: Opened, font_size: Size) -> ShowMenu {
    ShowMenu {
        kind,
        pix_location: at,
        cached_size: menu.size,
        font_size,
        tui: menu.tui,
    }
}

/// Whether the content of a menu can be counted in cells with its padding.
pub open spec fn is_narrow(menu: Option<Opened>) -> bool {
    menu matches Some(menu) ==> menu.size.width + HORIZONTAL_PADDING <= u16::MAX
}

impl MouseResult {
    pub open spec fn wf(self) -> bool {
        match self {
            MouseResult::HoverTooltip { tooltip, .. } => is_narrow(tooltip),
            MouseResult::Interact { reaction, tooltip, .. } => is_narrow(reaction) && is_narrow(
                tooltip,
            ),
            _ => true,
        }
    }

    pub open spec fn is_hover(self) -> bool {
        self is HoverChanged || self is HoverEmpty || self is HoverTooltip
    }
}

impl MonitorPanels {
    pub open spec fn wf(&self) -> bool {
        self.show_menu matches Some(menu) ==> menu.cached_size.width + HORIZONTAL_PADDING
            <= u16::MAX
    }

    /// Whether a menu of that kind is shown.
    pub open spec fn shows(self, kind: MenuKind) -> bool {
        self.show_menu matches Some(menu) && menu.kind == kind
    }

    /// The menu after the mouse did something.
    pub open spec fn menu_after_mouse(self, on: TermKind, res: MouseResult) -> Option<ShowMenu> {
        let font_size = self.menu_sizes.font_size;
        match res {
            MouseResult::HoverEmpty => if on == TermKind::Bar && self.shows(MenuKind::Tooltip) {
                None
            } else {
                self.show_menu
            },
            MouseResult::HoverTooltip { pix_location, tooltip: Some(tooltip) } => if on
                == TermKind::Bar && !self.shows(MenuKind::Context) {
                Some(opened(MenuKind::Tooltip, pix_location, tooltip, font_size))
            } else {
                self.show_menu
            },
            MouseResult::Interact { pix_location, reaction: Some(menu), .. } => Some(
                opened(MenuKind::Context, pix_location, menu, font_size),
            ),
            MouseResult::Interact { pix_location, reaction: None, tooltip: Some(menu) } => Some(
                opened(MenuKind::Context, pix_location, menu, font_size),
            ),
            MouseResult::Interact { reaction: None, tooltip: None, .. } => if on == TermKind::Bar {
                None
            } else {
                self.show_menu
            },
            MouseResult::InteractEmpty => if on == TermKind::Bar {
                None
            } else {
                self.show_menu
            },
            _ => self.show_menu,
        }
    }

    /// Whether the mouse opens a menu.
    pub open spec fn opens(self, on: TermKind, res: MouseResult) -> bool {
        match res {
            MouseResult::HoverTooltip { tooltip, .. } => on == TermKind::Bar && !self.shows(
                MenuKind::Context,
            ) && tooltip is Some,
            MouseResult::Interact { reaction, tooltip, .. } => reaction is Some || tooltip is Some,
            _ => false,
        }
    }

    /// The state after an event.
    pub open spec fn after(self, upd: Upd) -> MonitorPanels {
        match upd {
            Upd::BarTui(tui) => MonitorPanels { bar: tui, ..self },
            Upd::Mouse(on, res) => MonitorPanels {
                show_menu: self.menu_after_mouse(on, res),
                ..self
            },
            Upd::Sizes(TermKind::Bar, sizes) => MonitorPanels { bar_sizes: sizes, ..self },
            Upd::Sizes(TermKind::Menu, sizes) => MonitorPanels { menu_sizes: sizes, ..self },
            Upd::MenuWatcherHide => MonitorPanels { show_menu: None, ..self },
            Upd::Other => self,
        }
    }

    /// Whether the menu is to be drawn, shown or hidden after an event.
    pub open spec fn menu_due(self, upd: Upd) -> bool {
        match upd {
            Upd::Mouse(on, res) => {
                ||| on == TermKind::Menu && res.is_hover()
                ||| self.opens(on, res)
                ||| self.show_menu is Some && self.menu_after_mouse(on, res) is None
            },
            _ => false,
        }
    }

    /// Whether the bar is to be drawn after an event.
    pub open spec fn bar_due(self, upd: Upd) -> bool {
        match upd {
            Upd::BarTui(_) => true,
            Upd::Mouse(on, res) => on == TermKind::Bar && res is HoverEmpty,
            _ => false,
        }
    }

    /// Whether the mouse is to be taken to have left the bar: no menu is shown
    /// any more.
    pub open spec fn hover_resets(self, upd: Upd) -> bool {
        upd is MenuWatcherHide || (self.menu_due(upd) && self.after(upd).show_menu is None)
    }

    /// What is done about the menu.
    pub open spec fn menu_acts(self) -> Seq<PanelAct> {
        match self.show_menu {
            Some(menu) => seq![
                PanelAct::PlaceMenu(
                    placement(
                        menu.pix_location.x,
                        menu.cached_size,
                        self.menu_sizes.font_size.width,
                        self.width,
                        VERTICAL_PADDING,
                    ),
                ),
                PanelAct::RenderMenu {
                    area: menu_area(menu.cached_size),
                    font_size: menu.font_size,
                },
                PanelAct::SetMenuVisible(true),
            ],
            None => seq![PanelAct::SetMenuVisible(false)],
        }
    }

    /// What is to be done in answer to an event.
    pub open spec fn acts(self, upd: Upd) -> Seq<PanelAct> {
        let next = self.after(upd);
        let area = bar_area(next.bar_sizes.cell_size);
        let font_size = next.bar_sizes.font_size;
        let reload = if upd matches Upd::Sizes(on, _) && on == TermKind::Bar {
            seq![PanelAct::Reload]
        } else {
            Seq::empty()
        };
        let menu = if self.menu_due(upd) {
            next.menu_acts()
        } else {
            Seq::empty()
        };
        let bar = if self.hover_resets(upd) {
            seq![PanelAct::ResetHover { render: self.bar_due(upd), area, font_size }]
        } else if self.bar_due(upd) {
            seq![PanelAct::RenderBar { area, font_size }]
        } else {
            Seq::empty()
        };
        reload + menu + bar
    }

    pub fn new(width: u32, bar_sizes: Sizes, menu_sizes: Sizes) -> (r: Self)
        ensures
            r.wf(),
            r.width == width,
            r.show_menu is None,
            r.bar@ == ElemView::Empty,
            r.bar_sizes == bar_sizes,
            r.menu_sizes == menu_sizes,
    {
        MonitorPanels { width, show_menu: None, bar: Elem::empty(), bar_sizes, menu_sizes }
    }

    fn open(&mut self, kind: MenuKind, at: Location, menu: Opened)
        requires
            menu.size.width + HORIZONTAL_PADDING <= u16::MAX,
        ensures
            final(self).wf(),
            *final(self) == (MonitorPanels {
                show_menu: Some(opened(kind, at, menu, old(self).menu_sizes.font_size)),
                ..*old(self)
            }),
    {
        self.show_menu = Some(
            ShowMenu {
                kind,
                pix_location: at,
                cached_size: menu.size,
                font_size: self.menu_sizes.font_size,
                tui: menu.tui,
            },
        );
    }

    /// Takes in one event.
    pub fn step(&mut self, upd: Upd) -> (r: Vec<PanelAct>)
        requires
            old(self).wf(),
            upd matches Upd::Mouse(_, res) ==> res.wf(),
        ensures
            final(self).wf(),
            *final(self) == old(self).after(upd),
            r@ == old(self).acts(upd),
    {
        let ghost start = *self;
        let mut acts: Vec<PanelAct> = Vec::new();
        let mut rerender_menu = false;
        let mut rerender_bar = false;
        let mut reset_hover = false;
        match upd {
            Upd::BarTui(tui) => {
                self.bar = tui;
                rerender_bar = true;
            },
            Upd::Mouse(on, res) => {
                let mut hide_menu = false;
                match res {
                    MouseResult::Ignore => {},
                    MouseResult::HoverChanged => {
                        match on {
                            TermKind::Menu => {
                                rerender_menu = true;
                            },
                            TermKind::Bar => {},
                        }
                    },
                    MouseResult::HoverEmpty => {
                        match on {
                            TermKind::Menu => {
                                rerender_menu = true;
                            },
                            TermKind::Bar => {
                                hide_menu = match &self.show_menu {
                                    Some(menu) => menu.kind == MenuKind::Tooltip,
                                    None => false,
                                };
                                rerender_bar = true;
                            },
                        }
                    },
                    MouseResult::HoverTooltip { pix_location, tooltip } => {
                        match on {
                            TermKind::Menu => {
                                rerender_menu = true;
                            },
                            TermKind::Bar => {
                                let context = match &self.show_menu {
                                    Some(menu) => menu.kind == MenuKind::Context,
                                    None => false,
                                };
                                if !context {
                                    if let Some(menu) = tooltip {
                                        self.open(MenuKind::Tooltip, pix_location, menu);
                                        rerender_menu = true;
                                    }
                                }
                            },
                        }
                    },
                    MouseResult::Interact { pix_location, reaction, tooltip } => {
                        match reaction {
                            Some(menu) => {
                                self.open(MenuKind::Context, pix_location, menu);
                                rerender_menu = true;
                            },
                            None => match tooltip {
                                Some(menu) => {
                                    self.open(MenuKind::Context, pix_location, menu);
                                    rerender_menu = true;
                                },
                                None => {
                                    hide_menu = on == TermKind::Bar;
                                },
                            },
                        }
                    },
                    MouseResult::InteractEmpty => {
                        hide_menu = on == TermKind::Bar;
                    },
                }
                if hide_menu && self.show_menu.is_some() {
                    self.show_menu = None;
                    rerender_menu = true;
                }
            },
            Upd::Sizes(on, sizes) => {
                match on {
                    TermKind::Bar => {
                        self.bar_sizes = sizes;
                        acts.push(PanelAct::Reload);
                    },
                    TermKind::Menu => {
                        self.menu_sizes = sizes;
                    },
                }
            },
            Upd::MenuWatcherHide => {
                self.show_menu = None;
                reset_hover = true;
            },
            Upd::Other => {},
        }
        proof {
            assert(*self == start.after(upd));
            assert(rerender_menu == start.menu_due(upd));
        }
        if rerender_menu {
            match &self.show_menu {
                Some(menu) => {
                    acts.push(
                        PanelAct::PlaceMenu(
                            place_menu(
                                menu.pix_location.x,
                                menu.cached_size,
                                self.menu_sizes.font_size.width,
                                self.width,
                                VERTICAL_PADDING,
                            ),
                        ),
                    );
                    acts.push(
                        PanelAct::RenderMenu {
                            area: Area { x: HORIZONTAL_PADDING / 2, y: 0, size: menu.cached_size },
                            font_size: menu.font_size,
                        },
                    );
                },
                None => {
                    reset_hover = true;
                },
            }
            acts.push(PanelAct::SetMenuVisible(self.show_menu.is_some()));
        }
        let area = Area { x: 0, y: 0, size: self.bar_sizes.cell_size };
        let font_size = self.bar_sizes.font_size;
        if reset_hover {
            acts.push(PanelAct::ResetHover { render: rerender_bar, area, font_size });
        } else if rerender_bar {
            acts.push(PanelAct::RenderBar { area, font_size });
        }
        proof {
            assert(acts@ =~= start.acts(upd));
        }
        acts
    }
}

/// The mouse that moves over the bar never replaces a context menu, nor closes it.
pub proof fn law_hovering_keeps_context_menus(panels: MonitorPanels, res: MouseResult)
    requires
        panels.shows(MenuKind::Context),
        res.is_hover(),
    ensures
        panels.after(Upd::Mouse(TermKind::Bar, res)).show_menu == panels.show_menu,
{
}

/// A click beside all elements of the bar leaves no menu open.
pub proof fn law_click_beside_closes(panels: MonitorPanels)
    ensures
        panels.after(Upd::Mouse(TermKind::Bar, MouseResult::InteractEmpty)).show_menu is None,
{
}

/// Whenever a menu opens or closes, the panel of the menu is shown or hidden to
/// match; only when the panel went away by itself is nothing left to do.
pub proof fn law_visibility_follows_menu(panels: MonitorPanels, upd: Upd)
    requires
        (panels.after(upd).show_menu is Some) != (panels.show_menu is Some),
        upd !is MenuWatcherHide,
    ensures
        panels.acts(upd).contains(PanelAct::SetMenuVisible(panels.after(upd).show_menu is Some)),
{
    let acts = panels.acts(upd);
    let next = panels.after(upd);
    assert(panels.menu_due(upd));
    let menu = next.menu_acts();
    assert(menu.last() == PanelAct::SetMenuVisible(next.show_menu is Some));
    assert(acts[menu.len() - 1] == menu.last());
}

/// What a menu is drawn and placed by when it has just opened, and that it is shown.
proof fn lemma_opening_acts(panels: MonitorPanels, upd: Upd)
    requires
        upd matches Upd::Mouse(on, res) && panels.opens(on, res),
        panels.after(upd).show_menu is Some,
    ensures
        panels.acts(upd) == panels.after(upd).menu_acts(),
{
    assert(panels.acts(upd) =~= panels.after(upd).menu_acts());
}

/// The mouse over an element of the bar with a tooltip opens that tooltip where
/// the mouse is, unless a context menu is open. It is placed there, drawn behind
/// two cells of padding, and shown.
pub proof fn law_tooltip_opens_under_the_mouse(
    panels: MonitorPanels,
    at: Location,
    tooltip: Opened,
)
    requires
        panels.show_menu matches Some(menu) ==> menu.kind == MenuKind::Tooltip,
    ensures
        ({
            let upd = Upd::Mouse(
                TermKind::Bar,
                MouseResult::HoverTooltip { pix_location: at, tooltip: Some(tooltip) },
            );
            &&& panels.after(upd) == (MonitorPanels {
                show_menu: Some(
                    ShowMenu {
                        kind: MenuKind::Tooltip,
                        pix_location: at,
                        cached_size: tooltip.size,
                        font_size: panels.menu_sizes.font_size,
                        tui: tooltip.tui,
                    },
                ),
                ..panels
            })
            &&& panels.acts(upd) == seq![
                PanelAct::PlaceMenu(
                    placement(
                        at.x,
                        tooltip.size,
                        panels.menu_sizes.font_size.width,
                        panels.width,
                        true,
                    ),
                ),
                PanelAct::RenderMenu {
                    area: Area { x: 2, y: 0, size: tooltip.size },
                    font_size: panels.menu_sizes.font_size,
                },
                PanelAct::SetMenuVisible(true),
            ]
        }),
{
    let upd = Upd::Mouse(
        TermKind::Bar,
        MouseResult::HoverTooltip { pix_location: at, tooltip: Some(tooltip) },
    );
    lemma_opening_acts(panels, upd);
}

/// What is done with an element opens, as a context menu and where it was done,
/// what the element answers, or else its tooltip; whatever was open gives way. It
/// is placed there, drawn behind two cells of padding, and shown.
pub proof fn law_click_opens_a_context_menu(
    panels: MonitorPanels,
    on: TermKind,
    at: Location,
    menu: Opened,
    tooltip: Option<Opened>,
)
    ensures
        ({
            let answered = Upd::Mouse(
                on,
                MouseResult::Interact { pix_location: at, reaction: Some(menu), tooltip },
            );
            let unanswered = Upd::Mouse(
                on,
                MouseResult::Interact { pix_location: at, reaction: None, tooltip: Some(menu) },
            );
            &&& panels.after(answered) == (MonitorPanels {
                show_menu: Some(
                    ShowMenu {
                        kind: MenuKind::Context,
                        pix_location: at,
                        cached_size: menu.size,
                        font_size: panels.menu_sizes.font_size,
                        tui: menu.tui,
                    },
                ),
                ..panels
            })
            &&& panels.after(unanswered) == panels.after(answered)
            &&& panels.acts(unanswered) == panels.acts(answered)
            &&& panels.acts(answered) == seq![
                PanelAct::PlaceMenu(
                    placement(
                        at.x,
                        menu.size,
                        panels.menu_sizes.font_size.width,
                        panels.width,
                        true,
                    ),
                ),
                PanelAct::RenderMenu {
                    area: Area { x: 2, y: 0, size: menu.size },
                    font_size: panels.menu_sizes.font_size,
                },
                PanelAct::SetMenuVisible(true),
            ]
        }),
{
    let answered = Upd::Mouse(
        on,
        MouseResult::Interact { pix_location: at, reaction: Some(menu), tooltip },
    );
    let unanswered = Upd::Mouse(
        on,
        MouseResult::Interact { pix_location: at, reaction: None, tooltip: Some(menu) },
    );
    lemma_opening_acts(panels, answered);
    lemma_opening_acts(panels, unanswered);
}

/// What is done with the bar and answered by nothing closes the menu that is open:
/// it is hidden, and the mouse is taken to have left the bar. Where none is open,
/// nothing is done. In a menu, what nothing answers changes nothing.
pub proof fn law_unanswered_click_closes(panels: MonitorPanels, at: Location)
    ensures
        ({
            let nothing = MouseResult::Interact {
                pix_location: at,
                reaction: None,
                tooltip: None,
            };
            let on_bar = Upd::Mouse(TermKind::Bar, nothing);
            let beside = Upd::Mouse(TermKind::Bar, MouseResult::InteractEmpty);
            let in_menu = Upd::Mouse(TermKind::Menu, nothing);
            let menu_beside = Upd::Mouse(TermKind::Menu, MouseResult::InteractEmpty);
            &&& panels.after(on_bar) == (MonitorPanels { show_menu: None, ..panels })
            &&& panels.after(beside) == panels.after(on_bar)
            &&& panels.acts(beside) == panels.acts(on_bar)
            &&& panels.show_menu is None ==> panels.acts(on_bar).len() == 0
            &&& panels.show_menu is Some ==> panels.acts(on_bar) == seq![
                PanelAct::SetMenuVisible(false),
                PanelAct::ResetHover {
                    render: false,
                    area: Area { x: 0, y: 0, size: panels.bar_sizes.cell_size },
                    font_size: panels.bar_sizes.font_size,
                },
            ]
            &&& panels.after(in_menu) == panels
            &&& panels.after(menu_beside) == panels
            &&& panels.acts(in_menu).len() == 0
            &&& panels.acts(menu_beside).len() == 0
        }),
{
    let nothing = MouseResult::Interact { pix_location: at, reaction: None, tooltip: None };
    let on_bar = Upd::Mouse(TermKind::Bar, nothing);
    let beside = Upd::Mouse(TermKind::Bar, MouseResult::InteractEmpty);
    assert(panels.acts(beside) =~= panels.acts(on_bar));
    if panels.show_menu is Some {
        assert(panels.acts(on_bar) =~= seq![
            PanelAct::SetMenuVisible(false),
            PanelAct::ResetHover {
                render: false,
                area: Area { x: 0, y: 0, size: panels.bar_sizes.cell_size },
                font_size: panels.bar_sizes.font_size,
            },
        ]);
    }
}

/// A mouse over no element of the bar closes a tooltip and leaves a context menu
/// open. The bar is drawn, since nothing in it is under the mouse any more.
pub proof fn law_moving_away_closes_a_tooltip(panels: MonitorPanels)
    ensures
        ({
            let upd = Upd::Mouse(TermKind::Bar, MouseResult::HoverEmpty);
            let area = Area { x: 0, y: 0, size: panels.bar_sizes.cell_size };
            let font_size = panels.bar_sizes.font_size;
            let tooltip = panels.show_menu matches Some(menu) && menu.kind == MenuKind::Tooltip;
            &&& tooltip ==> panels.after(upd) == (MonitorPanels { show_menu: None, ..panels })
                && panels.acts(upd) == seq![
                PanelAct::SetMenuVisible(false),
                PanelAct::ResetHover { render: true, area, font_size },
            ]
            &&& !tooltip ==> panels.after(upd) == panels && panels.acts(upd) == seq![
                PanelAct::RenderBar { area, font_size },
            ]
        }),
{
    let upd = Upd::Mouse(TermKind::Bar, MouseResult::HoverEmpty);
    let area = Area { x: 0, y: 0, size: panels.bar_sizes.cell_size };
    let font_size = panels.bar_sizes.font_size;
    if panels.shows(MenuKind::Tooltip) {
        assert(panels.acts(upd) =~= seq![
            PanelAct::SetMenuVisible(false),
            PanelAct::ResetHover { render: true, area, font_size },
        ]);
    } else {
        assert(panels.acts(upd) =~= seq![PanelAct::RenderBar { area, font_size }]);
    }
}

/// A mouse that moves in the menu draws it again, and leaves it what and where it
/// is.
pub proof fn law_moving_in_the_menu_draws_it(panels: MonitorPanels, res: MouseResult)
    requires
        res is HoverChanged || res is HoverEmpty || res is HoverTooltip,
    ensures
        ({
            let upd = Upd::Mouse(TermKind::Menu, res);
            &&& panels.after(upd) == panels
            &&& panels.show_menu matches Some(menu) ==> panels.acts(upd) == seq![
                PanelAct::PlaceMenu(
                    placement(
                        menu.pix_location.x,
                        menu.cached_size,
                        panels.menu_sizes.font_size.width,
                        panels.width,
                        true,
                    ),
                ),
                PanelAct::RenderMenu {
                    area: Area { x: 2, y: 0, size: menu.cached_size },
                    font_size: menu.font_size,
                },
                PanelAct::SetMenuVisible(true),
            ]
        }),
{
    let upd = Upd::Mouse(TermKind::Menu, res);
    if let Some(menu) = panels.show_menu {
        assert(panels.acts(upd) =~= panels.menu_acts());
    }
}

/// Nothing follows from a mouse that did nothing of note, from one that moved on
/// inside the bar, or over an element of the bar that has no tooltip to show.
pub proof fn law_idle_mouse_does_nothing(panels: MonitorPanels, on: TermKind, at: Location)
    ensures
        panels.after(Upd::Mouse(on, MouseResult::Ignore)) == panels,
        panels.acts(Upd::Mouse(on, MouseResult::Ignore)).len() == 0,
        panels.after(Upd::Mouse(TermKind::Bar, MouseResult::HoverChanged)) == panels,
        panels.acts(Upd::Mouse(TermKind::Bar, MouseResult::HoverChanged)).len() == 0,
        panels.after(
            Upd::Mouse(
                TermKind::Bar,
                MouseResult::HoverTooltip { pix_location: at, tooltip: None },
            ),
        ) == panels,
        panels.acts(
            Upd::Mouse(
                TermKind::Bar,
                MouseResult::HoverTooltip { pix_location: at, tooltip: None },
            ),
        ).len() == 0,
        panels.after(Upd::Other) == panels,
        panels.acts(Upd::Other).len() == 0,
{
}

/// The bar holds what it was last given and is drawn over its whole terminal. New
/// sizes are kept for the terminal that they are of; those of the bar have
/// everything looked at again.
pub proof fn law_panels_take_what_they_are_given(panels: MonitorPanels, tui: Elem, sizes: Sizes)
    ensures
        panels.after(Upd::BarTui(tui)) == (MonitorPanels { bar: tui, ..panels }),
        panels.acts(Upd::BarTui(tui)) == seq![
            PanelAct::RenderBar {
                area: Area { x: 0, y: 0, size: panels.bar_sizes.cell_size },
                font_size: panels.bar_sizes.font_size,
            },
        ],
        panels.after(Upd::Sizes(TermKind::Bar, sizes)) == (MonitorPanels {
            bar_sizes: sizes,
            ..panels
        }),
        panels.acts(Upd::Sizes(TermKind::Bar, sizes)) == seq![PanelAct::Reload],
        panels.after(Upd::Sizes(TermKind::Menu, sizes)) == (MonitorPanels {
            menu_sizes: sizes,
            ..panels
        }),
        panels.acts(Upd::Sizes(TermKind::Menu, sizes)).len() == 0,
{
    assert(panels.acts(Upd::BarTui(tui)) =~= seq![
        PanelAct::RenderBar {
            area: Area { x: 0, y: 0, size: panels.bar_sizes.cell_size },
            font_size: panels.bar_sizes.font_size,
        },
    ]);
    assert(panels.acts(Upd::Sizes(TermKind::Bar, sizes)) =~= seq![PanelAct::Reload]);
}

/// A panel of the menu that went away by itself takes the menu with it, and the
/// mouse is taken to have left the bar.
pub proof fn law_menu_goes_with_its_panel(panels: MonitorPanels)
    ensures
        panels.after(Upd::MenuWatcherHide) == (MonitorPanels { show_menu: None, ..panels }),
        panels.acts(Upd::MenuWatcherHide) == seq![
            PanelAct::ResetHover {
                render: false,
                area: Area { x: 0, y: 0, size: panels.bar_sizes.cell_size },
                font_size: panels.bar_sizes.font_size,
            },
        ],
{
    assert(panels.acts(Upd::MenuWatcherHide) =~= seq![
        PanelAct::ResetHover {
            render: false,
            area: Area { x: 0, y: 0, size: panels.bar_sizes.cell_size },
            font_size: panels.bar_sizes.font_size,
        },
    ]);
}

} // verus!
