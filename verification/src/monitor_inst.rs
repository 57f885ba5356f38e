//! The bar and the menu of one monitor: where they are put, when they are drawn,
//! and what the controller hears of them.
use vstd::prelude::*;
use crate::bar_states::BarTuiState;
use crate::host::{HostEvent, InteractEvent, OpenMenu, TermEvent, TermInfo, TermKind};
use crate::strs::{dec, joined, owned, texts, with_number};
use crate::tui::{Area, CustomId, Elem, ElemView, InteractKind, Location, Size, Sizes};

verus! {

/// Cells that a menu gets on top of its width, half of them on each side.
pub const HORIZONTAL_PADDING: u16 = 4;

/// Whether a menu of the host gets an extra line, with its content centered by
/// a padding of half a cell.
pub const VERTICAL_PADDING: bool = false;

/// Where a menu is put: the distances from the left and the right edge of the
/// screen, in pixels, and the number of lines.
#[derive(Clone, Copy, Debug, PartialEq, Eq, Structural)]
pub struct MenuPlacement {
    pub left: u32,
    pub right: u32,
    pub lines: u16,
}

/// Half the width of a menu in pixels, rounded up.
pub open spec fn half_width(cells: u16, font_width: u16) -> int {
    ((cells + HORIZONTAL_PADDING) * font_width + 1) / 2
}

/// The point nearest to `x` around which a menu of that half width fits on a
/// screen of that width. One that fits nowhere goes as far left as its right
/// half asks for.
pub open spec fn menu_center(x: int, half: int, width: int) -> int {
    let most = if width >= half {
        width - half
    } else {
        0
    };
    let least = if x >= half {
        x
    } else {
        half
    };
    if least <= most {
        least
    } else {
        most
    }
}

/// The room that is left of `total` after `part`, if any.
pub open spec fn rest(total: int, part: int) -> int {
    if total >= part {
        total - part
    } else {
        0
    }
}

/// The lines of a menu: those of its content, and one more where it is padded
/// and one more can be counted.
pub open spec fn lines_of(height: u16, padded: bool) -> int {
    if padded && height < u16::MAX {
        height + 1
    } else {
        height as int
    }
}

/// Where a menu of a given size goes that belongs to the point `x` of a screen.
pub open spec fn placement(
    x: u32,
    size: Size,
    font_width: u16,
    screen_width: u32,
    padded: bool,
) -> MenuPlacement {
    let half = half_width(size.width, font_width);
    let center = menu_center(x as int, half, screen_width as int);
    MenuPlacement {
        left: rest(center, half) as u32,
        right: rest(screen_width - center, half) as u32,
        lines: lines_of(size.height, padded) as u16,
    }
}

/// Half the width of a menu in pixels, rounded up.
pub fn half_pix_width(cells: u16, font_width: u16) -> (r: u32)
    requires
        cells + HORIZONTAL_PADDING <= u16::MAX,
    ensures
        r == half_width(cells, font_width),
        r <= 0x7fff_ffff,
{
    let cell_w: u16 = cells + HORIZONTAL_PADDING;
    assert(0 <= cell_w as int * font_width as int <= 0xffff * 0xffff) by (nonlinear_arith)
        requires
            cell_w <= 0xffffu16,
            font_width <= 0xffffu16,
    ;
    let pix_w: u32 = cell_w as u32 * font_width as u32;
    pix_w / 2 + pix_w % 2
}

/// There is no way to say where a panel goes: only its margins can be set. So
/// both the place and the width of a menu are given by its margins.
pub fn place_menu(
    x: u32,
    size: Size,
    font_width: u16,
    screen_width: u32,
    padded: bool,
) -> (r: MenuPlacement)
    requires
        size.width + HORIZONTAL_PADDING <= u16::MAX,
    ensures
        r == placement(x, size, font_width, screen_width, padded),
{
    let half = half_pix_width(size.width, font_width);
    let most: u32 = screen_width.saturating_sub(half);
    let least: u32 = if x >= half {
        x
    } else {
        half
    };
    let center: u32 = if least <= most {
        least
    } else {
        most
    };
    let left: u32 = center.saturating_sub(half);
    let right: u32 = (screen_width - center).saturating_sub(half);
    let extra: u16 = if padded {
        1
    } else {
        0
    };
    MenuPlacement { left, right, lines: size.height.saturating_add(extra) }
}

/// A menu that fits on the screen gets exactly its width, rounded up to whole
/// pixels on each side, and one that does not gets the whole screen.
pub proof fn law_menu_gets_its_width(
    x: u32,
    size: Size,
    font_width: u16,
    screen_width: u32,
    padded: bool,
)
    requires
        size.width + HORIZONTAL_PADDING <= u16::MAX,
    ensures
        ({
            let half = half_width(size.width, font_width);
            let placed = placement(x, size, font_width, screen_width, padded);
            &&& 2 * half <= screen_width ==> placed.left + 2 * half + placed.right == screen_width
            &&& 2 * half > screen_width ==> placed.left == 0 && placed.right == 0
        }),
{
    let cells = size.width + HORIZONTAL_PADDING;
    assert(0 <= cells * font_width) by (nonlinear_arith)
        requires
            cells >= 0,
            font_width >= 0,
    ;
}

/// A menu whose halves fit left and right of its point is centered on it.
pub proof fn law_menu_is_centered(
    x: u32,
    size: Size,
    font_width: u16,
    screen_width: u32,
    padded: bool,
)
    requires
        size.width + HORIZONTAL_PADDING <= u16::MAX,
        half_width(size.width, font_width) <= x <= screen_width - half_width(
            size.width,
            font_width,
        ),
    ensures
        ({
            let half = half_width(size.width, font_width);
            let placed = placement(x, size, font_width, screen_width, padded);
            &&& placed.left + half == x
            &&& x + half + placed.right == screen_width
        }),
{
    let cells = size.width + HORIZONTAL_PADDING;
    assert(0 <= cells * font_width) by (nonlinear_arith)
        requires
            cells >= 0,
            font_width >= 0,
    ;
}

/// The two halves of a menu make up its cells, with two more on each side, and
/// one pixel more where that is an odd number of pixels.
pub proof fn law_halves_make_up_the_menu(cells: u16, font_width: u16)
    ensures
        ({
            let pixels = (cells + 4) * font_width;
            let both = 2 * half_width(cells, font_width);
            &&& pixels % 2 == 0 ==> both == pixels
            &&& pixels % 2 != 0 ==> both == pixels + 1
        }),
{
    assert(0 <= (cells + 4) * font_width) by (nonlinear_arith)
        requires
            cells >= 0,
            font_width >= 0,
    ;
}

/// A menu that fits on the screen, but not centered on its point, touches the
/// edge that is in its way.
pub proof fn law_menu_stops_at_the_edge(
    x: u32,
    size: Size,
    font_width: u16,
    screen_width: u32,
    padded: bool,
)
    requires
        2 * half_width(size.width, font_width) <= screen_width,
    ensures
        ({
            let half = half_width(size.width, font_width);
            let placed = placement(x, size, font_width, screen_width, padded);
            &&& x <= half ==> placed.left == 0 && placed.right == screen_width - 2 * half
            &&& x >= screen_width - half ==> placed.right == 0 && placed.left == screen_width - 2
                * half
        }),
{
    assert(0 <= (size.width + 4) * font_width) by (nonlinear_arith)
        requires
            size.width >= 0,
            font_width >= 0,
    ;
}

/// A menu has as many lines as its content, and one more exactly where it is
/// padded and one more can be counted.
pub proof fn law_menu_has_the_lines_of_its_content(
    x: u32,
    size: Size,
    font_width: u16,
    screen_width: u32,
)
    ensures
        placement(x, size, font_width, screen_width, false).lines == size.height,
        size.height < u16::MAX ==> placement(x, size, font_width, screen_width, true).lines
            == size.height + 1,
        size.height == u16::MAX ==> placement(x, size, font_width, screen_width, true).lines
            == u16::MAX,
{
}

/// The remote-control command that shows or hides a panel.
pub open spec fn vis_command(vis: bool) -> Seq<Seq<char>> {
    seq![
        "resize-os-window"@,
        if vis {
            "--action=show"@
        } else {
            "--action=hide"@
        },
    ]
}

pub fn set_vis_update(vis: bool) -> (r: Vec<String>)
    ensures
        texts(r@) == vis_command(vis),
{
    let action = if vis {
        "--action=show"
    } else {
        "--action=hide"
    };
    let r = vec![owned("resize-os-window"), owned(action)];
    proof {
        assert(texts(r@) =~= vis_command(vis));
    }
    r
}

/// The remote-control command that puts a menu in its place. The margins are
/// in pixels of the compositor.
pub open spec fn place_command(margin_left: u32, margin_right: u32, lines: u16) -> Seq<Seq<char>> {
    seq![
        "resize-os-window"@,
        "--incremental"@,
        "--action=os-panel"@,
        "margin-left="@ + dec(margin_left as nat),
        "margin-right="@ + dec(margin_right as nat),
        "lines="@ + dec(lines as nat),
    ]
}

pub fn place_update(margin_left: u32, margin_right: u32, lines: u16) -> (r: Vec<String>)
    ensures
        texts(r@) == place_command(margin_left, margin_right, lines),
{
    let r = vec![
        owned("resize-os-window"),
        owned("--incremental"),
        owned("--action=os-panel"),
        with_number("margin-left=", margin_left as u64),
        with_number("margin-right=", margin_right as u64),
        with_number("lines=", lines as u64),
    ];
    proof {
        assert(texts(r@) =~= place_command(margin_left, margin_right, lines));
    }
    r
}

/// A panel is shown or hidden by the one word in which the two commands differ.
pub proof fn law_visibility_commands(vis: bool)
    ensures
        vis_command(vis).len() == 2,
        vis_command(vis)[0] == "resize-os-window"@,
        vis_command(true)[1] == "--action=show"@,
        vis_command(false)[1] == "--action=hide"@,
{
}

/// The command that places a menu carries its margins and its lines, each behind
/// its own name.
pub proof fn law_place_command_carries_its_numbers(left: u32, right: u32, lines: u16)
    ensures
        ({
            let command = place_command(left, right, lines);
            &&& command.len() == 6
            &&& command[0] == "resize-os-window"@
            &&& command[1] == "--incremental"@
            &&& command[2] == "--action=os-panel"@
            &&& command[3] == "margin-left="@ + dec(left as nat)
            &&& command[4] == "margin-right="@ + dec(right as nat)
            &&& command[5] == "lines="@ + dec(lines as nat)
        }),
{
}

/// A menu that is shown: what it holds, how large that is for the size of the
/// font it was measured with, and where it belongs.
#[derive(Debug)]
pub struct ShowMenu {
    pub pix_location: Location,
    pub cached_size: Size,
    pub font_size: Size,
    pub tui: Elem,
    pub bar_anchor: CustomId,
}

/// What was measured for a menu that is to be opened: where its anchor stands
/// in the bar, if it is there, and the size of its content.
#[derive(Clone, Copy, Debug, PartialEq, Eq, Structural)]
pub struct Measured {
    pub anchor: Option<Location>,
    pub min_size: Size,
}

/// What the mouse did in a terminal.
#[derive(Debug)]
pub enum MouseEventRes {
    Interact { kind: InteractKind, tag: Option<CustomId>, changed: bool, rerender: bool },
    MouseLeave { rerender: bool },
}

/// What happens around a monitor.
#[derive(Debug)]
pub enum Upd {
    BarHidden(bool),
    BarTui(Elem),
    OpenMenu(Option<OpenMenu>, Measured),
    Mouse(TermKind, MouseEventRes),
    Sizes(TermKind, Sizes),
    /// An event of a terminal that nothing depends on.
    Other,
}

/// What is to be done in answer, in this order.
#[derive(Debug)]
pub enum MonitorAct {
    /// What was known of the layout of the menu no longer holds.
    ResetMenuLayout,
    /// Tell the controller.
    Tell(HostEvent),
    PlaceMenu(MenuPlacement),
    /// Draw the open menu, laid out for the given size of the font.
    RenderMenu { area: Area, font_size: Size },
    SetMenuVisible(bool),
    /// Draw the bar. Where that fails, nothing that follows is done.
    RenderBar { area: Area, font_size: Size },
    SetBarVisible(bool),
}

/// A monitor with its bar and its menu.
#[derive(Debug)]
pub struct MonitorMain {
    pub monitor: String,
    pub width: u32,
    pub show_menu: Option<ShowMenu>,
    pub bar: BarTuiState,
    pub bar_sizes: Sizes,
    pub menu_sizes: Sizes,
}

/// The menu that stands after a request to open one.
pub open spec fn menu_after(
    shown: Option<ShowMenu>,
    open: OpenMenu,
    measured: Measured,
    font_size: Size,
) -> ShowMenu {
    ShowMenu {
        pix_location: match shown {
            Some(menu) if menu.bar_anchor@ == open.bar_anchor@ => menu.pix_location,
            _ => match measured.anchor {
                Some(location) => location,
                None => Location { x: 0, y: 0 },
            },
        },
        cached_size: measured.min_size,
        font_size,
        tui: open.tui,
        bar_anchor: open.bar_anchor,
    }
}

impl ShowMenu {
    /// Opens a menu in place of the one that is shown. As long as the anchor
    /// stays the same the menu stays where it is.
    pub fn update(
        this: &mut Option<ShowMenu>,
        open: OpenMenu,
        measured: Measured,
        font_size: Size,
    )
        ensures
            *final(this) == Some(menu_after(*old(this), open, measured, font_size)),
    {
        let kept: Option<Location> = match &*this {
            Some(menu) => if menu.bar_anchor.same(&open.bar_anchor) {
                Some(menu.pix_location)
            } else {
                None
            },
            None => None,
        };
        let pix_location = match kept {
            Some(location) => location,
            None => match measured.anchor {
                Some(location) => location,
                None => Location { x: 0, y: 0 },
            },
        };
        *this = Some(
            ShowMenu {
                pix_location,
                cached_size: measured.min_size,
                font_size,
                tui: open.tui,
                bar_anchor: open.bar_anchor,
            },
        );
    }
}

/// The area in which a menu is drawn: its own size, whatever the terminal has,
/// behind half of the padding.
pub open spec fn menu_area(size: Size) -> Area {
    Area { x: HORIZONTAL_PADDING / 2, y: 0, size }
}

/// The area in which a bar is drawn: the whole terminal.
pub open spec fn bar_area(size: Size) -> Area {
    Area { x: 0, y: 0, size }
}

impl MonitorMain {
    /// The menu, if there is one, is not too wide to be counted in cells with
    /// its padding.
    pub open spec fn wf(&self) -> bool {
        self.show_menu matches Some(menu) ==> menu.cached_size.width + HORIZONTAL_PADDING
            <= u16::MAX
    }

    /// Whether a request to open a menu is for this monitor.
    pub open spec fn is_mine(&self, open: Option<OpenMenu>) -> bool {
        open matches Some(open) && open.monitor@ == self.monitor@
    }

    /// Whether nothing at all follows from an event.
    pub open spec fn skips(&self, upd: Upd) -> bool {
        upd matches Upd::OpenMenu(open, _) && !self.is_mine(open) && self.show_menu is None
    }

    /// The state after an event.
    pub open spec fn after(self, upd: Upd) -> MonitorMain {
        match upd {
            Upd::BarHidden(hidden) => MonitorMain {
                bar: BarTuiState { tui: self.bar.tui, hidden },
                ..self
            },
            Upd::BarTui(tui) => MonitorMain {
                bar: BarTuiState { tui, hidden: self.bar.hidden },
                ..self
            },
            Upd::OpenMenu(open, measured) => MonitorMain {
                show_menu: if self.is_mine(open) {
                    Some(
                        menu_after(
                            self.show_menu,
                            open->0,
                            measured,
                            self.menu_sizes.font_size,
                        ),
                    )
                } else {
                    None
                },
                ..self
            },
            Upd::Mouse(_, _) => self,
            Upd::Sizes(TermKind::Menu, sizes) => MonitorMain { menu_sizes: sizes, ..self },
            Upd::Sizes(TermKind::Bar, sizes) => MonitorMain { bar_sizes: sizes, ..self },
            Upd::Other => self,
        }
    }

    /// Whether an event changes how the terminal of that kind looks.
    pub open spec fn redraws(upd: Upd, kind: TermKind) -> bool {
        match upd {
            Upd::Mouse(on, MouseEventRes::Interact { rerender, .. }) => on == kind && rerender,
            Upd::Mouse(on, MouseEventRes::MouseLeave { rerender }) => on == kind && rerender,
            _ => false,
        }
    }

    /// Whether the menu is to be put and drawn anew after an event.
    pub open spec fn menu_due(self, upd: Upd) -> bool {
        match upd {
            Upd::OpenMenu(_, _) => !self.skips(upd),
            Upd::Sizes(TermKind::Menu, sizes) => sizes.font_size != self.menu_sizes.font_size,
            _ => Self::redraws(upd, TermKind::Menu),
        }
    }

    /// Whether the content of the bar is to be drawn anew after an event.
    pub open spec fn bar_due(self, upd: Upd) -> bool {
        match upd {
            Upd::BarTui(_) => true,
            Upd::Sizes(TermKind::Bar, _) => true,
            _ => Self::redraws(upd, TermKind::Bar),
        }
    }

    /// Whether an event hides or shows the bar.
    pub open spec fn vis_changes(self, upd: Upd) -> bool {
        upd matches Upd::BarHidden(hidden) && hidden != self.bar.hidden
    }

    /// What the controller hears of an event: every click and every turn of the
    /// wheel, a hovering mouse only where it is over something else than before,
    /// and that the mouse has left.
    pub open spec fn told(self, upd: Upd) -> Seq<MonitorAct> {
        match upd {
            Upd::Mouse(on, MouseEventRes::Interact { kind, tag, changed, .. }) => if changed || kind
                != InteractKind::Hover {
                seq![
                    MonitorAct::Tell(
                        HostEvent::Term(
                            TermInfo { monitor: self.monitor, kind: on },
                            TermEvent::Interact(InteractEvent { kind, tag }),
                        ),
                    ),
                ]
            } else {
                Seq::empty()
            },
            Upd::Mouse(on, MouseEventRes::MouseLeave { .. }) => seq![
                MonitorAct::Tell(
                    HostEvent::Term(
                        TermInfo { monitor: self.monitor, kind: on },
                        TermEvent::MouseLeave,
                    ),
                ),
            ],
            _ => Seq::empty(),
        }
    }

    /// Putting, drawing and showing or hiding the menu.
    pub open spec fn menu_acts(self) -> Seq<MonitorAct> {
        match self.show_menu {
            Some(menu) => seq![
                MonitorAct::PlaceMenu(
                    placement(
                        menu.pix_location.x,
                        menu.cached_size,
                        self.menu_sizes.font_size.width,
                        self.width,
                        VERTICAL_PADDING,
                    ),
                ),
                MonitorAct::RenderMenu {
                    area: menu_area(menu.cached_size),
                    font_size: menu.font_size,
                },
                MonitorAct::SetMenuVisible(true),
            ],
            None => seq![MonitorAct::SetMenuVisible(false)],
        }
    }

    /// What is to be done in answer to an event.
    pub open spec fn acts(self, upd: Upd) -> Seq<MonitorAct> {
        let next = self.after(upd);
        let reset = if upd is OpenMenu && !self.skips(upd) {
            seq![MonitorAct::ResetMenuLayout]
        } else {
            Seq::empty()
        };
        let menu = if self.menu_due(upd) {
            next.menu_acts()
        } else {
            Seq::empty()
        };
        let bar = if !next.bar.hidden && (self.vis_changes(upd) || self.bar_due(upd)) {
            seq![
                MonitorAct::RenderBar {
                    area: bar_area(next.bar_sizes.cell_size),
                    font_size: next.bar_sizes.font_size,
                },
            ]
        } else {
            Seq::empty()
        };
        let vis = if self.vis_changes(upd) {
            seq![MonitorAct::SetBarVisible(!next.bar.hidden)]
        } else {
            Seq::empty()
        };
        reset + self.told(upd) + menu + bar + vis
    }

    /// A monitor whose terminals have just come up: an empty bar that is shown,
    /// and no menu.
    pub fn new(monitor: String, width: u32, bar_sizes: Sizes, menu_sizes: Sizes) -> (r: Self)
        ensures
            r.wf(),
            r.monitor == monitor,
            r.width == width,
            r.show_menu is None,
            r.bar.tui@ == ElemView::Empty,
            !r.bar.hidden,
            r.bar_sizes == bar_sizes,
            r.menu_sizes == menu_sizes,
    {
        MonitorMain {
            monitor,
            width,
            show_menu: None,
            bar: BarTuiState { tui: Elem::empty(), hidden: false },
            bar_sizes,
            menu_sizes,
        }
    }

    /// Takes in one event.
    pub fn step(&mut self, upd: Upd) -> (r: Vec<MonitorAct>)
        requires
            old(self).wf(),
            upd matches Upd::OpenMenu(_, measured) ==> measured.min_size.width + HORIZONTAL_PADDING
                <= u16::MAX,
        ensures
            final(self).wf(),
            *final(self) == old(self).after(upd),
            r@ == old(self).acts(upd),
    {
        let ghost start = *self;
        let mut acts: Vec<MonitorAct> = Vec::new();
        let mut rerender_menu = false;
        let mut bar_tui_changed = false;
        let mut bar_vis_changed = false;
        match upd {
            Upd::BarHidden(hidden) => {
                bar_vis_changed = hidden != self.bar.hidden;
                self.bar.hidden = hidden;
            },
            Upd::BarTui(tui) => {
                self.bar.tui = tui;
                bar_tui_changed = true;
            },
            Upd::OpenMenu(open, measured) => {
                let mine = match &open {
                    Some(open) => open.monitor == self.monitor,
                    None => false,
                };
                if !mine && self.show_menu.is_none() {
                    proof {
                        assert(acts@ =~= start.acts(upd));
                    }
                    return acts;
                }
                match open {
                    Some(open) if mine => {
                        ShowMenu::update(
                            &mut self.show_menu,
                            open,
                            measured,
                            self.menu_sizes.font_size,
                        );
                    },
                    _ => {
                        self.show_menu = None;
                    },
                }
                acts.push(MonitorAct::ResetMenuLayout);
                rerender_menu = true;
            },
            Upd::Mouse(on, MouseEventRes::Interact { kind, tag, changed, rerender }) => {
                if rerender {
                    match on {
                        TermKind::Menu => {
                            rerender_menu = true;
                        },
                        TermKind::Bar => {
                            bar_tui_changed = true;
                        },
                    }
                }
                if changed || kind != InteractKind::Hover {
                    acts.push(
                        MonitorAct::Tell(
                            HostEvent::Term(
                                TermInfo { monitor: self.monitor.clone(), kind: on },
                                TermEvent::Interact(InteractEvent { kind, tag }),
                            ),
                        ),
                    );
                }
            },
            Upd::Mouse(on, MouseEventRes::MouseLeave { rerender }) => {
                if rerender {
                    match on {
                        TermKind::Menu => {
                            rerender_menu = true;
                        },
                        TermKind::Bar => {
                            bar_tui_changed = true;
                        },
                    }
                }
                acts.push(
                    MonitorAct::Tell(
                        HostEvent::Term(
                            TermInfo { monitor: self.monitor.clone(), kind: on },
                            TermEvent::MouseLeave,
                        ),
                    ),
                );
            },
            Upd::Sizes(TermKind::Menu, sizes) => {
                if sizes.font_size != self.menu_sizes.font_size {
                    rerender_menu = true;
                }
                self.menu_sizes = sizes;
            },
            Upd::Sizes(TermKind::Bar, sizes) => {
                self.bar_sizes = sizes;
                bar_tui_changed = true;
            },
            Upd::Other => {},
        }
        proof {
            assert(*self == start.after(upd));
            assert(rerender_menu == start.menu_due(upd));
        }
        if rerender_menu {
            if let Some(menu) = &self.show_menu {
                acts.push(
                    MonitorAct::PlaceMenu(
                        place_menu(
                            menu.pix_location.x,
                            menu.cached_size,
                            self.menu_sizes.font_size.width,
                            self.width,
                            VERTICAL_PADDING,
                        ),
                    ),
                );
                acts.push(
                    MonitorAct::RenderMenu {
                        area: Area { x: HORIZONTAL_PADDING / 2, y: 0, size: menu.cached_size },
                        font_size: menu.font_size,
                    },
                );
            }
            acts.push(MonitorAct::SetMenuVisible(self.show_menu.is_some()));
        }
        if !self.bar.hidden && (bar_vis_changed || bar_tui_changed) {
            acts.push(
                MonitorAct::RenderBar {
                    area: Area { x: 0, y: 0, size: self.bar_sizes.cell_size },
                    font_size: self.bar_sizes.font_size,
                },
            );
        }
        if bar_vis_changed {
            acts.push(MonitorAct::SetBarVisible(!self.bar.hidden));
        }
        proof {
            assert(acts@ =~= start.acts(upd));
        }
        acts
    }
}

/// A bar that is hidden is not drawn.
pub proof fn law_hidden_bar_is_not_drawn(main: MonitorMain, upd: Upd, i: int)
    requires
        main.after(upd).bar.hidden,
        0 <= i < main.acts(upd).len(),
    ensures
        main.acts(upd)[i] !is RenderBar,
{
}

/// A bar that comes into view is drawn before it is shown.
pub proof fn law_bar_is_drawn_before_shown(main: MonitorMain, hidden: bool)
    requires
        main.bar.hidden,
        !hidden,
    ensures
        main.acts(Upd::BarHidden(hidden)) == seq![
            MonitorAct::RenderBar {
                area: bar_area(main.bar_sizes.cell_size),
                font_size: main.bar_sizes.font_size,
            },
            MonitorAct::SetBarVisible(true),
        ],
{
    assert(main.acts(Upd::BarHidden(hidden)) =~= seq![
        MonitorAct::RenderBar {
            area: bar_area(main.bar_sizes.cell_size),
            font_size: main.bar_sizes.font_size,
        },
        MonitorAct::SetBarVisible(true),
    ]);
}

/// A menu that is opened again at the same anchor stays where it is.
pub proof fn law_menu_keeps_its_place(
    main: MonitorMain,
    open: OpenMenu,
    measured: Measured,
)
    requires
        open.monitor@ == main.monitor@,
        main.show_menu matches Some(menu) && menu.bar_anchor@ == open.bar_anchor@,
    ensures
        main.after(Upd::OpenMenu(Some(open), measured)).show_menu matches Some(menu)
            && menu.pix_location == main.show_menu->0.pix_location && menu.tui == open.tui,
{
}

/// There is one menu for all monitors: opening one elsewhere, or closing it,
/// leaves none here.
pub proof fn law_menu_elsewhere_closes_this_one(
    main: MonitorMain,
    open: Option<OpenMenu>,
    measured: Measured,
)
    requires
        open matches Some(open) ==> open.monitor@ != main.monitor@,
    ensures
        main.after(Upd::OpenMenu(open, measured)).show_menu is None,
        main.show_menu is Some ==> main.acts(Upd::OpenMenu(open, measured)).last()
            == MonitorAct::SetMenuVisible(false),
        main.show_menu is None ==> main.acts(Upd::OpenMenu(open, measured)).len() == 0,
{
    let upd = Upd::OpenMenu(open, measured);
    if main.show_menu is Some {
        assert(main.acts(upd) =~= seq![
            MonitorAct::ResetMenuLayout,
            MonitorAct::SetMenuVisible(false),
        ]);
    }
}

/// Every click, every turn of the wheel and every hovering over something new
/// is told: once, first, with the name of the monitor, the terminal it happened
/// in, what the mouse did and the very tag it did it on. Nothing else is told
/// of it.
pub proof fn law_interaction_is_told(
    main: MonitorMain,
    on: TermKind,
    kind: InteractKind,
    tag: Option<CustomId>,
    changed: bool,
    rerender: bool,
)
    requires
        changed || kind != InteractKind::Hover,
    ensures
        ({
            let acts = main.acts(
                Upd::Mouse(on, MouseEventRes::Interact { kind, tag, changed, rerender }),
            );
            &&& acts.len() > 0
            &&& acts[0] == MonitorAct::Tell(
                HostEvent::Term(
                    TermInfo { monitor: main.monitor, kind: on },
                    TermEvent::Interact(InteractEvent { kind, tag }),
                ),
            )
            &&& forall|i: int| 0 < i < acts.len() ==> (#[trigger] acts[i]) !is Tell
        }),
{
}

/// That the mouse has left a terminal is told: once, first, with the name of the
/// monitor and the terminal that it left.
pub proof fn law_leaving_is_told(main: MonitorMain, on: TermKind, rerender: bool)
    ensures
        ({
            let acts = main.acts(Upd::Mouse(on, MouseEventRes::MouseLeave { rerender }));
            &&& acts.len() > 0
            &&& acts[0] == MonitorAct::Tell(
                HostEvent::Term(
                    TermInfo { monitor: main.monitor, kind: on },
                    TermEvent::MouseLeave,
                ),
            )
            &&& forall|i: int| 0 < i < acts.len() ==> (#[trigger] acts[i]) !is Tell
        }),
{
}

/// The controller hears of nothing but the mouse, and not of a mouse that stays
/// over what it was over.
pub proof fn law_only_the_mouse_is_told(main: MonitorMain, upd: Upd, i: int)
    requires
        0 <= i < main.acts(upd).len(),
        match upd {
            Upd::Mouse(_, MouseEventRes::Interact { kind, changed, .. }) => !changed && kind
                == InteractKind::Hover,
            Upd::Mouse(_, MouseEventRes::MouseLeave { .. }) => false,
            _ => true,
        },
    ensures
        main.acts(upd)[i] !is Tell,
{
}

/// Two clicks with the same outcome on the screen are told apart by what they
/// hit, and by what was done to it.
pub proof fn law_interactions_are_told_apart(
    main: MonitorMain,
    on: TermKind,
    kind1: InteractKind,
    tag1: Option<CustomId>,
    kind2: InteractKind,
    tag2: Option<CustomId>,
    rerender: bool,
)
    requires
        (kind1, tag1) != (kind2, tag2),
    ensures
        main.acts(
            Upd::Mouse(
                on,
                MouseEventRes::Interact { kind: kind1, tag: tag1, changed: true, rerender },
            ),
        ) != main.acts(
            Upd::Mouse(
                on,
                MouseEventRes::Interact { kind: kind2, tag: tag2, changed: true, rerender },
            ),
        ),
{
    law_interaction_is_told(main, on, kind1, tag1, true, rerender);
    law_interaction_is_told(main, on, kind2, tag2, true, rerender);
}

/// The mouse changes nothing that is kept of a monitor. What looks different
/// under it is drawn again: the menu where it was in the menu, a bar that is not
/// hidden where it was in the bar, and nothing where nothing looks different.
pub proof fn law_mouse_redraws_where_it_is(
    main: MonitorMain,
    on: TermKind,
    kind: InteractKind,
    tag: Option<CustomId>,
    changed: bool,
    rerender: bool,
)
    requires
        changed || kind != InteractKind::Hover,
    ensures
        ({
            let upd = Upd::Mouse(on, MouseEventRes::Interact { kind, tag, changed, rerender });
            let left = Upd::Mouse(on, MouseEventRes::MouseLeave { rerender });
            let drawn = main.acts(upd).skip(1);
            &&& main.after(upd) == main
            &&& main.after(left) == main
            &&& main.acts(left).skip(1) == drawn
            &&& !rerender || on is Bar && main.bar.hidden ==> drawn.len() == 0
            &&& rerender && on is Bar && !main.bar.hidden ==> drawn == seq![
                MonitorAct::RenderBar {
                    area: Area { x: 0, y: 0, size: main.bar_sizes.cell_size },
                    font_size: main.bar_sizes.font_size,
                },
            ]
            &&& rerender && on is Menu && main.show_menu is None ==> drawn == seq![
                MonitorAct::SetMenuVisible(false),
            ]
            &&& rerender && on is Menu ==> (main.show_menu matches Some(menu) ==> {
                &&& drawn.len() == 3
                &&& drawn[0] is PlaceMenu
                &&& drawn[1] == (MonitorAct::RenderMenu {
                    area: Area { x: 2, y: 0, size: menu.cached_size },
                    font_size: menu.font_size,
                })
                &&& drawn[2] == MonitorAct::SetMenuVisible(true)
            })
        }),
{
    let upd = Upd::Mouse(on, MouseEventRes::Interact { kind, tag, changed, rerender });
    let left = Upd::Mouse(on, MouseEventRes::MouseLeave { rerender });
    assert(main.acts(left).skip(1) =~= main.acts(upd).skip(1));
    if rerender && on is Bar && !main.bar.hidden {
        assert(main.acts(upd).skip(1) =~= seq![
            MonitorAct::RenderBar {
                area: Area { x: 0, y: 0, size: main.bar_sizes.cell_size },
                font_size: main.bar_sizes.font_size,
            },
        ]);
    }
    if rerender && on is Menu && main.show_menu is None {
        assert(main.acts(upd).skip(1) =~= seq![MonitorAct::SetMenuVisible(false)]);
    }
}

/// A hovering mouse that stays over what it was over draws what looks different
/// all the same.
pub proof fn law_untold_hovering_is_drawn(
    main: MonitorMain,
    on: TermKind,
    tag: Option<CustomId>,
    rerender: bool,
)
    ensures
        ({
            let kind = InteractKind::Hover;
            let told = MouseEventRes::Interact { kind, tag, changed: true, rerender };
            let untold = MouseEventRes::Interact { kind, tag, changed: false, rerender };
            main.acts(Upd::Mouse(on, untold)) == main.acts(Upd::Mouse(on, told)).skip(1)
        }),
{
    let kind = InteractKind::Hover;
    let told = MouseEventRes::Interact { kind, tag, changed: true, rerender };
    let untold = MouseEventRes::Interact { kind, tag, changed: false, rerender };
    assert(main.acts(Upd::Mouse(on, untold)) =~= main.acts(Upd::Mouse(on, told)).skip(1));
}

/// A menu that is opened on a monitor is kept with its content and its anchor,
/// with the size that was measured and for the font it was measured with. It
/// is then placed under its anchor, drawn behind two cells of padding, and
/// shown; the rest of the monitor stays as it is.
pub proof fn law_menu_is_opened(main: MonitorMain, open: OpenMenu, measured: Measured)
    requires
        open.monitor@ == main.monitor@,
    ensures
        ({
            let upd = Upd::OpenMenu(Some(open), measured);
            let acts = main.acts(upd);
            let after = main.after(upd);
            &&& after.show_menu matches Some(menu) && {
                &&& menu.tui == open.tui
                &&& menu.bar_anchor == open.bar_anchor
                &&& menu.cached_size == measured.min_size
                &&& menu.font_size == main.menu_sizes.font_size
                &&& main.show_menu is None ==> (measured.anchor matches Some(at)
                    ==> menu.pix_location == at)
                &&& (main.show_menu matches Some(old_menu) && old_menu.bar_anchor@
                    != open.bar_anchor@) ==> (measured.anchor matches Some(at)
                    ==> menu.pix_location == at)
                &&& acts == seq![
                    MonitorAct::ResetMenuLayout,
                    MonitorAct::PlaceMenu(
                        placement(
                            menu.pix_location.x,
                            measured.min_size,
                            main.menu_sizes.font_size.width,
                            main.width,
                            false,
                        ),
                    ),
                    MonitorAct::RenderMenu {
                        area: Area { x: 2, y: 0, size: measured.min_size },
                        font_size: main.menu_sizes.font_size,
                    },
                    MonitorAct::SetMenuVisible(true),
                ]
            }
            &&& after.monitor == main.monitor
            &&& after.width == main.width
            &&& after.bar == main.bar
            &&& after.bar_sizes == main.bar_sizes
            &&& after.menu_sizes == main.menu_sizes
        }),
{
    let upd = Upd::OpenMenu(Some(open), measured);
    let menu = main.after(upd).show_menu->0;
    assert(main.acts(upd) =~= seq![
        MonitorAct::ResetMenuLayout,
        MonitorAct::PlaceMenu(
            placement(
                menu.pix_location.x,
                measured.min_size,
                main.menu_sizes.font_size.width,
                main.width,
                false,
            ),
        ),
        MonitorAct::RenderMenu {
            area: Area { x: 2, y: 0, size: measured.min_size },
            font_size: main.menu_sizes.font_size,
        },
        MonitorAct::SetMenuVisible(true),
    ]);
}

/// A menu whose anchor is not in the bar goes to the left edge, unless there is
/// one at that anchor already.
pub proof fn law_menu_without_a_place_goes_left(
    main: MonitorMain,
    open: OpenMenu,
    measured: Measured,
)
    requires
        open.monitor@ == main.monitor@,
        measured.anchor is None,
        main.show_menu matches Some(menu) ==> menu.bar_anchor@ != open.bar_anchor@,
    ensures
        main.after(Upd::OpenMenu(Some(open), measured)).show_menu matches Some(menu)
            && menu.pix_location == (Location { x: 0, y: 0 }),
{
}

/// Opening a menu elsewhere, or closing it, takes away the menu of a monitor and
/// nothing else, and hides it once.
pub proof fn law_menu_is_taken_away(
    main: MonitorMain,
    open: Option<OpenMenu>,
    measured: Measured,
)
    requires
        open matches Some(open) ==> open.monitor@ != main.monitor@,
    ensures
        main.after(Upd::OpenMenu(open, measured)) == (MonitorMain { show_menu: None, ..main }),
        main.show_menu is Some ==> main.acts(Upd::OpenMenu(open, measured)) == seq![
            MonitorAct::ResetMenuLayout,
            MonitorAct::SetMenuVisible(false),
        ],
{
    let upd = Upd::OpenMenu(open, measured);
    if main.show_menu is Some {
        assert(main.acts(upd) =~= seq![
            MonitorAct::ResetMenuLayout,
            MonitorAct::SetMenuVisible(false),
        ]);
    }
}

/// A bar holds what it was last given, and stays hidden or shown as it was. What
/// it was given is drawn at once, over the whole terminal, unless it is hidden.
pub proof fn law_bar_takes_its_content(main: MonitorMain, tui: Elem)
    ensures
        main.after(Upd::BarTui(tui)).bar.tui == tui,
        main.after(Upd::BarTui(tui)).bar.hidden == main.bar.hidden,
        main.after(Upd::BarTui(tui)) == (MonitorMain {
            bar: main.after(Upd::BarTui(tui)).bar,
            ..main
        }),
        main.bar.hidden ==> main.acts(Upd::BarTui(tui)).len() == 0,
        !main.bar.hidden ==> main.acts(Upd::BarTui(tui)) == seq![
            MonitorAct::RenderBar {
                area: Area { x: 0, y: 0, size: main.bar_sizes.cell_size },
                font_size: main.bar_sizes.font_size,
            },
        ],
{
    if !main.bar.hidden {
        assert(main.acts(Upd::BarTui(tui)) =~= seq![
            MonitorAct::RenderBar {
                area: Area { x: 0, y: 0, size: main.bar_sizes.cell_size },
                font_size: main.bar_sizes.font_size,
            },
        ]);
    }
}

/// A bar is hidden or shown as it was last asked for, and keeps its content. It
/// is told to hide once when it was shown; to ask for what it already is does
/// nothing.
pub proof fn law_bar_hides_when_asked(main: MonitorMain, hidden: bool)
    ensures
        main.after(Upd::BarHidden(hidden)).bar.hidden == hidden,
        main.after(Upd::BarHidden(hidden)).bar.tui == main.bar.tui,
        main.after(Upd::BarHidden(hidden)) == (MonitorMain {
            bar: main.after(Upd::BarHidden(hidden)).bar,
            ..main
        }),
        hidden == main.bar.hidden ==> main.acts(Upd::BarHidden(hidden)).len() == 0,
        hidden && !main.bar.hidden ==> main.acts(Upd::BarHidden(hidden)) == seq![
            MonitorAct::SetBarVisible(false),
        ],
{
    if hidden && !main.bar.hidden {
        assert(main.acts(Upd::BarHidden(hidden)) =~= seq![MonitorAct::SetBarVisible(false)]);
    }
}

/// The sizes of each terminal are kept apart. A bar is drawn anew, over its new
/// size, whenever it is given one; a menu is placed and drawn anew exactly when
/// its font has changed, and with the width of the new one.
pub proof fn law_sizes_are_kept(main: MonitorMain, sizes: Sizes)
    ensures
        ({
            let on_bar = Upd::Sizes(TermKind::Bar, sizes);
            let on_menu = Upd::Sizes(TermKind::Menu, sizes);
            let acts = main.acts(on_menu);
            &&& main.after(on_bar) == (MonitorMain { bar_sizes: sizes, ..main })
            &&& main.after(on_menu) == (MonitorMain { menu_sizes: sizes, ..main })
            &&& main.bar.hidden ==> main.acts(on_bar).len() == 0
            &&& !main.bar.hidden ==> main.acts(on_bar) == seq![
                MonitorAct::RenderBar {
                    area: Area { x: 0, y: 0, size: sizes.cell_size },
                    font_size: sizes.font_size,
                },
            ]
            &&& sizes.font_size == main.menu_sizes.font_size ==> acts.len() == 0
            &&& sizes.font_size != main.menu_sizes.font_size && main.show_menu is None ==> acts
                == seq![MonitorAct::SetMenuVisible(false)]
            &&& sizes.font_size != main.menu_sizes.font_size ==> (main.show_menu matches Some(
                menu,
            ) ==> acts == seq![
                MonitorAct::PlaceMenu(
                    placement(
                        menu.pix_location.x,
                        menu.cached_size,
                        sizes.font_size.width,
                        main.width,
                        false,
                    ),
                ),
                MonitorAct::RenderMenu {
                    area: Area { x: 2, y: 0, size: menu.cached_size },
                    font_size: menu.font_size,
                },
                MonitorAct::SetMenuVisible(true),
            ])
        }),
{
    let on_bar = Upd::Sizes(TermKind::Bar, sizes);
    let on_menu = Upd::Sizes(TermKind::Menu, sizes);
    let acts = main.acts(on_menu);
    if !main.bar.hidden {
        assert(main.acts(on_bar) =~= seq![
            MonitorAct::RenderBar {
                area: Area { x: 0, y: 0, size: sizes.cell_size },
                font_size: sizes.font_size,
            },
        ]);
    }
    if sizes.font_size != main.menu_sizes.font_size {
        match main.show_menu {
            Some(menu) => {
                assert(acts =~= seq![
                    MonitorAct::PlaceMenu(
                        placement(
                            menu.pix_location.x,
                            menu.cached_size,
                            sizes.font_size.width,
                            main.width,
                            false,
                        ),
                    ),
                    MonitorAct::RenderMenu {
                        area: Area { x: 2, y: 0, size: menu.cached_size },
                        font_size: menu.font_size,
                    },
                    MonitorAct::SetMenuVisible(true),
                ]);
            },
            None => {
                assert(acts =~= seq![MonitorAct::SetMenuVisible(false)]);
            },
        }
    }
}

/// Nothing follows from an event of a terminal that nothing depends on.
pub proof fn law_other_events_do_nothing(main: MonitorMain)
    ensures
        main.after(Upd::Other) == main,
        main.acts(Upd::Other).len() == 0,
{
}

/// The edge of the screen at which the bar stands.
pub const EDGE: &'static str = "top";

/// Which glyphs come from the symbol font.
pub const NERD_FONT_CONFIG_OVERRIDE: &'static str =
    "-o=symbol_map U+e000-U+e00a,U+ea60-U+ebeb,U+e0a0-U+e0c8,U+e0ca,U+e0cc-U+e0d7,U+e200-U+e2a9,U+e300-U+e3e3,U+e5fa-U+e6b7,U+e700-U+e8ef,U+ed00-U+efc1,U+f000-U+f2ff,U+f000-U+f2e0,U+f300-U+f381,U+f400-U+f533,U+f0001-U+f1af0 Symbols Nerd Font Mono";

/// The arguments with which the terminal of a bar is started.
pub open spec fn bar_term_args(monitor: Seq<char>) -> Seq<Seq<char>> {
    seq![
        NERD_FONT_CONFIG_OVERRIDE@,
        "--output-name="@ + monitor,
        "-o=allow_remote_control=socket-only"@,
        "--listen-on=unix:/tmp/kitty-bar-panel.sock"@,
        "-o=forward_stdio=yes"@,
        "--config=NONE"@,
        "-o=foreground=white"@,
        "-o=background=black"@,
        "--edge="@ + EDGE@,
        "-o=mouse_hide_wait=0"@,
    ]
}

pub fn mk_bar_term_args(monitor: &str) -> (r: Vec<String>)
    ensures
        texts(r@) == bar_term_args(monitor@),
{
    let r = vec![
        owned(NERD_FONT_CONFIG_OVERRIDE),
        joined("--output-name=", monitor),
        // Remote control goes through a socket.
        owned("-o=allow_remote_control=socket-only"),
        owned("--listen-on=unix:/tmp/kitty-bar-panel.sock"),
        // Logging goes to the standard streams that the terminal forwards.
        owned("-o=forward_stdio=yes"),
        // The user's own configuration of the terminal is left out.
        owned("--config=NONE"),
        owned("-o=foreground=white"),
        owned("-o=background=black"),
        joined("--edge=", EDGE),
        // The mouse stays visible.
        owned("-o=mouse_hide_wait=0"),
    ];
    proof {
        assert(texts(r@) =~= bar_term_args(monitor@));
    }
    r
}

/// The arguments with which the terminal of a menu is started.
pub open spec fn menu_term_args(monitor: Seq<char>) -> Seq<Seq<char>> {
    seq![
        NERD_FONT_CONFIG_OVERRIDE@,
        "--output-name="@ + monitor,
        "-o=allow_remote_control=socket-only"@,
        "--listen-on=unix:/tmp/kitty-bar-menu-panel.sock"@,
        "-o=forward_stdio=yes"@,
        "--config=NONE"@,
        "-o=background_opacity=0.85"@,
        "-o=background=black"@,
        "-o=foreground=white"@,
        "-o=placement_strategy=center"@,
        "--edge=top"@,
        "-o=mouse_hide_wait=0"@,
        "--exclusive-zone=0"@,
        "--override-exclusive-zone"@,
        "--layer=overlay"@,
        "-o=resize_debounce_time=0 0"@,
    ]
}

pub fn mk_menu_term_args(monitor: &str) -> (r: Vec<String>)
    ensures
        texts(r@) == menu_term_args(monitor@),
{
    let r = vec![
        owned(NERD_FONT_CONFIG_OVERRIDE),
        joined("--output-name=", monitor),
        owned("-o=allow_remote_control=socket-only"),
        owned("--listen-on=unix:/tmp/kitty-bar-menu-panel.sock"),
        owned("-o=forward_stdio=yes"),
        owned("--config=NONE"),
        owned("-o=background_opacity=0.85"),
        owned("-o=background=black"),
        owned("-o=foreground=white"),
        // Content is centered in the pixels that the cells leave over.
        owned("-o=placement_strategy=center"),
        owned("--edge=top"),
        owned("-o=mouse_hide_wait=0"),
        // The panel lies on top of the windows and takes no room from them.
        owned("--exclusive-zone=0"),
        owned("--override-exclusive-zone"),
        owned("--layer=overlay"),
        // Resizes come from the program, so there is nothing to wait for.
        owned("-o=resize_debounce_time=0 0"),
    ];
    proof {
        assert(texts(r@) =~= menu_term_args(monitor@));
    }
    r
}

/// The remote-control commands that a menu gets before anything else: it is
/// hidden, and where menus are padded it gets room above and below.
pub open spec fn menu_init_commands(padded: bool) -> Seq<Seq<Seq<char>>> {
    if padded {
        seq![vis_command(false), seq!["set-spacing"@, "padding-top=1"@, "padding-bottom=1"@]]
    } else {
        seq![vis_command(false)]
    }
}

pub fn menu_init_updates(padded: bool) -> (r: Vec<Vec<String>>)
    ensures
        r@.len() == menu_init_commands(padded).len(),
        forall|i: int|
            0 <= i < r@.len() ==> texts((#[trigger] r@[i])@) == menu_init_commands(padded)[i],
{
    let mut r: Vec<Vec<String>> = Vec::new();
    r.push(set_vis_update(false));
    if padded {
        let spacing = vec![
            owned("set-spacing"),
            owned("padding-top=1"),
            owned("padding-bottom=1"),
        ];
        proof {
            assert(texts(spacing@) =~= seq!["set-spacing"@, "padding-top=1"@, "padding-bottom=1"@]);
        }
        r.push(spacing);
    }
    r
}

/// The terminals of a monitor are started on that monitor, at the top of the
/// screen, each with a socket of its own for its remote control.
pub proof fn law_terminals_start_on_their_monitor(monitor: Seq<char>)
    ensures
        bar_term_args(monitor).contains("--output-name="@ + monitor),
        menu_term_args(monitor).contains("--output-name="@ + monitor),
        bar_term_args(monitor).contains("--edge="@ + "top"@),
        menu_term_args(monitor).contains("--edge=top"@),
        bar_term_args(monitor).contains("--listen-on=unix:/tmp/kitty-bar-panel.sock"@),
        menu_term_args(monitor).contains("--listen-on=unix:/tmp/kitty-bar-menu-panel.sock"@),
        bar_term_args(monitor).contains("-o=allow_remote_control=socket-only"@),
        menu_term_args(monitor).contains("-o=allow_remote_control=socket-only"@),
        menu_term_args(monitor).contains("--layer=overlay"@),
{
    let bar = bar_term_args(monitor);
    let menu = menu_term_args(monitor);
    assert(bar[1] == "--output-name="@ + monitor);
    assert(menu[1] == "--output-name="@ + monitor);
    assert(bar[8] == "--edge="@ + "top"@);
    assert(menu[10] == "--edge=top"@);
    assert(bar[3] == "--listen-on=unix:/tmp/kitty-bar-panel.sock"@);
    assert(menu[3] == "--listen-on=unix:/tmp/kitty-bar-menu-panel.sock"@);
    assert(bar[2] == "-o=allow_remote_control=socket-only"@);
    assert(menu[2] == "-o=allow_remote_control=socket-only"@);
    assert(menu[14] == "--layer=overlay"@);
}

/// A menu is hidden before anything else, and where it is padded it then gets room
/// above and below.
pub proof fn law_menu_starts_hidden(padded: bool)
    ensures
        menu_init_commands(padded)[0] == vis_command(false),
        menu_init_commands(false).len() == 1,
        menu_init_commands(true).len() == 2,
        menu_init_commands(true)[1] == seq!["set-spacing"@, "padding-top=1"@, "padding-bottom=1"@],
{
}

/// The name under which the terminal of a monitor logs.
pub fn term_log_name(kind: TermKind, monitor: &str) -> (r: String)
    ensures
        r@ == (match kind {
            TermKind::Bar => "BAR@"@,
            TermKind::Menu => "MENU@"@,
        }) + monitor@,
{
    match kind {
        TermKind::Bar => joined("BAR@", monitor),
        TermKind::Menu => joined("MENU@", monitor),
    }
}

/// An event of a terminal that is starting.
#[derive(Clone, Copy, Debug, PartialEq, Eq, Structural)]
pub enum StartEvent {
    Sizes(Sizes),
    Other,
    Closed,
}

/// How a terminal comes up: it has to say first how large it is.
#[derive(Clone, Copy, Debug, PartialEq, Eq, Structural)]
pub enum Startup {
    Ready(Sizes),
    /// The event is left out of account; the next one decides.
    Waiting,
    Failed,
}

/// What an event means for a terminal that is starting.
pub open spec fn startup_of(event: StartEvent) -> Startup {
    match event {
        StartEvent::Sizes(sizes) => Startup::Ready(sizes),
        StartEvent::Other => Startup::Waiting,
        StartEvent::Closed => Startup::Failed,
    }
}

/// A terminal is up once it says how large it is, and with that size; it has failed
/// once it is closed; before that it is waited for.
pub proof fn law_terminal_comes_up_with_its_sizes(sizes: Sizes, event: StartEvent)
    ensures
        startup_of(StartEvent::Sizes(sizes)) == Startup::Ready(sizes),
        startup_of(event) is Ready <==> event is Sizes,
        startup_of(event) is Failed <==> event is Closed,
{
}

pub fn startup(event: StartEvent) -> (r: Startup)
    ensures
        r == startup_of(event),
{
    match event {
        StartEvent::Sizes(sizes) => Startup::Ready(sizes),
        StartEvent::Other => Startup::Waiting,
        StartEvent::Closed => Startup::Failed,
    }
}

/// How the first of the tasks of a monitor ended.
#[derive(Clone, Copy, Debug, PartialEq, Eq, Structural)]
pub enum TaskEnd {
    /// The monitor was cancelled, or there was no task.
    Stopped,
    /// The task was cancelled.
    Cancelled,
    /// The task panicked.
    Panicked,
    /// The task, which has no other way to end, returned an error.
    Failed,
}

/// What goes on after the tasks of a monitor have ended.
#[derive(Clone, Copy, Debug, PartialEq, Eq, Structural)]
pub enum AfterRun {
    Exit,
    RetryAfterSecs(u64),
}

/// How long to wait before the panels of a monitor are started anew.
pub const RETRY_SECS: u64 = 20;

/// What goes on after the tasks of a monitor have ended in some way.
pub open spec fn goes_on(end: TaskEnd) -> AfterRun {
    match end {
        TaskEnd::Stopped => AfterRun::Exit,
        TaskEnd::Cancelled => AfterRun::Exit,
        TaskEnd::Panicked => AfterRun::RetryAfterSecs(RETRY_SECS),
        TaskEnd::Failed => AfterRun::RetryAfterSecs(RETRY_SECS),
    }
}

/// Panels that were stopped stay so, and those that failed come back after twenty
/// seconds.
pub proof fn law_failed_panels_come_back(end: TaskEnd)
    ensures
        end == TaskEnd::Stopped || end == TaskEnd::Cancelled ==> goes_on(end) == AfterRun::Exit,
        end == TaskEnd::Panicked || end == TaskEnd::Failed ==> goes_on(end)
            == AfterRun::RetryAfterSecs(20),
{
}

/// A monitor whose panels were stopped is done with. After a failure its panels
/// are started anew, after a while.
pub fn after_run(end: TaskEnd) -> (r: AfterRun)
    ensures
        r == goes_on(end),
{
    match end {
        TaskEnd::Stopped | TaskEnd::Cancelled => AfterRun::Exit,
        TaskEnd::Panicked | TaskEnd::Failed => AfterRun::RetryAfterSecs(RETRY_SECS),
    }
}

} // verus!
