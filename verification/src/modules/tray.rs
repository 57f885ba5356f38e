//! The tray as a module: icons, and the tooltips and menus that open from them.
use vstd::prelude::*;
use crate::assoc::{as_map, has_key, lemma_entry, place_of, Assoc};
use crate::images::{icon_fits, icon_image, icon_pixels, unsigned, IconPixmap};
use crate::modules::prelude::{MenuKind, OpenMenu};
use crate::procs::bar_panel::{target_of, target_tag, BarInteractTarget, TargetView};
use crate::tray::{
    context_to_tui, context_view, menu_height, menu_tag, menu_target_of, tooltip_to_tui,
    tooltip_view, IconMode, MenuInteractTarget, StatusNotifierItem, TrayMenuExt, TrayMenuInteract,
};
use crate::tui::{
    auto_view, interactive_view, item_views, length_view, push_item, stack_view, Axis, CustomId,
    Elem, ElemView, ImageData, ImageView, InteractKind, ItemView, Location, MouseButton, StackItem,
};
use crate::wire::u32_bytes;
use std::sync::Arc;

verus! {

/// The applications in the tray and their menus, by address.
#[derive(Debug)]
pub struct TrayState {
    pub items: Assoc<StatusNotifierItem>,
    pub menus: Assoc<TrayMenuExt>,
}

/// The icons of an application, each with room behind it.
pub open spec fn icon_items(icons: Seq<IconPixmap>, addr: Seq<char>) -> Seq<ItemView>
    decreases icons.len(),
{
    if icons.len() == 0 {
        Seq::empty()
    } else {
        let before = icon_items(icons.drop_last(), addr);
        let icon = icons.last();
        if icon_fits(icon) {
            before.push(
                auto_view(
                    interactive_view(
                        ElemView::Image {
                            image: ImageView::Rgba {
                                width: unsigned(icon.width),
                                height: unsigned(icon.height),
                                pixels: icon_pixels(icon),
                            },
                            axis: Axis::Y,
                            len: 1,
                        },
                        target_tag(TargetView::Tray(addr)),
                    ),
                ),
            ).push(length_view(1, ElemView::Empty))
        } else {
            before
        }
    }
}

/// The icons of all applications.
pub open spec fn tray_items(entries: Seq<(String, StatusNotifierItem)>) -> Seq<ItemView>
    decreases entries.len(),
{
    if entries.len() == 0 {
        Seq::empty()
    } else {
        tray_items(entries.drop_last()) + (match entries.last().1.icon_pixmap {
            Some(icons) => icon_items(icons@, entries.last().0@),
            None => Seq::empty(),
        })
    }
}

fn push_icons(items: &mut Vec<StackItem>, icons: &Vec<IconPixmap>, addr: &String)
    ensures
        item_views(final(items)@) == item_views(old(items)@) + icon_items(icons@, addr@),
{
    let ghost before = item_views(items@);
    let mut i: usize = 0;
    proof {
        assert(icons@.take(0) =~= Seq::empty());
        assert(before + icon_items(icons@.take(0), addr@) =~= before);
    }
    while i < icons.len()
        invariant
            0 <= i <= icons@.len(),
            item_views(items@) == before + icon_items(icons@.take(i as int), addr@),
        decreases icons@.len() - i,
    {
        proof {
            assert(icons@.take(i + 1).drop_last() =~= icons@.take(i as int));
            assert(icons@.take(i + 1).last() == icons@[i as int]);
        }
        if let Some(img) = icon_image(&icons[i]) {
            let image = ImageData::Rgba {
                width: img.width,
                height: img.height,
                pixels: Arc::new(img.pixels),
            };
            let tag = BarInteractTarget::Tray(addr.clone()).serialize_tag();
            push_item(items, StackItem::auto(Elem::image(image, Axis::Y, 1).interactive(tag)));
            push_item(items, StackItem::spacing(1));
        }
        proof {
            assert(item_views(items@) =~= before + icon_items(icons@.take(i + 1), addr@));
        }
        i += 1;
    }
    proof {
        assert(icons@.take(i as int) =~= icons@);
    }
}

/// What follows when the user does something with the tray.
#[derive(Debug)]
pub enum TrayReaction {
    /// The application is asked for an entry of its menu.
    Activate(TrayMenuInteract),
    OpenMenu(OpenMenu),
    Nothing,
}

impl TrayState {
    pub open spec fn wf(&self) -> bool {
        &&& self.items.wf()
        &&& self.menus.wf()
        &&& forall|addr: Seq<char>| #[trigger]
            self.menus@.dom().contains(addr) ==> menu_height(self.menus@[addr].submenus@) <= u16::MAX
    }

    pub fn new() -> (r: Self)
        ensures
            r.wf(),
            r.items@ == Map::<Seq<char>, StatusNotifierItem>::empty(),
            r.menus@ == Map::<Seq<char>, TrayMenuExt>::empty(),
    {
        TrayState { items: Assoc::new(), menus: Assoc::new() }
    }

    /// The icons in the bar.
    pub fn render(&self) -> (r: Elem)
        ensures
            r@ == stack_view(Axis::X, tray_items(self.items.entries@)),
    {
        let entries = &self.items.entries;
        let mut items: Vec<StackItem> = Vec::new();
        let mut i: usize = 0;
        proof {
            assert(entries@.take(0) =~= Seq::empty());
        }
        while i < entries.len()
            invariant
                0 <= i <= entries@.len(),
                item_views(items@) == tray_items(entries@.take(i as int)),
            decreases entries@.len() - i,
        {
            proof {
                assert(entries@.take(i + 1).drop_last() =~= entries@.take(i as int));
                assert(entries@.take(i + 1).last() == entries@[i as int]);
            }
            let (addr, item) = &entries[i];
            if let Some(icons) = &item.icon_pixmap {
                push_icons(&mut items, icons, addr);
            }
            proof {
                assert(item_views(items@) =~= tray_items(entries@.take(i + 1)));
            }
            i += 1;
        }
        proof {
            assert(entries@.take(i as int) =~= entries@);
        }
        Elem::stack(Axis::X, items)
    }

    /// The menu that opens from an icon, if there is one: the tooltip under the
    /// mouse, the menu on a click with the right button.
    pub open spec fn menu_for(self, addr: Seq<char>, kind: InteractKind) -> Option<
        (MenuKind, ElemView),
    > {
        match kind {
            InteractKind::Hover => if self.items@.dom().contains(addr) {
                match self.items@[addr].tool_tip {
                    Some(tip) => Some(
                        (MenuKind::Tooltip, tooltip_view(tip.title@, tip.description@)),
                    ),
                    None => None,
                }
            } else {
                None
            },
            InteractKind::Click(MouseButton::Right) => if self.menus@.dom().contains(addr) {
                Some(
                    (MenuKind::Context, context_view(addr, self.menus@[addr], IconMode::Picture)),
                )
            } else {
                None
            },
            _ => None,
        }
    }

    /// The menu that opens from an icon.
    fn open_menu(&self, addr: &String, kind: InteractKind) -> (r: Option<(MenuKind, Elem)>)
        requires
            self.wf(),
        ensures
            r is Some <==> self.menu_for(addr@, kind) is Some,
            r matches Some((menu_kind, tui)) ==> self.menu_for(addr@, kind) == Some(
                (menu_kind, tui@),
            ),
    {
        match kind {
            InteractKind::Hover => match self.items.get(addr) {
                Some(item) => match &item.tool_tip {
                    Some(tip) => Some((MenuKind::Tooltip, tooltip_to_tui(tip))),
                    None => None,
                },
                None => None,
            },
            InteractKind::Click(MouseButton::Right) => match self.menus.get(addr) {
                Some(menu) => Some(
                    (MenuKind::Context, context_to_tui(addr, menu, IconMode::Picture)),
                ),
                None => None,
            },
            _ => None,
        }
    }

    /// What follows when the user does something with the element that a tag
    /// names: an entry of a menu, or an icon. A tag that was made for one of these leads
    /// back to it.
    pub fn react(&self, tag: &CustomId, kind: InteractKind, pos: Location, monitor: String) -> (r:
        TrayReaction)
        requires
            self.wf(),
        ensures
            match menu_target_of(tag@) {
                Some(parts) => r matches TrayReaction::Activate(entry) && (
                    entry.addr@,
                    entry.menu_path@,
                    entry.id,
                ) == parts,
                None => match target_of(tag@) {
                    Some(TargetView::Tray(addr)) => match self.menu_for(addr, kind) {
                        Some((menu_kind, tui)) => r matches TrayReaction::OpenMenu(open)
                            && open.monitor == monitor && open.pos == pos && open.menu_kind
                            == menu_kind && open.tui@ == tui,
                        None => r is Nothing,
                    },
                    _ => r is Nothing,
                },
            },
            forall|addr: Seq<char>, menu_path: Seq<char>, id: i32|
                tag@ == #[trigger] menu_tag(addr, menu_path, id) ==> (r matches TrayReaction::Activate(
                    entry,
                ) && (entry.addr@, entry.menu_path@, entry.id) == (addr, menu_path, id)),
            forall|target: TargetView|
                tag@ == #[trigger] target_tag(target) ==> match target {
                    TargetView::Tray(addr) => match self.menu_for(addr, kind) {
                        Some((menu_kind, tui)) => r matches TrayReaction::OpenMenu(open)
                            && open.monitor == monitor && open.pos == pos && open.menu_kind
                            == menu_kind && open.tui@ == tui,
                        None => r is Nothing,
                    },
                    TargetView::Nothing => r !is OpenMenu,
                    _ => r is Nothing,
                },
    {
        proof {
            assert forall|n: u32| #[trigger] u32_bytes(n) == u32_bytes(n) + Seq::<u8>::empty() by {
                assert(u32_bytes(n) + Seq::<u8>::empty() =~= u32_bytes(n));
            }
        }
        if let Some(MenuInteractTarget::TrayMenu(entry)) = MenuInteractTarget::deserialize_tag(tag) {
            return TrayReaction::Activate(entry);
        }
        let addr = match BarInteractTarget::deserialize_tag(tag) {
            Some(BarInteractTarget::Tray(addr)) => addr,
            _ => {
                return TrayReaction::Nothing;
            },
        };
        match self.open_menu(&addr, kind) {
            Some((menu_kind, tui)) => TrayReaction::OpenMenu(
                OpenMenu { monitor, tui, pos, menu_kind },
            ),
            None => TrayReaction::Nothing,
        }
    }
}

/// The menus with the paths that are known for them.
pub open spec fn with_paths(
    menus: Map<Seq<char>, TrayMenuExt>,
    paths: Map<Seq<char>, String>,
) -> Map<Seq<char>, TrayMenuExt> {
    Map::new(
        |addr: Seq<char>| menus.dom().contains(addr),
        |addr: Seq<char>|
            if paths.dom().contains(addr) {
                TrayMenuExt { menu_path: Some(paths[addr]), ..menus[addr] }
            } else {
                menus[addr]
            },
    )
}

/// Gives each menu the path that was announced for it, and forgets the paths of
/// applications without a menu.
pub fn apply_menu_paths(menus: Assoc<TrayMenuExt>, paths: &mut Assoc<String>) -> (r: Assoc<
    TrayMenuExt,
>)
    requires
        menus.wf(),
        old(paths).wf(),
    ensures
        r.wf(),
        r@ == with_paths(menus@, old(paths)@),
        final(paths).wf(),
        final(paths)@ == old(paths)@.restrict(menus@.dom()),
{
    let ghost before = menus.entries@;
    let ghost known = paths@;
    let mut kept: Assoc<String> = Assoc::new();
    let mut rest = menus;
    let mut done: Assoc<TrayMenuExt> = Assoc::new();
    proof {
        assert(kept@ =~= known.restrict(done@.dom()));
        assert(done@ =~= with_paths(Map::empty(), known));
        assert(as_map(before) =~= rest@);
    }
    while rest.entries.len() > 0
        invariant
            rest.wf(),
            done.wf(),
            kept.wf(),
            paths.wf(),
            paths@ == known,
            kept@ == known.restrict(done@.dom()),
            rest@.dom().disjoint(done@.dom()),
            as_map(before).dom() == rest@.dom().union(done@.dom()),
            forall|addr: Seq<char>| #[trigger]
                rest@.dom().contains(addr) ==> rest@[addr] == as_map(before)[addr],
            forall|addr: Seq<char>| #[trigger]
                done@.dom().contains(addr) ==> done@[addr] == with_paths(as_map(before), known)[addr],
        decreases rest.entries@.len(),
    {
        let ghost rest_before = rest@;
        let ghost entries_before = rest.entries@;
        let ghost done_before = done@;
        let last: usize = rest.entries.len() - 1;
        proof {
            lemma_entry(rest.entries@, last as int);
        }
        let (addr, menu) = rest.entries.remove(last);
        proof {
            let a = entries_before;
            let b = rest.entries@;
            assert(b =~= a.drop_last());
            assert forall|k: Seq<char>| has_key(b, k) == (has_key(a, k) && k != addr@) by {
                if has_key(b, k) {
                    let j = place_of(b, k);
                    assert(a[j].0@ == k);
                    assert(a[j].0@ != a[last as int].0@);
                }
                if has_key(a, k) && k != addr@ {
                    let j = place_of(a, k);
                    assert(b[j].0@ == k);
                }
            }
            assert forall|k: Seq<char>| has_key(b, k) implies as_map(b)[k] == as_map(a)[k] by {
                let j = place_of(b, k);
                lemma_entry(b, j);
                lemma_entry(a, j);
            }
            assert(rest@ =~= rest_before.remove(addr@));
        }
        let menu = match paths.get(&addr) {
            Some(path) => {
                kept.insert(addr.clone(), path.clone());
                TrayMenuExt {
                    id: menu.id,
                    menu_path: Some(path.clone()),
                    submenus: menu.submenus,
                }
            },
            None => menu,
        };
        done.insert(addr, menu);
        proof {
            assert(done@.dom() =~= done_before.dom().insert(addr@));
            assert(kept@ =~= known.restrict(done@.dom()));
            assert(as_map(before).dom() =~= rest@.dom().union(done@.dom()));
        }
    }
    proof {
        assert(rest@.dom() =~= Set::empty()) by {
            assert forall|k: Seq<char>| !rest@.dom().contains(k) by {
                if has_key(rest.entries@, k) {
                    let j = place_of(rest.entries@, k);
                    assert(0 <= j < 0);
                }
            }
        }
        assert(done@.dom() =~= as_map(before).dom());
        assert(done@ =~= with_paths(as_map(before), known));
        assert(kept@ =~= known.restrict(as_map(before).dom()));
    }
    *paths = kept;
    done
}

/// The icons that an application shows: those with enough bytes.
pub open spec fn whole_icons(icons: Seq<IconPixmap>) -> Seq<IconPixmap> {
    icons.filter(|icon: IconPixmap| icon_fits(icon))
}

/// Each icon with enough bytes appears, in its turn, one line high and under the
/// tag of its application, with a cell of room behind it; the others do not appear.
pub proof fn law_icons_react_for_their_application(icons: Seq<IconPixmap>, addr: Seq<char>)
    ensures
        icon_items(icons, addr).len() == 2 * whole_icons(icons).len(),
        forall|k: int|
            0 <= k < whole_icons(icons).len() ==> {
                let icon = #[trigger] whole_icons(icons)[k];
                &&& icon_items(icons, addr)[2 * k] == auto_view(
                    ElemView::Interactive {
                        inner: Box::new(
                            ElemView::Image {
                                image: ImageView::Rgba {
                                    width: unsigned(icon.width),
                                    height: unsigned(icon.height),
                                    pixels: icon_pixels(icon),
                                },
                                axis: Axis::Y,
                                len: 1,
                            },
                        ),
                        tag: target_tag(TargetView::Tray(addr)),
                        hovered: None,
                    },
                )
                &&& icon_items(icons, addr)[2 * k + 1] == length_view(1, ElemView::Empty)
            },
    decreases icons.len(),
{
    reveal(Seq::filter);
    if icons.len() > 0 {
        law_icons_react_for_their_application(icons.drop_last(), addr);
    }
}

/// The applications stand in their order, each with its icons under its own
/// address.
pub proof fn law_applications_stand_in_order(
    entries: Seq<(String, StatusNotifierItem)>,
    addr: String,
    item: StatusNotifierItem,
)
    ensures
        tray_items(Seq::empty()).len() == 0,
        item.icon_pixmap is None ==> tray_items(entries.push((addr, item))) == tray_items(entries),
        item.icon_pixmap matches Some(icons) ==> tray_items(entries.push((addr, item)))
            == tray_items(entries) + icon_items(icons@, addr@),
{
    assert(entries.push((addr, item)).drop_last() =~= entries);
    if item.icon_pixmap is None {
        assert(tray_items(entries.push((addr, item))) =~= tray_items(entries));
    }
}

/// The mouse over an icon opens the tooltip of its application, the right button
/// its menu, with the pictures of its entries; nothing else opens anything.
pub proof fn law_icons_open_their_menus(state: TrayState, addr: Seq<char>, kind: InteractKind)
    ensures
        ({
            let right = InteractKind::Click(MouseButton::Right);
            let known = state.items@.dom().contains(addr);
            let has_menu = state.menus@.dom().contains(addr);
            &&& kind == InteractKind::Hover && known ==> (
            state.items@[addr].tool_tip matches Some(tip) ==> state.menu_for(addr, kind) == Some(
                (MenuKind::Tooltip, tooltip_view(tip.title@, tip.description@)),
            ))
            &&& kind == InteractKind::Hover && (!known || state.items@[addr].tool_tip is None)
                ==> state.menu_for(addr, kind) is None
            &&& kind == right && has_menu ==> state.menu_for(addr, kind) == Some(
                (MenuKind::Context, context_view(addr, state.menus@[addr], IconMode::Picture)),
            )
            &&& kind == right && !has_menu ==> state.menu_for(addr, kind) is None
            &&& kind != InteractKind::Hover && kind != right ==> state.menu_for(addr, kind) is None
        }),
{
}

/// A menu whose path is known takes requests under that path; the others stay as
/// they are, and no menu is lost or changed otherwise.
pub proof fn law_menus_get_their_paths(
    menus: Map<Seq<char>, TrayMenuExt>,
    paths: Map<Seq<char>, String>,
    addr: Seq<char>,
)
    ensures
        with_paths(menus, paths).dom() == menus.dom(),
        menus.dom().contains(addr) ==> {
            let after = with_paths(menus, paths)[addr];
            &&& after.submenus == menus[addr].submenus
            &&& after.id == menus[addr].id
            &&& paths.dom().contains(addr) ==> after.menu_path == Some(paths[addr])
            &&& !paths.dom().contains(addr) ==> after.menu_path == menus[addr].menu_path
        },
{
    assert(with_paths(menus, paths).dom() =~= menus.dom());
}

} // verus!
