//! The tray in the bar, with a tooltip and a context menu for each application.
use vstd::prelude::*;
use crate::api::{MenuKind, RegisterMenu, RegisterMenuOpts, RegisterMenuView};
use crate::images::{
    decode_png, icon_fits, icon_image, icon_pixels, png_picture, unsigned, IconPixmap, RgbaImage,
};
use crate::tags::{mk_fresh_interact_tag, tag_bytes, InteractTagRegistry, TagCounter};
use crate::tray::{
    framed_view, item_height, lemma_menu_height, menu_height, separator_view, tooltip_to_tui,
    tooltip_view, MenuItem, MenuType, StatusNotifierItem, Tooltip, TrayMenuExt,
};
use crate::tui::{
    auto_view, interactive_view, plain_view, stack_view, Axis, CustomId, Elem, ElemView,
    InteractKind, ItemView, LineSet, MouseButton, StackItemOpts,
};
use crate::xtui::text::Color;
use crate::xtui::{base64_text, image_elem_view, rgba_img_fill_axis, BlockBorders, StackBuilder};

verus! {

/// An application in the tray, and its menu.
#[derive(Debug)]
pub struct TrayEntry {
    pub addr: String,
    pub item: StatusNotifierItem,
    pub menu: Option<TrayMenuExt>,
}

/// A click on the element with this tag asks the application at `addr` for an
/// entry of its menu.
#[derive(Debug)]
pub struct Activation {
    pub tag: CustomId,
    pub addr: String,
    pub menu_path: String,
    pub id: i32,
}

/// What an [`Activation`] says.
#[verifier::ext_equal]
pub struct ActivationView {
    pub tag: Seq<u8>,
    pub addr: Seq<char>,
    pub menu_path: Seq<char>,
    pub id: i32,
}

impl View for Activation {
    type V = ActivationView;

    open spec fn view(&self) -> ActivationView {
        ActivationView {
            tag: self.tag@,
            addr: self.addr@,
            menu_path: self.menu_path@,
            id: self.id,
        }
    }
}

/// Only a click with the left button asks for an entry.
pub fn activates(kind: InteractKind) -> (r: bool)
    ensures
        r == (kind == InteractKind::Click(MouseButton::Left)),
{
    kind == InteractKind::Click(MouseButton::Left)
}

/// Whether an entry is drawn: it is visible, and a line or labelled.
pub open spec fn is_drawn(item: MenuItem) -> bool {
    item.visible && (item.menu_type == MenuType::Separator || item.label is Some)
}

/// The number of tags that an entry takes, with the menu below it.
pub open spec fn item_tags(item: MenuItem) -> nat
    decreases item,
{
    if is_drawn(item) {
        (if item.menu_type == MenuType::Standard {
            1nat
        } else {
            0nat
        }) + menu_tags(item.submenu@)
    } else {
        0
    }
}

/// The number of tags that a menu takes.
pub open spec fn menu_tags(items: Seq<MenuItem>) -> nat
    decreases items,
{
    if items.len() == 0 {
        0
    } else {
        menu_tags(items.drop_last()) + item_tags(items.last())
    }
}

proof fn lemma_menu_tags(items: Seq<MenuItem>, n: int)
    requires
        0 <= n <= items.len(),
    ensures
        menu_tags(items.take(n)) <= menu_tags(items),
    decreases items.len(),
{
    if n < items.len() {
        lemma_menu_tags(items.drop_last(), n);
        assert(items.drop_last().take(n) =~= items.take(n));
    } else {
        assert(items.take(n) =~= items);
    }
}

/// Where the tags of a menu come from, and where its requests go.
#[verifier::ext_equal]
pub struct Source {
    pub order: crate::tags::ByteOrder,
    pub addr: Seq<char>,
    pub menu_path: Option<Seq<char>>,
}

/// The icon of an entry: a picture one line high, with room behind it.
pub open spec fn icon_items(picture: Option<(u32, u32, Seq<u8>)>) -> Seq<ItemView> {
    match picture {
        Some((width, height, pixels)) => seq![
            auto_view(image_elem_view(width, height, Axis::Y, 1, base64_text(pixels))),
            auto_view(ElemView::Spacing { axis: Axis::X, len: 1 }),
        ],
        None => Seq::empty(),
    }
}

/// The picture in the icon of an entry, if there is one.
pub open spec fn entry_picture(item: MenuItem) -> Option<(u32, u32, Seq<u8>)> {
    match item.icon_data {
        Some(data) => png_picture(data@),
        None => None,
    }
}

/// An entry with a label.
pub open spec fn row_view(
    depth: int,
    label: Seq<char>,
    picture: Option<(u32, u32, Seq<u8>)>,
    tag: Seq<u8>,
) -> ElemView {
    interactive_view(
        stack_view(
            Axis::X,
            seq![auto_view(ElemView::Spacing { axis: Axis::X, len: (depth + 1) as u16 })]
                + icon_items(picture) + seq![auto_view(plain_view(label))],
        ),
        tag,
    )
}

/// What a picture shows.
pub open spec fn picture_of(img: Option<RgbaImage>) -> Option<(u32, u32, Seq<u8>)> {
    match img {
        Some(img) => Some((img.width, img.height, img.pixels@)),
        None => None,
    }
}

/// An entry with a label, given the picture of its icon.
pub fn mk_row(depth: u16, label: &str, picture: Option<RgbaImage>, tag: CustomId) -> (r: Elem)
    requires
        depth < u16::MAX,
    ensures
        r@ == row_view(
            depth as int,
            label@,
            picture_of(picture),
            tag@,
        ),
{
    let ghost shown = picture_of(picture);
    let mut stack = StackBuilder::new(Axis::X);
    stack.spacing(depth + 1);
    if let Some(img) = picture {
        stack.push(rgba_img_fill_axis(img.width, img.height, &img.pixels, Axis::Y, 1));
        stack.spacing(1);
    }
    stack.push(Elem::plain(label));
    proof {
        assert(stack@ =~= seq![
            auto_view(ElemView::Spacing { axis: Axis::X, len: (depth + 1) as u16 }),
        ] + icon_items(shown) + seq![auto_view(plain_view(label@))]);
    }
    stack.build().interactive(tag)
}

/// The entry itself, without the menu below it.
pub open spec fn main_view(item: MenuItem, depth: int, next: int, source: Source) -> ElemView {
    if item.menu_type == MenuType::Separator {
        separator_view()
    } else {
        row_view(
            depth,
            (item.label->0)@,
            entry_picture(item),
            tag_bytes(next as u64, source.order),
        )
    }
}

/// The number of the first tag of the menu below an entry.
pub open spec fn next_below(item: MenuItem, next: int) -> int {
    if item.menu_type == MenuType::Standard {
        next + 1
    } else {
        next
    }
}

/// The description of an entry whose tags start with number `next`.
pub open spec fn item_view(item: MenuItem, depth: int, next: int, source: Source) -> ElemView
    decreases item,
{
    if item.submenu@.len() == 0 {
        main_view(item, depth, next, source)
    } else {
        stack_view(
            Axis::Y,
            seq![
                auto_view(main_view(item, depth, next, source)),
                auto_view(
                    stack_view(
                        Axis::Y,
                        rows_view(item.submenu@, depth + 1, next_below(item, next), source),
                    ),
                ),
            ],
        )
    }
}

/// The description of a menu whose tags start with number `next`.
pub open spec fn rows_view(items: Seq<MenuItem>, depth: int, next: int, source: Source) -> Seq<
    ItemView,
>
    decreases items,
{
    if items.len() == 0 {
        Seq::empty()
    } else {
        let before = rows_view(items.drop_last(), depth, next, source);
        if is_drawn(items.last()) {
            before.push(
                auto_view(
                    item_view(items.last(), depth, next + menu_tags(items.drop_last()), source),
                ),
            )
        } else {
            before
        }
    }
}

/// The request that the entry itself stands for.
pub open spec fn main_activations(item: MenuItem, next: int, source: Source) -> Seq<
    ActivationView,
> {
    if item.menu_type == MenuType::Standard && source.menu_path is Some {
        seq![
            ActivationView {
                tag: tag_bytes(next as u64, source.order),
                addr: source.addr,
                menu_path: source.menu_path->0,
                id: item.id,
            },
        ]
    } else {
        Seq::empty()
    }
}

/// The requests that an entry and the menu below it stand for.
pub open spec fn item_activations(item: MenuItem, next: int, source: Source) -> Seq<ActivationView>
    decreases item,
{
    if is_drawn(item) {
        main_activations(item, next, source) + menu_activations(
            item.submenu@,
            next_below(item, next),
            source,
        )
    } else {
        Seq::empty()
    }
}

/// The requests that a menu stands for.
pub open spec fn menu_activations(items: Seq<MenuItem>, next: int, source: Source) -> Seq<
    ActivationView,
>
    decreases items,
{
    if items.len() == 0 {
        Seq::empty()
    } else {
        menu_activations(items.drop_last(), next, source) + item_activations(
            items.last(),
            next + menu_tags(items.drop_last()),
            source,
        )
    }
}

/// What a list of requests says.
pub open spec fn activation_views(list: Seq<Activation>) -> Seq<ActivationView> {
    Seq::new(list.len(), |i: int| list[i]@)
}

/// Where a menu comes from.
pub open spec fn source_of(counter: TagCounter, addr: Seq<char>, path: Option<String>) -> Source {
    Source { order: counter.order, addr, menu_path: crate::tray::path_view(path) }
}

fn tray_menu_item_to_tui(
    depth: u16,
    item: &MenuItem,
    counter: &mut TagCounter,
    addr: &String,
    menu_path: &Option<String>,
    activations: &mut Vec<Activation>,
) -> (r: Option<Elem>)
    requires
        depth + item_height(*item) <= u16::MAX,
        old(counter).next + item_tags(*item) <= u64::MAX,
    ensures
        final(counter).order == old(counter).order,
        final(counter).next == old(counter).next + item_tags(*item),
        r is Some <==> is_drawn(*item),
        r matches Some(elem) ==> elem@ == item_view(
            *item,
            depth as int,
            old(counter).next as int,
            source_of(*old(counter), addr@, *menu_path),
        ),
        activation_views(final(activations)@) == activation_views(old(activations)@)
            + item_activations(
            *item,
            old(counter).next as int,
            source_of(*old(counter), addr@, *menu_path),
        ),
    decreases item_height(*item), 0int,
{
    let ghost start = *counter;
    let ghost source = source_of(*counter, addr@, *menu_path);
    let ghost acts = activation_views(activations@);
    proof {
        assert(acts + Seq::<ActivationView>::empty() =~= acts);
    }
    if !item.visible {
        return None;
    }
    let main = match item.menu_type {
        MenuType::Separator => {
            let line = Elem::block(
                BlockBorders { top: true, bottom: false, left: false, right: false },
                Color::DarkGrey,
                LineSet::Normal,
                None,
            );
            proof {
                assert(activation_views(activations@) =~= acts + main_activations(
                    *item,
                    start.next as int,
                    source,
                ));
            }
            line
        },
        MenuType::Standard => {
            let label = match &item.label {
                Some(label) => label,
                None => {
                    return None;
                },
            };
            let picture = match &item.icon_data {
                Some(data) => decode_png(data),
                None => None,
            };
            let tag = mk_fresh_interact_tag(counter);
            match menu_path {
                Some(path) => {
                    activations.push(
                        Activation {
                            tag: tag.clone(),
                            addr: addr.clone(),
                            menu_path: path.clone(),
                            id: item.id,
                        },
                    );
                    proof {
                        assert(activation_views(activations@) =~= acts + main_activations(
                            *item,
                            start.next as int,
                            source,
                        ));
                    }
                },
                None => {
                    proof {
                        assert(activation_views(activations@) =~= acts + main_activations(
                            *item,
                            start.next as int,
                            source,
                        ));
                    }
                },
            }
            mk_row(depth, label, picture, tag)
        },
    };
    let ghost main_acts = main_activations(*item, start.next as int, source);
    if item.submenu.len() == 0 {
        proof {
            assert(item.submenu@ =~= Seq::empty());
            assert(main_acts + Seq::<ActivationView>::empty() =~= main_acts);
        }
        Some(main)
    } else {
        let ghost main_shown = main@;
        let below = tray_menu_to_tui(
            depth + 1,
            &item.submenu,
            counter,
            addr,
            menu_path,
            activations,
        );
        let ghost below_shown = below@;
        let mut stack = StackBuilder::new(Axis::Y);
        stack.push(main);
        stack.push(below);
        proof {
            assert(stack@ =~= seq![auto_view(main_shown), auto_view(below_shown)]);
            assert(activation_views(activations@) =~= acts + item_activations(
                *item,
                start.next as int,
                source,
            ));
        }
        Some(stack.build())
    }
}

/// A menu whose entries get fresh tags. The requests that the entries stand for
/// are added to the list.
pub fn tray_menu_to_tui(
    depth: u16,
    items: &Vec<MenuItem>,
    counter: &mut TagCounter,
    addr: &String,
    menu_path: &Option<String>,
    activations: &mut Vec<Activation>,
) -> (r: Elem)
    requires
        depth + menu_height(items@) <= u16::MAX,
        old(counter).next + menu_tags(items@) <= u64::MAX,
    ensures
        final(counter).order == old(counter).order,
        final(counter).next == old(counter).next + menu_tags(items@),
        r@ == stack_view(
            Axis::Y,
            rows_view(
                items@,
                depth as int,
                old(counter).next as int,
                source_of(*old(counter), addr@, *menu_path),
            ),
        ),
        activation_views(final(activations)@) == activation_views(old(activations)@)
            + menu_activations(
            items@,
            old(counter).next as int,
            source_of(*old(counter), addr@, *menu_path),
        ),
    decreases menu_height(items@), 1int,
{
    let ghost start = *counter;
    let ghost source = source_of(*counter, addr@, *menu_path);
    let ghost acts = activation_views(activations@);
    let mut stack = StackBuilder::new(Axis::Y);
    let mut i: usize = 0;
    proof {
        assert(items@.take(0) =~= Seq::empty());
        assert(acts + menu_activations(items@.take(0), start.next as int, source) =~= acts);
    }
    while i < items.len()
        invariant
            0 <= i <= items@.len(),
            depth + menu_height(items@) <= u16::MAX,
            start.next + menu_tags(items@) <= u64::MAX,
            source == source_of(start, addr@, *menu_path),
            counter.order == start.order,
            counter.next == start.next + menu_tags(items@.take(i as int)),
            stack.axis == Axis::Y,
            stack@ == rows_view(items@.take(i as int), depth as int, start.next as int, source),
            activation_views(activations@) == acts + menu_activations(
                items@.take(i as int),
                start.next as int,
                source,
            ),
        decreases items@.len() - i,
    {
        proof {
            lemma_menu_height(items@, i as int);
            lemma_menu_tags(items@, i + 1);
            assert(items@.take(i + 1).drop_last() =~= items@.take(i as int));
            assert(items@.take(i + 1).last() == items@[i as int]);
        }
        let elem = tray_menu_item_to_tui(depth, &items[i], counter, addr, menu_path, activations);
        if let Some(elem) = elem {
            stack.push(elem);
        }
        proof {
            assert(activation_views(activations@) =~= acts + menu_activations(
                items@.take(i + 1),
                start.next as int,
                source,
            ));
        }
        i += 1;
    }
    proof {
        assert(items@.take(i as int) =~= items@);
    }
    stack.build()
}

/// The icons of an application, each with room behind it. Icons with too few
/// bytes are left out.
pub open spec fn icons_view(icons: Seq<IconPixmap>, tag: Seq<u8>) -> Seq<ItemView>
    decreases icons.len(),
{
    if icons.len() == 0 {
        Seq::empty()
    } else {
        let before = icons_view(icons.drop_last(), tag);
        let icon = icons.last();
        if icon_fits(icon) {
            before.push(
                auto_view(
                    interactive_view(
                        image_elem_view(
                            unsigned(icon.width),
                            unsigned(icon.height),
                            Axis::Y,
                            1,
                            base64_text(icon_pixels(icon)),
                        ),
                        tag,
                    ),
                ),
            ).push(auto_view(ElemView::Spacing { axis: Axis::X, len: 1 }))
        } else {
            before
        }
    }
}

/// The icons of an application.
pub open spec fn icons_of(item: StatusNotifierItem) -> Seq<IconPixmap> {
    match item.icon_pixmap {
        Some(icons) => icons@,
        None => Seq::empty(),
    }
}

/// What the tray shows and what was given out for it.
#[verifier::ext_equal]
pub struct TrayShown {
    pub next: int,
    pub tags: Map<Seq<char>, Seq<u8>>,
    pub menus: Seq<RegisterMenuView>,
    pub activations: Seq<ActivationView>,
    pub items: Seq<ItemView>,
}

/// The menu that opens under a mouse that hovers over an application.
pub open spec fn tooltip_menu(item: StatusNotifierItem, tag: Seq<u8>) -> Seq<RegisterMenuView> {
    match item.tool_tip {
        Some(tip) => seq![
            RegisterMenuView {
                on_tag: tag,
                on_kind: InteractKind::Hover,
                tui: tooltip_view(tip.title@, tip.description@),
                menu_kind: MenuKind::Tooltip,
            },
        ],
        None => Seq::empty(),
    }
}

/// The menu that opens on a click with the right button.
pub open spec fn context_menu(
    menu: Option<TrayMenuExt>,
    tag: Seq<u8>,
    next: int,
    addr: Seq<char>,
    order: crate::tags::ByteOrder,
) -> Seq<RegisterMenuView> {
    match menu {
        Some(menu) => seq![
            RegisterMenuView {
                on_tag: tag,
                on_kind: InteractKind::Click(MouseButton::Right),
                tui: framed_view(
                    stack_view(
                        Axis::Y,
                        rows_view(
                            menu.submenus@,
                            0,
                            next,
                            Source { order, addr, menu_path: crate::tray::path_view(menu.menu_path) },
                        ),
                    ),
                ),
                menu_kind: MenuKind::Context,
            },
        ],
        None => Seq::empty(),
    }
}

/// The requests that the menu of an application stands for.
pub open spec fn context_activations(
    menu: Option<TrayMenuExt>,
    next: int,
    addr: Seq<char>,
    order: crate::tags::ByteOrder,
) -> Seq<ActivationView> {
    match menu {
        Some(menu) => menu_activations(
            menu.submenus@,
            next,
            Source { order, addr, menu_path: crate::tray::path_view(menu.menu_path) },
        ),
        None => Seq::empty(),
    }
}

/// The number of tags that the menu of an application takes.
pub open spec fn context_tags(menu: Option<TrayMenuExt>) -> nat {
    match menu {
        Some(menu) => menu_tags(menu.submenus@),
        None => 0,
    }
}

/// The tray with one more application.
pub open spec fn with_entry(
    shown: TrayShown,
    entry: TrayEntry,
    order: crate::tags::ByteOrder,
) -> TrayShown {
    let addr = entry.addr@;
    let known = shown.tags.dom().contains(addr);
    let tag = if known {
        shown.tags[addr]
    } else {
        tag_bytes(shown.next as u64, order)
    };
    let next = if known {
        shown.next
    } else {
        shown.next + 1
    };
    TrayShown {
        next: next + context_tags(entry.menu),
        tags: shown.tags.insert(addr, tag),
        menus: shown.menus + tooltip_menu(entry.item, tag) + context_menu(
            entry.menu,
            tag,
            next,
            addr,
            order,
        ),
        activations: shown.activations + context_activations(entry.menu, next, addr, order),
        items: shown.items + icons_view(icons_of(entry.item), tag),
    }
}

/// The tray with these applications, one after the other.
pub open spec fn with_entries(
    shown: TrayShown,
    entries: Seq<TrayEntry>,
    order: crate::tags::ByteOrder,
) -> TrayShown
    decreases entries.len(),
{
    if entries.len() == 0 {
        shown
    } else {
        with_entry(with_entries(shown, entries.drop_last(), order), entries.last(), order)
    }
}

/// The most tags that the applications can take.
pub open spec fn entries_tags(entries: Seq<TrayEntry>) -> nat
    decreases entries.len(),
{
    if entries.len() == 0 {
        0
    } else {
        entries_tags(entries.drop_last()) + 1 + context_tags(entries.last().menu)
    }
}

proof fn lemma_entries_tags(entries: Seq<TrayEntry>, n: int)
    requires
        0 <= n <= entries.len(),
    ensures
        entries_tags(entries.take(n)) <= entries_tags(entries),
    decreases entries.len(),
{
    if n < entries.len() {
        lemma_entries_tags(entries.drop_last(), n);
        assert(entries.drop_last().take(n) =~= entries.take(n));
    } else {
        assert(entries.take(n) =~= entries);
    }
}

proof fn lemma_next_bound(shown: TrayShown, entries: Seq<TrayEntry>, order: crate::tags::ByteOrder)
    ensures
        shown.next <= with_entries(shown, entries, order).next <= shown.next + entries_tags(entries),
    decreases entries.len(),
{
    if entries.len() > 0 {
        lemma_next_bound(shown, entries.drop_last(), order);
    }
}

/// What the tray makes of its applications.
#[derive(Debug)]
pub struct TrayRender {
    pub bar: Elem,
    pub menus: Vec<RegisterMenu>,
    pub activations: Vec<Activation>,
}

/// What a list of menus says.
pub open spec fn menu_views(list: Seq<RegisterMenu>) -> Seq<RegisterMenuView> {
    Seq::new(list.len(), |i: int| list[i]@)
}

/// The tags that were given out to applications.
pub open spec fn known_tags(registry: InteractTagRegistry<()>) -> Map<Seq<char>, Seq<u8>> {
    Map::new(
        |addr: Seq<char>| registry.key_to_tag@.dom().contains(addr),
        |addr: Seq<char>| registry.key_to_tag@[addr].0@,
    )
}

/// Before any application.
pub open spec fn nothing_shown(counter: TagCounter, registry: InteractTagRegistry<()>) -> TrayShown {
    TrayShown {
        next: counter.next as int,
        tags: known_tags(registry),
        menus: Seq::empty(),
        activations: Seq::empty(),
        items: Seq::empty(),
    }
}

/// Adds the icons of an application.
fn push_icons(stack: &mut StackBuilder, icons: &Vec<IconPixmap>, tag: &CustomId)
    requires
        old(stack).axis == Axis::X,
    ensures
        final(stack).axis == Axis::X,
        final(stack)@ == old(stack)@ + icons_view(icons@, tag@),
{
    let ghost before = stack@;
    let mut i: usize = 0;
    proof {
        assert(icons@.take(0) =~= Seq::empty());
        assert(before + icons_view(icons@.take(0), tag@) =~= before);
    }
    while i < icons.len()
        invariant
            0 <= i <= icons@.len(),
            stack.axis == Axis::X,
            stack@ == before + icons_view(icons@.take(i as int), tag@),
        decreases icons@.len() - i,
    {
        proof {
            assert(icons@.take(i + 1).drop_last() =~= icons@.take(i as int));
            assert(icons@.take(i + 1).last() == icons@[i as int]);
        }
        if let Some(img) = icon_image(&icons[i]) {
            stack.push(
                rgba_img_fill_axis(img.width, img.height, &img.pixels, Axis::Y, 1).interactive(
                    tag.clone(),
                ),
            );
            stack.spacing(1);
        }
        proof {
            assert(stack@ =~= before + icons_view(icons@.take(i + 1), tag@));
        }
        i += 1;
    }
    proof {
        assert(icons@.take(i as int) =~= icons@);
    }
}

/// The whole menu of an application, framed, with fresh tags for its entries.
fn render_context(
    menu: &TrayMenuExt,
    counter: &mut TagCounter,
    addr: &String,
    activations: &mut Vec<Activation>,
) -> (r: Elem)
    requires
        menu_height(menu.submenus@) <= u16::MAX,
        old(counter).next + menu_tags(menu.submenus@) <= u64::MAX,
    ensures
        final(counter).order == old(counter).order,
        final(counter).next == old(counter).next + menu_tags(menu.submenus@),
        r@ == framed_view(
            stack_view(
                Axis::Y,
                rows_view(
                    menu.submenus@,
                    0,
                    old(counter).next as int,
                    source_of(*old(counter), addr@, menu.menu_path),
                ),
            ),
        ),
        activation_views(final(activations)@) == activation_views(old(activations)@)
            + menu_activations(
            menu.submenus@,
            old(counter).next as int,
            source_of(*old(counter), addr@, menu.menu_path),
        ),
{
    let inner = tray_menu_to_tui(0, &menu.submenus, counter, addr, &menu.menu_path, activations);
    Elem::block(BlockBorders::all(), Color::DarkGrey, LineSet::Thick, Some(inner))
}

/// The tray of these applications. An application keeps its tag from one call
/// to the next; the entries of its menu get new ones.
pub fn render_tray(
    entries: &Vec<TrayEntry>,
    registry: &mut InteractTagRegistry<()>,
    counter: &mut TagCounter,
) -> (r: TrayRender)
    requires
        old(registry).wf(*old(counter)),
        old(counter).next + entries_tags(entries@) <= u64::MAX,
        forall|i: int|
            0 <= i < entries@.len() ==> ((#[trigger] entries@[i]).menu matches Some(menu)
                ==> menu_height(menu.submenus@) <= u16::MAX),
    ensures
        final(registry).wf(*final(counter)),
        final(counter).order == old(counter).order,
        ({
            let shown = with_entries(
                nothing_shown(*old(counter), *old(registry)),
                entries@,
                old(counter).order,
            );
            &&& final(counter).next == shown.next
            &&& known_tags(*final(registry)) == shown.tags
            &&& r.bar@ == stack_view(Axis::X, shown.items)
            &&& menu_views(r.menus@) == shown.menus
            &&& activation_views(r.activations@) == shown.activations
        }),
{
    let ghost order = counter.order;
    let ghost first = nothing_shown(*counter, *registry);
    let mut stack = StackBuilder::new(Axis::X);
    let mut menus: Vec<RegisterMenu> = Vec::new();
    let mut activations: Vec<Activation> = Vec::new();
    let mut i: usize = 0;
    proof {
        assert(entries@.take(0) =~= Seq::empty());
        assert(menu_views(menus@) =~= Seq::empty());
        assert(activation_views(activations@) =~= Seq::empty());
    }
    while i < entries.len()
        invariant
            0 <= i <= entries@.len(),
            registry.wf(*counter),
            counter.order == order,
            first.next + entries_tags(entries@) <= u64::MAX,
            forall|i: int|
                0 <= i < entries@.len() ==> ((#[trigger] entries@[i]).menu matches Some(menu)
                    ==> menu_height(menu.submenus@) <= u16::MAX),
            stack.axis == Axis::X,
            ({
                let shown = with_entries(first, entries@.take(i as int), order);
                &&& counter.next == shown.next
                &&& known_tags(*registry) == shown.tags
                &&& stack@ == shown.items
                &&& menu_views(menus@) == shown.menus
                &&& activation_views(activations@) == shown.activations
            }),
        decreases entries@.len() - i,
    {
        let ghost shown = with_entries(first, entries@.take(i as int), order);
        let entry = &entries[i];
        proof {
            lemma_next_bound(first, entries@.take(i as int), order);
            lemma_entries_tags(entries@, i + 1);
            assert(entries@.take(i + 1).drop_last() =~= entries@.take(i as int));
            assert(entries@.take(i + 1).last() == entries@[i as int]);
        }
        let ghost addr = entry.addr@;
        let ghost tags_before = known_tags(*registry);
        let init = |tag: &CustomId| -> (r: ()) { () };
        let (tag, _) = registry.get_or_init(counter, &entry.addr, init);
        let ghost next = counter.next as int;
        proof {
            assert(known_tags(*registry) =~= tags_before.insert(addr, tag@));
        }
        let ghost had_menus = menu_views(menus@);
        if let Some(tip) = &entry.item.tool_tip {
            menus.push(
                RegisterMenu {
                    on_tag: tag.clone(),
                    on_kind: InteractKind::Hover,
                    tui: tooltip_to_tui(tip),
                    menu_kind: MenuKind::Tooltip,
                    options: RegisterMenuOpts {  },
                },
            );
        }
        proof {
            assert(menu_views(menus@) =~= had_menus + tooltip_menu(entry.item, tag@));
        }
        let ghost had_two = menu_views(menus@);
        let ghost had_acts = activation_views(activations@);
        let ghost wf_counter = *counter;
        if let Some(menu) = &entry.menu {
            let tui = render_context(menu, counter, &entry.addr, &mut activations);
            menus.push(
                RegisterMenu {
                    on_tag: tag.clone(),
                    on_kind: InteractKind::Click(MouseButton::Right),
                    tui,
                    menu_kind: MenuKind::Context,
                    options: RegisterMenuOpts {  },
                },
            );
        }
        proof {
            assert(menu_views(menus@) =~= had_two + context_menu(entry.menu, tag@, next, addr, order));
            assert(activation_views(activations@) =~= had_acts + context_activations(
                entry.menu,
                next,
                addr,
                order,
            ));
            crate::tags::law_registry_outlives_other_tags(*registry, wf_counter, *counter);
        }
        let ghost had_items = stack@;
        if let Some(icons) = &entry.item.icon_pixmap {
            push_icons(&mut stack, icons, &tag);
        }
        proof {
            assert(stack@ =~= had_items + icons_view(icons_of(entry.item), tag@));
        }
        i += 1;
    }
    proof {
        assert(entries@.take(i as int) =~= entries@);
    }
    TrayRender { bar: stack.build(), menus, activations }
}

/// An application that was in the tray before keeps its tag.
pub proof fn law_applications_keep_their_tags(
    shown: TrayShown,
    entries: Seq<TrayEntry>,
    order: crate::tags::ByteOrder,
    addr: Seq<char>,
)
    requires
        shown.tags.dom().contains(addr),
    ensures
        with_entries(shown, entries, order).tags.dom().contains(addr),
        with_entries(shown, entries, order).tags[addr] == shown.tags[addr],
    decreases entries.len(),
{
    if entries.len() > 0 {
        law_applications_keep_their_tags(shown, entries.drop_last(), order, addr);
    }
}

/// A menu that takes no requests registers none, whatever its entries.
pub proof fn law_no_path_no_requests(items: Seq<MenuItem>, next: int, source: Source)
    requires
        source.menu_path is None,
    ensures
        menu_activations(items, next, source).len() == 0,
    decreases items,
{
    if items.len() > 0 {
        law_no_path_no_requests(items.drop_last(), next, source);
        law_no_path_no_item_requests(
            items.last(),
            next + menu_tags(items.drop_last()),
            source,
        );
    }
}

/// An entry of a menu that takes no requests registers none.
pub proof fn law_no_path_no_item_requests(item: MenuItem, next: int, source: Source)
    requires
        source.menu_path is None,
    ensures
        item_activations(item, next, source).len() == 0,
    decreases item,
{
    law_no_path_no_requests(item.submenu@, next_below(item, next), source);
}

/// The row of a labelled entry ends with its label, in plain text; before it
/// stand as many cells as it is deep in the menu, and one, and then its picture
/// if it has one. All of it reacts to the mouse under its tag.
pub proof fn law_row_ends_with_its_label(
    depth: int,
    label: Seq<char>,
    picture: Option<(u32, u32, Seq<u8>)>,
    tag: Seq<u8>,
)
    requires
        0 <= depth < u16::MAX,
    ensures
        row_view(depth, label, picture, tag) matches ElemView::Interactive {
            inner,
            tag: own,
            hovered,
        } && {
            &&& own == tag
            &&& hovered is None
            &&& *inner matches ElemView::Stack { axis, items } && {
                &&& axis == Axis::X
                &&& items.len() == if picture is Some {
                    4int
                } else {
                    2
                }
                &&& items[0].elem matches ElemView::Spacing { axis: along, len } && along == Axis::X
                    && len == depth + 1
                &&& items.last() == auto_view(plain_view(label))
                &&& picture matches Some((width, height, pixels)) ==> items[1] == auto_view(
                    image_elem_view(width, height, Axis::Y, 1, base64_text(pixels)),
                ) && items[2] == auto_view(ElemView::Spacing { axis: Axis::X, len: 1 })
            }
        },
{
}

/// Rows of different labels differ, and so do rows of different tags.
pub proof fn law_rows_are_told_apart(
    depth1: int,
    label1: Seq<char>,
    picture1: Option<(u32, u32, Seq<u8>)>,
    tag1: Seq<u8>,
    depth2: int,
    label2: Seq<char>,
    picture2: Option<(u32, u32, Seq<u8>)>,
    tag2: Seq<u8>,
)
    requires
        0 <= depth1 < u16::MAX,
        0 <= depth2 < u16::MAX,
        row_view(depth1, label1, picture1, tag1) == row_view(depth2, label2, picture2, tag2),
    ensures
        label1 == label2,
        tag1 == tag2,
        depth1 == depth2,
{
    law_row_ends_with_its_label(depth1, label1, picture1, tag1);
    law_row_ends_with_its_label(depth2, label2, picture2, tag2);
}

/// Whether an element is a row that ends with a label and reacts under a tag.
pub open spec fn is_labelled_row(elem: ElemView, label: Seq<char>, tag: Seq<u8>) -> bool {
    elem matches ElemView::Interactive { inner, tag: own, hovered } && own == tag && hovered is None
        && (*inner matches ElemView::Stack { axis, items } && axis == Axis::X && items.len() > 0
        && items.last() == auto_view(plain_view(label)))
}

/// The entries of a menu that the user gets to see: the visible ones that are
/// lines or have a label.
pub open spec fn seen(items: Seq<MenuItem>) -> Seq<MenuItem> {
    items.filter(
        |item: MenuItem|
            item.visible && (item.menu_type == MenuType::Separator || item.label is Some),
    )
}

/// A menu has one row for each entry that the user gets to see.
pub proof fn law_menu_has_a_row_for_each_entry(
    items: Seq<MenuItem>,
    depth: int,
    next: int,
    source: Source,
)
    ensures
        rows_view(items, depth, next, source).len() == seen(items).len(),
    decreases items,
{
    reveal(Seq::filter);
    if items.len() > 0 {
        law_menu_has_a_row_for_each_entry(items.drop_last(), depth, next, source);
    }
}

/// The rows of a menu are those of its first entries, and then those of the
/// others.
proof fn lemma_rows_take(items: Seq<MenuItem>, depth: int, next: int, source: Source, n: int)
    requires
        0 <= n <= items.len(),
    ensures
        rows_view(items.take(n), depth, next, source).len() <= rows_view(
            items,
            depth,
            next,
            source,
        ).len(),
        rows_view(items, depth, next, source).take(
            rows_view(items.take(n), depth, next, source).len() as int,
        ) == rows_view(items.take(n), depth, next, source),
    decreases items.len(),
{
    let part = rows_view(items.take(n), depth, next, source);
    let all = rows_view(items, depth, next, source);
    if n < items.len() {
        lemma_rows_take(items.drop_last(), depth, next, source, n);
        assert(items.drop_last().take(n) =~= items.take(n));
        assert(all.take(part.len() as int) =~= part);
    } else {
        assert(items.take(n) =~= items);
        assert(all.take(part.len() as int) =~= part);
    }
}

/// Each visible entry with a label appears in the menu with its label, in its
/// turn, under a tag of its own; each visible line appears as a line. What
/// belongs below an entry stands below it, one step deeper.
pub proof fn law_entries_appear_with_their_labels(
    items: Seq<MenuItem>,
    depth: int,
    next: int,
    source: Source,
    i: int,
)
    requires
        0 <= i < items.len(),
        0 <= depth < u16::MAX,
        items[i].visible,
        items[i].menu_type == MenuType::Separator || items[i].label is Some,
    ensures
        ({
            let rows = rows_view(items, depth, next, source);
            let n = seen(items.take(i)).len() as int;
            let own = next + menu_tags(items.take(i));
            let below = own + if items[i].menu_type == MenuType::Separator {
                0int
            } else {
                1
            };
            &&& n < rows.len()
            &&& rows[n].opts == (StackItemOpts { length: None, fill_weight: 0 })
            &&& ({
                let head = if items[i].submenu@.len() == 0 {
                    rows[n].elem
                } else {
                    rows[n].elem->Stack_items[0].elem
                };
                &&& items[i].menu_type == MenuType::Standard ==> is_labelled_row(
                    head,
                    (items[i].label->0)@,
                    tag_bytes(own as u64, source.order),
                )
                &&& items[i].menu_type == MenuType::Separator ==> (head matches ElemView::Block {
                    borders,
                    content,
                    ..
                } && content is None && borders == (BlockBorders {
                    top: true,
                    bottom: false,
                    left: false,
                    right: false,
                }))
            })
            &&& items[i].submenu@.len() > 0 ==> (rows[n].elem matches ElemView::Stack {
                axis,
                items: parts,
            } && axis == Axis::Y && parts.len() == 2 && parts[0].opts == (StackItemOpts {
                length: None,
                fill_weight: 0,
            }) && parts[1] == auto_view(
                stack_view(Axis::Y, rows_view(items[i].submenu@, depth + 1, below, source)),
            ))
        }),
{
    let rows = rows_view(items, depth, next, source);
    let front = items.take(i);
    let upto = items.take(i + 1);
    let own = next + menu_tags(front);
    assert(upto.drop_last() =~= front);
    assert(upto.last() == items[i]);
    law_menu_has_a_row_for_each_entry(front, depth, next, source);
    lemma_rows_take(items, depth, next, source, i + 1);
    let n = seen(front).len() as int;
    let some = rows_view(upto, depth, next, source);
    assert(is_drawn(items[i]));
    assert(some == rows_view(front, depth, next, source).push(
        auto_view(item_view(items[i], depth, own, source)),
    ));
    assert(rows.take(some.len() as int)[n] == rows[n]);
    assert(rows[n] == auto_view(item_view(items[i], depth, own, source)));
    if items[i].menu_type == MenuType::Standard {
        law_row_ends_with_its_label(
            depth,
            (items[i].label->0)@,
            entry_picture(items[i]),
            tag_bytes(own as u64, source.order),
        );
    }
}

/// A picture that comes with an entry is shown in its row, and none where none
/// comes or where it is no picture.
pub proof fn law_entry_shows_its_picture(item: MenuItem)
    ensures
        item.icon_data is None ==> entry_picture(item) is None,
        item.icon_data matches Some(data) ==> entry_picture(item) == png_picture(data@),
{
}

/// The requests of a menu carry the tags of its rows, from the first on and none
/// twice, and all go to the application and the path that the menu came from.
pub proof fn law_requests_take_the_tags_in_turn(items: Seq<MenuItem>, next: int, source: Source)
    requires
        source.menu_path is Some,
    ensures
        menu_activations(items, next, source).len() == menu_tags(items),
        forall|k: int|
            0 <= k < menu_tags(items) ==> {
                let request = #[trigger] menu_activations(items, next, source)[k];
                &&& request.tag == tag_bytes((next + k) as u64, source.order)
                &&& request.addr == source.addr
                &&& Some(request.menu_path) == source.menu_path
            },
    decreases items,
{
    if items.len() > 0 {
        let front = items.drop_last();
        let first = menu_activations(front, next, source);
        let then = next + menu_tags(front);
        let others = item_activations(items.last(), then, source);
        law_requests_take_the_tags_in_turn(front, next, source);
        law_requests_of_an_entry(items.last(), then, source);
        assert(menu_activations(items, next, source) == first + others);
        assert forall|k: int| 0 <= k < menu_tags(items) implies {
            let request = #[trigger] menu_activations(items, next, source)[k];
            &&& request.tag == tag_bytes((next + k) as u64, source.order)
            &&& request.addr == source.addr
            &&& Some(request.menu_path) == source.menu_path
        } by {
            if k >= first.len() {
                assert((first + others)[k] == others[k - first.len()]);
                assert(then + (k - first.len()) == next + k);
            } else {
                assert((first + others)[k] == first[k]);
            }
        }
    }
}

/// The requests of an entry, with the menu below it, carry its tags in turn.
pub proof fn law_requests_of_an_entry(item: MenuItem, next: int, source: Source)
    requires
        source.menu_path is Some,
    ensures
        item_activations(item, next, source).len() == item_tags(item),
        forall|k: int|
            0 <= k < item_tags(item) ==> {
                let request = #[trigger] item_activations(item, next, source)[k];
                &&& request.tag == tag_bytes((next + k) as u64, source.order)
                &&& request.addr == source.addr
                &&& Some(request.menu_path) == source.menu_path
            },
    decreases item,
{
    if is_drawn(item) {
        let own = main_activations(item, next, source);
        let then = next_below(item, next);
        let below = menu_activations(item.submenu@, then, source);
        law_requests_take_the_tags_in_turn(item.submenu@, then, source);
        assert(item_activations(item, next, source) == own + below);
        assert(then == next + own.len());
        assert forall|k: int| 0 <= k < item_tags(item) implies {
            let request = #[trigger] item_activations(item, next, source)[k];
            &&& request.tag == tag_bytes((next + k) as u64, source.order)
            &&& request.addr == source.addr
            &&& Some(request.menu_path) == source.menu_path
        } by {
            if k >= own.len() {
                assert((own + below)[k] == below[k - own.len()]);
                assert(then + (k - own.len()) == next + k);
            } else {
                assert((own + below)[k] == own[k]);
            }
        }
    }
}

/// A click on the row of an entry asks the application for that very entry: the
/// request under the tag of the row carries the number of the entry.
pub proof fn law_row_asks_for_its_entry(
    items: Seq<MenuItem>,
    next: int,
    source: Source,
    i: int,
)
    requires
        0 <= i < items.len(),
        items[i].visible,
        items[i].menu_type == MenuType::Standard,
        items[i].label is Some,
        source.menu_path is Some,
    ensures
        menu_activations(items, next, source).contains(
            ActivationView {
                tag: tag_bytes((next + menu_tags(items.take(i))) as u64, source.order),
                addr: source.addr,
                menu_path: source.menu_path->0,
                id: items[i].id,
            },
        ),
    decreases items.len(),
{
    let all = menu_activations(items, next, source);
    let front = items.drop_last();
    let first = menu_activations(front, next, source);
    let others = item_activations(items.last(), next + menu_tags(front), source);
    let wanted = ActivationView {
        tag: tag_bytes((next + menu_tags(items.take(i))) as u64, source.order),
        addr: source.addr,
        menu_path: source.menu_path->0,
        id: items[i].id,
    };
    assert(all == first + others);
    if i < items.len() - 1 {
        law_row_asks_for_its_entry(front, next, source, i);
        assert(front.take(i) =~= items.take(i));
        let k = first.index_of(wanted);
        assert(all[k] == wanted);
    } else {
        assert(items.take(i) =~= front);
        assert(is_drawn(items.last()));
        assert(others[0] == wanted);
        assert(all[first.len() as int] == wanted);
    }
}

/// The icons that an application shows: those with enough bytes.
pub open spec fn whole_icons(icons: Seq<IconPixmap>) -> Seq<IconPixmap> {
    icons.filter(|icon: IconPixmap| icon_fits(icon))
}

/// Each icon with enough bytes appears in the tray, in its turn, under the tag of
/// its application and with room behind it; the others do not appear.
pub proof fn law_icons_react_for_their_application(icons: Seq<IconPixmap>, tag: Seq<u8>)
    ensures
        icons_view(icons, tag).len() == 2 * whole_icons(icons).len(),
        forall|k: int|
            0 <= k < whole_icons(icons).len() ==> {
                let icon = #[trigger] whole_icons(icons)[k];
                &&& icons_view(icons, tag)[2 * k].elem == (ElemView::Interactive {
                    inner: Box::new(
                        image_elem_view(
                            unsigned(icon.width),
                            unsigned(icon.height),
                            Axis::Y,
                            1,
                            base64_text(icon_pixels(icon)),
                        ),
                    ),
                    tag,
                    hovered: None,
                })
                &&& icons_view(icons, tag)[2 * k + 1].elem == (ElemView::Spacing {
                    axis: Axis::X,
                    len: 1,
                })
            },
    decreases icons.len(),
{
    reveal(Seq::filter);
    if icons.len() > 0 {
        law_icons_react_for_their_application(icons.drop_last(), tag);
    }
}

/// What a tray gains with one application. It keeps the tag it has or gets the
/// next one, and nobody else's tag changes. Its tooltip opens under a mouse that
/// hovers over it, its menu on a click with the right button, and what was there
/// before stays in front.
pub proof fn law_application_joins_the_tray(
    shown: TrayShown,
    entry: TrayEntry,
    order: crate::tags::ByteOrder,
)
    ensures
        ({
            let after = with_entry(shown, entry, order);
            let tag = after.tags[entry.addr@];
            let had = shown.menus.len() as int;
            let known = shown.tags.dom().contains(entry.addr@);
            let first = if known {
                shown.next
            } else {
                shown.next + 1
            };
            let tips = if entry.item.tool_tip is Some {
                1int
            } else {
                0
            };
            let contexts = if entry.menu is Some {
                1int
            } else {
                0
            };
            &&& after.tags.dom() == shown.tags.dom().insert(entry.addr@)
            &&& known ==> tag == shown.tags[entry.addr@]
            &&& !known ==> tag == tag_bytes(shown.next as u64, order)
            &&& forall|addr: Seq<char>|
                #![trigger after.tags[addr]]
                addr != entry.addr@ && shown.tags.dom().contains(addr) ==> after.tags[addr]
                    == shown.tags[addr]
            &&& after.menus.len() == had + tips + contexts
            &&& after.menus.take(had) == shown.menus
            &&& entry.item.tool_tip matches Some(tip) ==> {
                &&& after.menus[had].on_tag == tag
                &&& after.menus[had].on_kind == InteractKind::Hover
                &&& after.menus[had].menu_kind == MenuKind::Tooltip
                &&& after.menus[had].tui == tooltip_view(tip.title@, tip.description@)
            }
            &&& entry.menu matches Some(menu) ==> {
                let context = after.menus.last();
                let source = Source {
                    order,
                    addr: entry.addr@,
                    menu_path: match menu.menu_path {
                        Some(path) => Some(path@),
                        None => None,
                    },
                };
                &&& context.on_tag == tag
                &&& context.on_kind == InteractKind::Click(MouseButton::Right)
                &&& context.menu_kind == MenuKind::Context
                &&& context.tui matches ElemView::Block { content, .. } && content == Some(
                    Box::new(stack_view(Axis::Y, rows_view(menu.submenus@, 0, first, source))),
                )
                &&& after.activations == shown.activations + menu_activations(
                    menu.submenus@,
                    first,
                    source,
                )
                &&& after.next == first + menu_tags(menu.submenus@)
            }
            &&& entry.menu is None ==> after.activations == shown.activations && after.next == first
            &&& entry.item.icon_pixmap is None ==> after.items == shown.items
            &&& entry.item.icon_pixmap matches Some(icons) ==> after.items == shown.items
                + icons_view(icons@, tag)
        }),
{
    let after = with_entry(shown, entry, order);
    let had = shown.menus.len() as int;
    assert(after.tags.dom() =~= shown.tags.dom().insert(entry.addr@));
    assert(after.menus.take(had) =~= shown.menus);
    assert(after.activations =~= shown.activations + context_activations(
        entry.menu,
        after.next - context_tags(entry.menu),
        entry.addr@,
        order,
    ));
    if entry.menu is None {
        assert(after.activations =~= shown.activations);
    }
    if entry.item.icon_pixmap is None {
        assert(after.items =~= shown.items);
    }
}

/// The applications of a tray stand in their order: to show some and then others
/// is to show them all.
pub proof fn law_applications_stand_in_order(
    shown: TrayShown,
    first: Seq<TrayEntry>,
    others: Seq<TrayEntry>,
    order: crate::tags::ByteOrder,
)
    ensures
        with_entries(shown, first + others, order) == with_entries(
            with_entries(shown, first, order),
            others,
            order,
        ),
    decreases others.len(),
{
    if others.len() == 0 {
        assert(first + others =~= first);
    } else {
        assert((first + others).drop_last() =~= first + others.drop_last());
        law_applications_stand_in_order(shown, first, others.drop_last(), order);
    }
}

/// A tray of one more application is the tray with that application, and one of
/// none stays as it is.
pub proof fn law_tray_grows_by_one(
    shown: TrayShown,
    entries: Seq<TrayEntry>,
    entry: TrayEntry,
    order: crate::tags::ByteOrder,
)
    ensures
        with_entries(shown, Seq::empty(), order) == shown,
        with_entries(shown, entries.push(entry), order) == with_entry(
            with_entries(shown, entries, order),
            entry,
            order,
        ),
{
    assert(entries.push(entry).drop_last() =~= entries);
}

/// Lists say what their members say, one by one: a request its tag, its address, its
/// path and its number, a menu what it opens on and what it shows.
pub proof fn law_lists_say_what_their_members_say(
    requests: Seq<Activation>,
    menus: Seq<RegisterMenu>,
    i: int,
)
    ensures
        activation_views(requests).len() == requests.len(),
        0 <= i < requests.len() ==> {
            let said = activation_views(requests)[i];
            &&& said.tag == requests[i].tag@
            &&& said.addr == requests[i].addr@
            &&& said.menu_path == requests[i].menu_path@
            &&& said.id == requests[i].id
        },
        menu_views(menus).len() == menus.len(),
        0 <= i < menus.len() ==> {
            let said = menu_views(menus)[i];
            &&& said.on_tag == menus[i].on_tag@
            &&& said.on_kind == menus[i].on_kind
            &&& said.menu_kind == menus[i].menu_kind
            &&& said.tui == menus[i].tui@
        },
{
}

/// A tray begins with nothing in it, with the tags that the applications have so far
/// and with the next tag that the counter gives.
pub proof fn law_tray_begins_empty(
    counter: TagCounter,
    registry: InteractTagRegistry<()>,
    addr: Seq<char>,
)
    ensures
        ({
            let shown = nothing_shown(counter, registry);
            &&& shown.next == counter.next
            &&& shown.menus.len() == 0
            &&& shown.activations.len() == 0
            &&& shown.items.len() == 0
            &&& shown.tags.dom().contains(addr) <==> registry.key_to_tag@.dom().contains(addr)
            &&& registry.key_to_tag@.dom().contains(addr) ==> shown.tags[addr]
                == registry.key_to_tag@[addr].0@
        }),
{
}

/// A menu of an application takes its tags in the order of the counter, and its
/// requests go to the address and the path that it came from.
pub proof fn law_source_is_the_application(
    counter: TagCounter,
    addr: Seq<char>,
    path: String,
    img: RgbaImage,
)
    ensures
        source_of(counter, addr, Some(path)).menu_path == Some(path@),
        source_of(counter, addr, None).menu_path is None,
        source_of(counter, addr, Some(path)).addr == addr,
        source_of(counter, addr, Some(path)).order == counter.order,
        picture_of(Some(img)) == Some((img.width, img.height, img.pixels@)),
        picture_of(None) is None,
{
}

} // verus!
