//! The system tray: icons in the bar, their tooltips and their menus.
use vstd::prelude::*;
use crate::images::{decode_png, png_picture, IconPixmap, RgbaImage};
use crate::strs::{join, join_from, law_lines_come_one_by_one, lines, lines_of, texts};
use crate::tui::{
    auto_view, fill_view, interactive_view, item_views, length_view, plain_view, push_item,
    stack_view, Axis, CustomId, Elem, ElemView, ImageData, ImageView, ItemView, LineSet, StackItem,
    Style,
};
use crate::wire::{
    concat_bytes, encode_i32, encode_text, encode_u32, i32_at_start, i32_bytes,
    law_numbers_are_told_apart, law_signed_numbers_are_told_apart, law_texts_are_told_apart,
    take_i32, take_text, take_u32, text_at_start, text_bytes, u32_at_start, u32_bytes,
};
use crate::xtui::text::Color;
use crate::xtui::BlockBorders;
use std::sync::Arc;

verus! {

#[derive(Clone, Copy, Debug, PartialEq, Eq, Structural)]
pub enum MenuType {
    Separator,
    Standard,
}

/// An entry of a menu.
#[derive(Debug)]
pub struct MenuItem {
    pub id: i32,
    pub menu_type: MenuType,
    pub label: Option<String>,
    pub visible: bool,
    pub icon_data: Option<Vec<u8>>,
    pub submenu: Vec<MenuItem>,
}

#[derive(Debug)]
pub struct Tooltip {
    pub title: String,
    pub description: String,
}

/// An application in the tray.
#[derive(Debug)]
pub struct StatusNotifierItem {
    pub icon_pixmap: Option<Vec<IconPixmap>>,
    pub tool_tip: Option<Tooltip>,
}

/// The menu of an application, and where it takes requests for its entries.
#[derive(Debug)]
pub struct TrayMenuExt {
    pub id: u32,
    pub menu_path: Option<String>,
    pub submenus: Vec<MenuItem>,
}

/// A request for an entry of a menu.
#[derive(Debug)]
pub struct TrayMenuInteract {
    pub addr: String,
    pub menu_path: String,
    pub id: i32,
}

impl Clone for TrayMenuInteract {
    fn clone(&self) -> (r: Self)
        ensures
            r == *self,
    {
        TrayMenuInteract {
            addr: self.addr.clone(),
            menu_path: self.menu_path.clone(),
            id: self.id,
        }
    }
}

/// How deep an entry goes: itself and the menus below it.
pub open spec fn item_height(item: MenuItem) -> nat
    decreases item,
{
    1 + menu_height(item.submenu@)
}

/// How deep a menu goes.
pub open spec fn menu_height(items: Seq<MenuItem>) -> nat
    decreases items,
{
    if items.len() == 0 {
        0
    } else {
        let before = menu_height(items.drop_last());
        let last = item_height(items.last());
        if before >= last {
            before
        } else {
            last
        }
    }
}

/// No entry goes deeper than its menu.
pub proof fn lemma_menu_height(items: Seq<MenuItem>, i: int)
    requires
        0 <= i < items.len(),
    ensures
        item_height(items[i]) <= menu_height(items),
    decreases items.len(),
{
    if i < items.len() - 1 {
        lemma_menu_height(items.drop_last(), i);
    }
}

/// How the icon of an entry gets into the menu: as the file it came in, or as
/// the picture in that file, if there is one.
#[derive(Clone, Copy, Debug, PartialEq, Eq, Structural)]
pub enum IconMode {
    File,
    Picture,
}

/// The icon of an entry.
pub open spec fn menu_icon(data: Option<Vec<u8>>, mode: IconMode) -> Option<ImageView> {
    match data {
        Some(data) => match mode {
            IconMode::File => Some(ImageView::Png { data: data@ }),
            IconMode::Picture => match png_picture(data@) {
                Some((width, height, pixels)) => Some(ImageView::Rgba { width, height, pixels }),
                None => None,
            },
        },
        None => None,
    }
}

fn mk_menu_icon(data: &Option<Vec<u8>>, mode: IconMode) -> (r: Option<ImageData>)
    ensures
        r is Some <==> menu_icon(*data, mode) is Some,
        r matches Some(image) ==> menu_icon(*data, mode) == Some(image@),
{
    match data {
        Some(data) => match mode {
            IconMode::File => {
                let file: Vec<u8> = data.clone();
                proof {
                    assert(file@ =~= data@);
                }
                Some(ImageData::Png { data: Arc::new(file) })
            },
            IconMode::Picture => match decode_png(data) {
                Some(RgbaImage { width, height, pixels }) => Some(
                    ImageData::Rgba { width, height, pixels: Arc::new(pixels) },
                ),
                None => None,
            },
        },
        None => None,
    }
}

/// The first line of a text.
pub open spec fn first_line(text: Seq<char>) -> Seq<char> {
    if lines(text).len() > 0 {
        lines(text)[0]
    } else {
        Seq::empty()
    }
}

/// The lines of a text but the first.
pub open spec fn other_lines(text: Seq<char>) -> Seq<char> {
    if lines(text).len() > 0 {
        join(lines(text).skip(1), "\n"@)
    } else {
        Seq::empty()
    }
}

/// The label of an entry, with its icon in front of the first line.
pub open spec fn label_view(label: Seq<char>, icon: Option<ImageView>) -> ItemView {
    match icon {
        Some(image) => auto_view(
            stack_view(
                Axis::Y,
                seq![
                    length_view(
                        1,
                        stack_view(
                            Axis::X,
                            seq![
                                auto_view(ElemView::Image { image, axis: Axis::Y, len: 1 }),
                                length_view(1, ElemView::Empty),
                                auto_view(plain_view(first_line(label))),
                            ],
                        ),
                    ),
                    auto_view(plain_view(other_lines(label))),
                ],
            ),
        ),
        None => auto_view(plain_view(label)),
    }
}

/// The label of an entry, given its icon.
pub fn label_item(label: &str, icon: Option<ImageData>) -> (r: StackItem)
    ensures
        r@ == label_view(
            label@,
            match icon {
                Some(image) => Some(image@),
                None => None,
            },
        ),
{
    match icon {
        Some(image) => {
            let parts = lines_of(label);
            let (first, rest) = if parts.len() > 0 {
                proof {
                    assert(texts(parts@)[0] == parts@[0]@);
                }
                (parts[0].clone(), join_from(&parts, 1, "\n"))
            } else {
                proof {
                    assert(texts(parts@).len() == 0);
                }
                (String::new(), String::new())
            };
            let mut upper: Vec<StackItem> = Vec::new();
            push_item(&mut upper, StackItem::auto(Elem::image(image, Axis::Y, 1)));
            push_item(&mut upper, StackItem::spacing(1));
            push_item(&mut upper, StackItem::auto(Elem::plain(&first)));
            let ghost upper_view = item_views(upper@);
            let mut both: Vec<StackItem> = Vec::new();
            push_item(&mut both, StackItem::length(1, Elem::stack(Axis::X, upper)));
            push_item(&mut both, StackItem::auto(Elem::plain(&rest)));
            proof {
                assert(texts(parts@).len() == parts@.len());
                assert(upper_view =~= seq![
                    auto_view(ElemView::Image { image: image@, axis: Axis::Y, len: 1 }),
                    length_view(1, ElemView::Empty),
                    auto_view(plain_view(first_line(label@))),
                ]);
                assert(item_views(both@) =~= seq![
                    length_view(1, stack_view(Axis::X, upper_view)),
                    auto_view(plain_view(other_lines(label@))),
                ]);
            }
            StackItem::auto(Elem::stack(Axis::Y, both))
        },
        None => StackItem::auto(Elem::plain(label)),
    }
}

/// The bytes of the tag of a menu entry.
pub open spec fn menu_tag(addr: Seq<char>, menu_path: Seq<char>, id: i32) -> Seq<u8> {
    u32_bytes(0) + (text_bytes(addr) + (text_bytes(menu_path) + i32_bytes(id)))
}

/// What the user can interact with in a menu.
#[derive(Debug)]
pub enum MenuInteractTarget {
    TrayMenu(TrayMenuInteract),
}

/// The entry that some bytes name.
pub open spec fn menu_target_of(bytes: Seq<u8>) -> Option<(Seq<char>, Seq<char>, i32)> {
    match u32_at_start(bytes) {
        Some((kind, rest)) if kind == 0 => match text_at_start(rest, usize::MAX) {
            Some((addr, rest)) => match text_at_start(rest, usize::MAX) {
                Some((menu_path, rest)) => match i32_at_start(rest) {
                    Some((id, _)) => Some((addr, menu_path, id)),
                    None => None,
                },
                None => None,
            },
            None => None,
        },
        _ => None,
    }
}

impl MenuInteractTarget {
    /// The address, the path and the number of the entry.
    pub open spec fn parts(self) -> (Seq<char>, Seq<char>, i32) {
        match self {
            MenuInteractTarget::TrayMenu(it) => (it.addr@, it.menu_path@, it.id),
        }
    }

    pub fn serialize_tag(&self) -> (r: CustomId)
        ensures
            r@ == menu_tag(self.parts().0, self.parts().1, self.parts().2),
    {
        match self {
            MenuInteractTarget::TrayMenu(TrayMenuInteract { addr, menu_path, id }) => {
                let tail = concat_bytes(encode_text(menu_path), encode_i32(*id));
                let tail = concat_bytes(encode_text(addr), tail);
                CustomId::from_bytes(concat_bytes(encode_u32(0), tail))
            },
        }
    }

    /// The target that a tag names. What was made into a tag is found again, and a tag
    /// that begins with another number than that of a menu entry names none.
    pub fn deserialize_tag(tag: &CustomId) -> (r: Option<Self>)
        ensures
            r is Some <==> menu_target_of(tag@) is Some,
            r matches Some(target) ==> menu_target_of(tag@) == Some(target.parts()),
            forall|addr: Seq<char>, menu_path: Seq<char>, id: i32|
                tag@ == #[trigger] menu_tag(addr, menu_path, id) ==> r is Some && (r->0).parts() == (
                    addr,
                    menu_path,
                    id,
                ),
            forall|kind: u32, rest: Seq<u8>|
                kind != 0 && tag@ == #[trigger] (u32_bytes(kind) + rest) ==> r is None,
    {
        let (kind, after_kind) = match take_u32(&tag.bytes) {
            Some(it) => it,
            None => {
                return None;
            },
        };
        if kind != 0 {
            return None;
        }
        let (addr, after_addr) = match take_text(&after_kind) {
            Some(it) => it,
            None => {
                return None;
            },
        };
        let (menu_path, after_path) = match take_text(&after_addr) {
            Some(it) => it,
            None => {
                return None;
            },
        };
        proof {
            assert forall|a: Seq<char>, p: Seq<char>, id: i32| tag@ == #[trigger] menu_tag(a, p, id) implies
                addr@ == a && menu_path@ == p && after_path@ == i32_bytes(id) by {
                let tail = text_bytes(p) + i32_bytes(id);
                assert(tag@ == u32_bytes(0) + (text_bytes(a) + tail));
                assert(after_kind@ == text_bytes(a) + tail);
                assert(after_addr@ == text_bytes(p) + i32_bytes(id));
            }
            assert forall|id: i32| after_path@ == #[trigger] i32_bytes(id) implies after_path@
                == i32_bytes(id) + Seq::<u8>::empty() by {
                assert(i32_bytes(id) + Seq::<u8>::empty() =~= i32_bytes(id));
            }
        }
        match take_i32(&after_path) {
            Some((id, _)) => Some(
                MenuInteractTarget::TrayMenu(TrayMenuInteract { addr, menu_path, id }),
            ),
            None => None,
        }
    }
}

/// The line between two parts of a menu.
pub open spec fn separator_view() -> ElemView {
    ElemView::Block {
        borders: BlockBorders { top: true, bottom: false, left: false, right: false },
        fg: Color::DarkGrey,
        lines: LineSet::Normal,
        content: None,
    }
}

fn mk_separator() -> (r: Elem)
    ensures
        r@ == separator_view(),
{
    Elem::block(
        BlockBorders { top: true, bottom: false, left: false, right: false },
        Color::DarkGrey,
        LineSet::Normal,
        None,
    )
}

/// An entry of a menu that is drawn as text. It can be chosen where the menu
/// takes requests.
pub open spec fn entry_view(
    item: MenuItem,
    depth: int,
    addr: Seq<char>,
    menu_path: Option<Seq<char>>,
    mode: IconMode,
) -> ElemView {
    let row = stack_view(
        Axis::X,
        seq![
            length_view((depth + 1) as u16, ElemView::Empty),
            label_view((item.label->0)@, menu_icon(item.icon_data, mode)),
            length_view(1, ElemView::Empty),
        ],
    );
    match menu_path {
        Some(path) => interactive_view(row, menu_tag(addr, path, item.id)),
        None => row,
    }
}

/// An entry of a menu, with the menu below it: nothing where it is not visible,
/// nor where it is neither a line nor has a label.
pub open spec fn menu_item_view(
    item: MenuItem,
    depth: int,
    addr: Seq<char>,
    menu_path: Option<Seq<char>>,
    mode: IconMode,
) -> Option<ElemView>
    decreases item,
{
    if !item.visible {
        None
    } else if item.menu_type == MenuType::Standard && item.label is None {
        None
    } else {
        let main = if item.menu_type == MenuType::Separator {
            separator_view()
        } else {
            entry_view(item, depth, addr, menu_path, mode)
        };
        if item.submenu@.len() == 0 {
            Some(main)
        } else {
            Some(
                stack_view(
                    Axis::Y,
                    seq![
                        auto_view(main),
                        auto_view(
                            stack_view(
                                Axis::Y,
                                menu_rows(item.submenu@, depth + 1, addr, menu_path, mode),
                            ),
                        ),
                    ],
                ),
            )
        }
    }
}

/// The entries of a menu, one below the other.
pub open spec fn menu_rows(
    items: Seq<MenuItem>,
    depth: int,
    addr: Seq<char>,
    menu_path: Option<Seq<char>>,
    mode: IconMode,
) -> Seq<ItemView>
    decreases items,
{
    if items.len() == 0 {
        Seq::empty()
    } else {
        let before = menu_rows(items.drop_last(), depth, addr, menu_path, mode);
        match menu_item_view(items.last(), depth, addr, menu_path, mode) {
            Some(elem) => before.push(auto_view(elem)),
            None => before,
        }
    }
}

/// The text of a path, if there is one.
pub open spec fn path_view(menu_path: Option<String>) -> Option<Seq<char>> {
    match menu_path {
        Some(path) => Some(path@),
        None => None,
    }
}

fn tray_menu_item_to_tui(
    depth: u16,
    item: &MenuItem,
    addr: &String,
    menu_path: &Option<String>,
    mode: IconMode,
) -> (r: Option<Elem>)
    requires
        depth + item_height(*item) <= u16::MAX,
    ensures
        r is Some <==> menu_item_view(*item, depth as int, addr@, path_view(*menu_path), mode) is Some,
        r matches Some(elem) ==> menu_item_view(
            *item,
            depth as int,
            addr@,
            path_view(*menu_path),
            mode,
        ) == Some(elem@),
    decreases item_height(*item), 0int,
{
    if !item.visible {
        return None;
    }
    let main = match item.menu_type {
        MenuType::Separator => mk_separator(),
        MenuType::Standard => {
            let label = match &item.label {
                Some(label) => label,
                None => {
                    return None;
                },
            };
            let icon = mk_menu_icon(&item.icon_data, mode);
            let mut items: Vec<StackItem> = Vec::new();
            push_item(&mut items, StackItem::spacing(depth + 1));
            push_item(&mut items, label_item(label, icon));
            push_item(&mut items, StackItem::spacing(1));
            proof {
                assert(item_views(items@) =~= seq![
                    length_view((depth + 1) as u16, ElemView::Empty),
                    label_view((item.label->0)@, menu_icon(item.icon_data, mode)),
                    length_view(1, ElemView::Empty),
                ]);
            }
            let row = Elem::stack(Axis::X, items);
            match menu_path {
                Some(path) => {
                    let target = MenuInteractTarget::TrayMenu(
                        TrayMenuInteract {
                            addr: addr.clone(),
                            menu_path: path.clone(),
                            id: item.id,
                        },
                    );
                    row.interactive(target.serialize_tag())
                },
                None => row,
            }
        },
    };
    if item.submenu.len() == 0 {
        Some(main)
    } else {
        let ghost main_view = main@;
        let below = tray_menu_to_tui(depth + 1, &item.submenu, addr, menu_path, mode);
        let ghost below_view = below@;
        let mut both: Vec<StackItem> = Vec::new();
        push_item(&mut both, StackItem::auto(main));
        push_item(&mut both, StackItem::auto(below));
        proof {
            assert(item_views(both@) =~= seq![auto_view(main_view), auto_view(below_view)]);
        }
        Some(Elem::stack(Axis::Y, both))
    }
}

/// A menu: its entries, one below the other, each further in than the menu it
/// belongs to.
pub fn tray_menu_to_tui(
    depth: u16,
    items: &Vec<MenuItem>,
    addr: &String,
    menu_path: &Option<String>,
    mode: IconMode,
) -> (r: Elem)
    requires
        depth + menu_height(items@) <= u16::MAX,
    ensures
        r@ == stack_view(
            Axis::Y,
            menu_rows(items@, depth as int, addr@, path_view(*menu_path), mode),
        ),
    decreases menu_height(items@), 1int,
{
    let mut rows: Vec<StackItem> = Vec::new();
    let mut i: usize = 0;
    let ghost path = path_view(*menu_path);
    proof {
        assert(items@.take(0) =~= Seq::empty());
    }
    while i < items.len()
        invariant
            0 <= i <= items@.len(),
            path == path_view(*menu_path),
            depth + menu_height(items@) <= u16::MAX,
            item_views(rows@) == menu_rows(items@.take(i as int), depth as int, addr@, path, mode),
        decreases items@.len() - i,
    {
        proof {
            lemma_menu_height(items@, i as int);
            assert(items@.take(i + 1).drop_last() =~= items@.take(i as int));
            assert(items@.take(i + 1).last() == items@[i as int]);
        }
        if let Some(elem) = tray_menu_item_to_tui(depth, &items[i], addr, menu_path, mode) {
            push_item(&mut rows, StackItem::auto(elem));
        }
        i += 1;
    }
    proof {
        assert(items@.take(i as int) =~= items@);
    }
    Elem::stack(Axis::Y, rows)
}

/// A frame around a menu.
pub open spec fn framed_view(elem: ElemView) -> ElemView {
    ElemView::Block {
        borders: BlockBorders { top: true, bottom: true, left: true, right: true },
        fg: Color::DarkGrey,
        lines: LineSet::Thick,
        content: Some(Box::new(elem)),
    }
}

fn framed(elem: Elem) -> (r: Elem)
    ensures
        r@ == framed_view(elem@),
{
    Elem::block(BlockBorders::all(), Color::DarkGrey, LineSet::Thick, Some(elem))
}

/// A tooltip: the title, bold and in the middle, and the description.
pub open spec fn tooltip_view(title: Seq<char>, description: Seq<char>) -> ElemView {
    stack_view(
        Axis::Y,
        seq![
            auto_view(
                stack_view(
                    Axis::X,
                    seq![
                        fill_view(1, ElemView::Empty),
                        auto_view(ElemView::Text { text: title, style: Style::bolded() }),
                        fill_view(1, ElemView::Empty),
                    ],
                ),
            ),
            auto_view(plain_view(description)),
        ],
    )
}

pub fn tooltip_to_tui(tooltip: &Tooltip) -> (r: Elem)
    ensures
        r@ == tooltip_view(tooltip.title@, tooltip.description@),
{
    let mut upper: Vec<StackItem> = Vec::new();
    push_item(&mut upper, StackItem::fill(1, Elem::empty()));
    push_item(&mut upper, StackItem::auto(Elem::text(&tooltip.title, Style::bolded())));
    push_item(&mut upper, StackItem::fill(1, Elem::empty()));
    let ghost upper_view = item_views(upper@);
    let mut both: Vec<StackItem> = Vec::new();
    push_item(&mut both, StackItem::auto(Elem::stack(Axis::X, upper)));
    push_item(&mut both, StackItem::auto(Elem::plain(&tooltip.description)));
    proof {
        assert(upper_view =~= seq![
            fill_view(1, ElemView::Empty),
            auto_view(ElemView::Text { text: tooltip.title@, style: Style::bolded() }),
            fill_view(1, ElemView::Empty),
        ]);
        assert(item_views(both@) =~= seq![
            auto_view(stack_view(Axis::X, upper_view)),
            auto_view(plain_view(tooltip.description@)),
        ]);
    }
    Elem::stack(Axis::Y, both)
}

/// The description of the whole menu of an application.
pub open spec fn context_view(addr: Seq<char>, menu: TrayMenuExt, mode: IconMode) -> ElemView {
    framed_view(
        stack_view(
            Axis::Y,
            menu_rows(menu.submenus@, 0, addr, path_view(menu.menu_path), mode),
        ),
    )
}

/// The whole menu of an application.
pub fn context_to_tui(addr: &String, menu: &TrayMenuExt, mode: IconMode) -> (r: Elem)
    requires
        menu_height(menu.submenus@) <= u16::MAX,
    ensures
        r@ == context_view(addr@, *menu, mode),
{
    framed(tray_menu_to_tui(0, &menu.submenus, addr, &menu.menu_path, mode))
}

/// Entries that are not visible are left out of a menu, with all that is below
/// them.
pub proof fn law_invisible_entries_are_left_out(
    items: Seq<MenuItem>,
    depth: int,
    addr: Seq<char>,
    menu_path: Option<Seq<char>>,
    mode: IconMode,
)
    ensures
        menu_rows(items, depth, addr, menu_path, mode) == menu_rows(
            items.filter(|item: MenuItem| item.visible),
            depth,
            addr,
            menu_path,
            mode,
        ),
    decreases items.len(),
{
    reveal(Seq::filter);
    let visible = |item: MenuItem| item.visible;
    if items.len() > 0 {
        law_invisible_entries_are_left_out(items.drop_last(), depth, addr, menu_path, mode);
        let front = items.drop_last().filter(visible);
        let last = items.last();
        assert(front.push(last).drop_last() =~= front);
        if last.visible {
            assert(items.filter(visible) == front.push(last));
            assert(front.push(last).last() == last);
        } else {
            assert(items.filter(visible) == front);
            assert(menu_item_view(last, depth, addr, menu_path, mode) is None);
        }
    }
}

/// The tag of an entry names its application, its path and its number: other ones
/// have another tag.
pub proof fn law_entries_have_their_own_tags(
    addr1: Seq<char>,
    path1: Seq<char>,
    id1: i32,
    addr2: Seq<char>,
    path2: Seq<char>,
    id2: i32,
)
    requires
        menu_tag(addr1, path1, id1) == menu_tag(addr2, path2, id2),
    ensures
        addr1 == addr2,
        path1 == path2,
        id1 == id2,
{
    let nothing = Seq::<u8>::empty();
    let tail1 = text_bytes(path1) + i32_bytes(id1);
    let tail2 = text_bytes(path2) + i32_bytes(id2);
    law_numbers_are_told_apart(0, 0, text_bytes(addr1) + tail1, text_bytes(addr2) + tail2);
    law_texts_are_told_apart(addr1, addr2, tail1, tail2);
    law_texts_are_told_apart(path1, path2, i32_bytes(id1), i32_bytes(id2));
    assert(i32_bytes(id1) + nothing =~= i32_bytes(id2) + nothing);
    law_signed_numbers_are_told_apart(id1, id2, nothing, nothing);
}

/// The first line of a label is what stands before its first line feed, and the
/// other lines are the lines behind it. A label of one line has no others.
pub proof fn law_label_falls_into_lines(first: Seq<char>, others: Seq<char>)
    requires
        forall|i: int| 0 <= i < first.len() ==> #[trigger] first[i] != '\n',
        first.len() > 0 ==> first.last() != '\r',
    ensures
        first_line(first + seq!['\n'] + others) == first,
        other_lines(first + seq!['\n'] + others) == join(lines(others), seq!['\n']),
        first_line(first) == first,
        other_lines(first).len() == 0,
{
    reveal_strlit("\n");
    assert("\n"@ =~= seq!['\n']);
    law_lines_come_one_by_one(first, others);
    let text = first + seq!['\n'] + others;
    assert(lines(text).skip(1) =~= lines(others));
    if first.len() > 0 {
        assert(lines(first).skip(1) =~= Seq::empty());
    } else {
        assert(first =~= Seq::empty());
    }
}

/// A label without an icon is plain text. With an icon, the icon stands one line
/// high before the first line, a cell apart, and the other lines stand below.
pub proof fn law_label_shows_its_icon(label: Seq<char>, image: ImageView)
    ensures
        label_view(label, None) == auto_view(plain_view(label)),
        label_view(label, Some(image)).elem matches ElemView::Stack { axis, items } && {
            &&& axis == Axis::Y
            &&& items.len() == 2
            &&& items[1] == auto_view(plain_view(other_lines(label)))
            &&& items[0].opts.length == Some(1u16)
            &&& items[0].elem matches ElemView::Stack { axis: across, items: upper } && {
                &&& across == Axis::X
                &&& upper == seq![
                    auto_view(ElemView::Image { image, axis: Axis::Y, len: 1 }),
                    length_view(1, ElemView::Empty),
                    auto_view(plain_view(first_line(label))),
                ]
            }
        },
{
}

/// An icon comes as the file that the entry brings, or as the picture in it; an
/// entry without one, or with a file that holds no picture, has none.
pub proof fn law_icon_comes_as_asked(data: Vec<u8>)
    ensures
        menu_icon(Some(data), IconMode::File) == Some(ImageView::Png { data: data@ }),
        png_picture(data@) matches Some((width, height, pixels)) ==> menu_icon(
            Some(data),
            IconMode::Picture,
        ) == Some(ImageView::Rgba { width, height, pixels }),
        png_picture(data@) is None ==> menu_icon(Some(data), IconMode::Picture) is None,
        forall|mode: IconMode| menu_icon(None, mode) is None,
{
}

/// An entry shows its label, as many cells in as it is deep in the menu, and one.
/// It reacts under the tag of its own number exactly where the menu takes requests.
pub proof fn law_entry_shows_its_label(
    item: MenuItem,
    depth: int,
    addr: Seq<char>,
    path: Seq<char>,
    mode: IconMode,
)
    requires
        0 <= depth < u16::MAX,
    ensures
        ({
            let plain = entry_view(item, depth, addr, None, mode);
            &&& entry_view(item, depth, addr, Some(path), mode) == (ElemView::Interactive {
                inner: Box::new(plain),
                tag: menu_tag(addr, path, item.id),
                hovered: None,
            })
            &&& plain matches ElemView::Stack { axis, items } && {
                &&& axis == Axis::X
                &&& items.len() == 3
                &&& items[0].elem == ElemView::Empty
                &&& items[0].opts.length matches Some(len) && len == depth + 1
                &&& items[1] == label_view((item.label->0)@, menu_icon(item.icon_data, mode))
                &&& items[2] == length_view(1, ElemView::Empty)
            }
        }),
{
}

/// The entries of a menu that the user gets to see: the visible ones that are
/// lines or have a label.
pub open spec fn seen(items: Seq<MenuItem>) -> Seq<MenuItem> {
    items.filter(
        |item: MenuItem|
            item.visible && (item.menu_type == MenuType::Separator || item.label is Some),
    )
}

/// A menu has one row for each entry that the user gets to see, in their order. An
/// entry with a label is shown as such, a line as a line, and what belongs below it
/// stands below it, one step deeper.
pub proof fn law_menu_shows_each_entry(
    items: Seq<MenuItem>,
    depth: int,
    addr: Seq<char>,
    menu_path: Option<Seq<char>>,
    mode: IconMode,
)
    ensures
        menu_rows(items, depth, addr, menu_path, mode).len() == seen(items).len(),
        forall|k: int|
            0 <= k < seen(items).len() ==> {
                let item = #[trigger] seen(items)[k];
                let row = menu_rows(items, depth, addr, menu_path, mode)[k];
                let main = if item.menu_type == MenuType::Standard {
                    entry_view(item, depth, addr, menu_path, mode)
                } else {
                    separator_view()
                };
                &&& item.submenu@.len() == 0 ==> row == auto_view(main)
                &&& item.submenu@.len() > 0 ==> row == auto_view(
                    stack_view(
                        Axis::Y,
                        seq![
                            auto_view(main),
                            auto_view(
                                stack_view(
                                    Axis::Y,
                                    menu_rows(item.submenu@, depth + 1, addr, menu_path, mode),
                                ),
                            ),
                        ],
                    ),
                )
            },
    decreases items.len(),
{
    reveal(Seq::filter);
    if items.len() > 0 {
        law_menu_shows_each_entry(items.drop_last(), depth, addr, menu_path, mode);
        let last = items.last();
        let shown = menu_item_view(last, depth, addr, menu_path, mode);
        assert(shown is Some <==> last.visible && (last.menu_type == MenuType::Separator
            || last.label is Some));
    }
}

/// A line is drawn at the top, a frame on all four sides and around its content. A
/// tooltip has its title in the middle of the first line, bold, and its description
/// below.
pub proof fn law_menus_are_decorated(elem: ElemView, title: Seq<char>, description: Seq<char>)
    ensures
        separator_view() matches ElemView::Block { borders, fg, lines, content } && {
            &&& borders.top && !borders.bottom && !borders.left && !borders.right
            &&& fg == Color::DarkGrey
            &&& lines == LineSet::Normal
            &&& content is None
        },
        framed_view(elem) matches ElemView::Block { borders, fg, lines, content } && {
            &&& borders.top && borders.bottom && borders.left && borders.right
            &&& fg == Color::DarkGrey
            &&& lines == LineSet::Thick
            &&& content == Some(Box::new(elem))
        },
        tooltip_view(title, description) matches ElemView::Stack { axis, items } && {
            &&& axis == Axis::Y
            &&& items.len() == 2
            &&& items[0].elem matches ElemView::Stack { axis: across, items: upper } && {
                &&& across == Axis::X
                &&& upper.len() == 3
                &&& upper[0] == fill_view(1, ElemView::Empty)
                &&& upper[1].elem == (ElemView::Text {
                    text: title,
                    style: Style { fg: Color::Unset, bold: true, underlined: false },
                })
                &&& upper[2] == upper[0]
            }
            &&& items[1] == auto_view(plain_view(description))
        },
{
}

/// The menu of an application is all of its entries in a frame, and asks that
/// application under the path that came with the menu.
pub proof fn law_context_menu_holds_its_entries(
    addr: Seq<char>,
    menu: TrayMenuExt,
    mode: IconMode,
)
    ensures
        context_view(addr, menu, mode) == framed_view(
            ElemView::Stack {
                axis: Axis::Y,
                items: menu_rows(
                    menu.submenus@,
                    0,
                    addr,
                    match menu.menu_path {
                        Some(path) => Some(path@),
                        None => None,
                    },
                    mode,
                ),
            },
        ),
{
}

} // verus!
