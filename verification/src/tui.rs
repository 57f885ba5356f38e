//! Elements: the tree that describes what a terminal shows, and what the user
//! does with it.
use vstd::prelude::*;
use std::sync::Arc;
use crate::xtui::text::Color;
use crate::xtui::BlockBorders;

verus! {

#[derive(Clone, Copy, Debug, PartialEq, Eq, Structural)]
pub enum Axis {
    X,
    Y,
}

/// An extent in cells.
#[derive(Clone, Copy, Debug, PartialEq, Eq, Structural)]
pub struct Size {
    pub width: u16,
    pub height: u16,
}

/// A point, in pixels of the screen.
#[derive(Clone, Copy, Debug, PartialEq, Eq, Structural)]
pub struct Location {
    pub x: u32,
    pub y: u32,
}

/// A part of the terminal, in cells.
#[derive(Clone, Copy, Debug, PartialEq, Eq, Structural)]
pub struct Area {
    pub x: u16,
    pub y: u16,
    pub size: Size,
}

/// How large a terminal is, and one cell of it in pixels.
#[derive(Clone, Copy, Debug, PartialEq, Eq, Structural)]
pub struct Sizes {
    pub cell_size: Size,
    pub font_size: Size,
}

/// The length that an element takes on one axis, and the ratio of its sides.
#[derive(Clone, Copy, Debug, PartialEq, Eq, Structural)]
pub struct MinAxis {
    pub axis: Axis,
    pub len: u16,
    pub aspect_width: u32,
    pub aspect_height: u32,
}

#[derive(Clone, Copy, Debug, PartialEq, Eq, Structural)]
pub enum MouseButton {
    Left,
    Right,
    Middle,
}

#[derive(Clone, Copy, Debug, PartialEq, Eq, Structural)]
pub enum Direction {
    Up,
    Down,
    Left,
    Right,
}

/// What the user did with the mouse.
#[derive(Clone, Copy, Debug, PartialEq, Eq, Structural)]
pub enum InteractKind {
    Hover,
    Click(MouseButton),
    Scroll(Direction),
}

/// The bytes by which an element is found again when the user interacts with it.
#[derive(Debug)]
pub struct CustomId {
    pub bytes: Arc<Vec<u8>>,
}

impl View for CustomId {
    type V = Seq<u8>;

    open spec fn view(&self) -> Seq<u8> {
        self.bytes@
    }
}

impl Clone for CustomId {
    fn clone(&self) -> (r: Self)
        ensures
            r == *self,
    {
        CustomId { bytes: self.bytes.clone() }
    }
}

/// Whether two byte strings are equal.
pub fn same_bytes(a: &Vec<u8>, b: &Vec<u8>) -> (r: bool)
    ensures
        r == (a@ == b@),
{
    if a.len() != b.len() {
        return false;
    }
    let mut i: usize = 0;
    while i < a.len()
        invariant
            a@.len() == b@.len(),
            0 <= i <= a@.len(),
            forall|j: int| 0 <= j < i ==> a@[j] == b@[j],
        decreases a@.len() - i,
    {
        if a[i] != b[i] {
            return false;
        }
        i += 1;
    }
    proof {
        assert(a@ =~= b@);
    }
    true
}

impl CustomId {
    pub fn from_bytes(bytes: Vec<u8>) -> (r: Self)
        ensures
            r@ == bytes@,
    {
        CustomId { bytes: Arc::new(bytes) }
    }

    /// Whether both are made of the same bytes.
    pub fn same(&self, other: &Self) -> (r: bool)
        ensures
            r == (self@ == other@),
    {
        same_bytes(&self.bytes, &other.bytes)
    }
}

/// How a text looks.
#[derive(Clone, Copy, Debug, PartialEq, Eq, Structural)]
pub struct Style {
    pub fg: Color,
    pub bold: bool,
    pub underlined: bool,
}

impl Style {
    /// Text without any decoration.
    pub open spec fn spec_plain() -> Style {
        Style { fg: Color::Unset, bold: false, underlined: false }
    }

    #[verifier::when_used_as_spec(spec_plain)]
    pub fn plain() -> (r: Self)
        ensures
            r == Self::spec_plain(),
    {
        Style { fg: Color::Unset, bold: false, underlined: false }
    }

    /// Text in the given color.
    pub open spec fn spec_colored(fg: Color) -> Style {
        Style { fg, bold: false, underlined: false }
    }

    #[verifier::when_used_as_spec(spec_colored)]
    pub fn colored(fg: Color) -> (r: Self)
        ensures
            r == Self::spec_colored(fg),
    {
        Style { fg, bold: false, underlined: false }
    }

    /// Bold text.
    pub open spec fn spec_bolded() -> Style {
        Style { fg: Color::Unset, bold: true, underlined: false }
    }

    #[verifier::when_used_as_spec(spec_bolded)]
    pub fn bolded() -> (r: Self)
        ensures
            r == Self::spec_bolded(),
    {
        Style { fg: Color::Unset, bold: true, underlined: false }
    }
}

/// A picture: four bytes per pixel, or a file in the PNG format.
#[derive(Debug)]
pub enum ImageData {
    Rgba { width: u32, height: u32, pixels: Arc<Vec<u8>> },
    Png { data: Arc<Vec<u8>> },
}

/// What an [`ImageData`] holds.
#[verifier::ext_equal]
pub enum ImageView {
    Rgba { width: u32, height: u32, pixels: Seq<u8> },
    Png { data: Seq<u8> },
}

impl View for ImageData {
    type V = ImageView;

    open spec fn view(&self) -> ImageView {
        match *self {
            ImageData::Rgba { width, height, pixels } => ImageView::Rgba {
                width,
                height,
                pixels: pixels@,
            },
            ImageData::Png { data } => ImageView::Png { data: data@ },
        }
    }
}

impl Clone for ImageData {
    fn clone(&self) -> (r: Self)
        ensures
            r == *self,
    {
        match self {
            ImageData::Rgba { width, height, pixels } => ImageData::Rgba {
                width: *width,
                height: *height,
                pixels: pixels.clone(),
            },
            ImageData::Png { data } => ImageData::Png { data: data.clone() },
        }
    }
}

/// How much room an item of a stack gets: a fixed length, a share of what is
/// left, or what it needs.
#[derive(Clone, Copy, Debug, PartialEq, Eq, Structural)]
pub struct StackItemOpts {
    pub length: Option<u16>,
    pub fill_weight: u16,
}

#[derive(Debug)]
pub struct StackItem {
    pub elem: Elem,
    pub opts: StackItemOpts,
}

/// The lines of which a frame is made.
#[derive(Clone, Copy, Debug, PartialEq, Eq, Structural)]
pub enum LineSet {
    Normal,
    Thick,
}

/// The kinds of elements.
#[derive(Debug)]
pub enum Node {
    /// Nothing.
    Empty,
    /// Text, line by line.
    Text { text: String, style: Style },
    /// Text that goes to the terminal as it is, escape sequences and all.
    RawPrint { text: String },
    /// One symbol in every cell.
    FillCells { symbol: String },
    /// A picture that takes `len` cells on `axis`.
    Image { image: ImageData, axis: Axis, len: u16 },
    /// Empty room on one axis.
    Spacing { axis: Axis, len: u16 },
    /// Elements side by side.
    Stack { axis: Axis, items: Vec<StackItem> },
    /// An element with a least size.
    MinSize { inner: Elem, size: Size },
    /// An element with a length on one axis and a ratio of its sides.
    MinAxis { inner: Elem, min: MinAxis },
    /// A frame, with or without something in it.
    Block { borders: BlockBorders, fg: Color, lines: LineSet, content: Option<Elem> },
    /// An element that reacts to the mouse, and what takes its place while the
    /// mouse is over it.
    Interactive { inner: Elem, tag: CustomId, hovered: Option<Elem> },
}

#[derive(Debug)]
pub struct Elem {
    pub node: Arc<Node>,
}

/// What an [`Elem`] describes.
#[verifier::ext_equal]
pub enum ElemView {
    Empty,
    Text { text: Seq<char>, style: Style },
    RawPrint { text: Seq<char> },
    FillCells { symbol: Seq<char> },
    Image { image: ImageView, axis: Axis, len: u16 },
    Spacing { axis: Axis, len: u16 },
    Stack { axis: Axis, items: Seq<ItemView> },
    MinSize { inner: Box<ElemView>, size: Size },
    MinAxis { inner: Box<ElemView>, min: MinAxis },
    Block { borders: BlockBorders, fg: Color, lines: LineSet, content: Option<Box<ElemView>> },
    Interactive { inner: Box<ElemView>, tag: Seq<u8>, hovered: Option<Box<ElemView>> },
}

/// What a [`StackItem`] describes.
#[verifier::ext_equal]
pub struct ItemView {
    pub elem: ElemView,
    pub opts: StackItemOpts,
}

/// What an element describes.
pub open spec fn elem_view(elem: Elem) -> ElemView
    decreases elem,
{
    match *elem.node {
        Node::Empty => ElemView::Empty,
        Node::Text { text, style } => ElemView::Text { text: text@, style },
        Node::RawPrint { text } => ElemView::RawPrint { text: text@ },
        Node::FillCells { symbol } => ElemView::FillCells { symbol: symbol@ },
        Node::Image { image, axis, len } => ElemView::Image { image: image@, axis, len },
        Node::Spacing { axis, len } => ElemView::Spacing { axis, len },
        Node::Stack { axis, items } => ElemView::Stack { axis, items: item_views(items@) },
        Node::MinSize { inner, size } => ElemView::MinSize {
            inner: Box::new(elem_view(inner)),
            size,
        },
        Node::MinAxis { inner, min } => ElemView::MinAxis {
            inner: Box::new(elem_view(inner)),
            min,
        },
        Node::Block { borders, fg, lines, content } => ElemView::Block {
            borders,
            fg,
            lines,
            content: match content {
                Some(elem) => Some(Box::new(elem_view(elem))),
                None => None,
            },
        },
        Node::Interactive { inner, tag, hovered } => ElemView::Interactive {
            inner: Box::new(elem_view(inner)),
            tag: tag@,
            hovered: match hovered {
                Some(elem) => Some(Box::new(elem_view(elem))),
                None => None,
            },
        },
    }
}

/// What a list of items describes, item by item.
pub open spec fn item_views(items: Seq<StackItem>) -> Seq<ItemView>
    decreases items,
{
    if items.len() == 0 {
        Seq::empty()
    } else {
        item_views(items.drop_last()).push(
            ItemView { elem: elem_view(items.last().elem), opts: items.last().opts },
        )
    }
}

impl View for Elem {
    type V = ElemView;

    open spec fn view(&self) -> ElemView {
        elem_view(*self)
    }
}

impl View for StackItem {
    type V = ItemView;

    open spec fn view(&self) -> ItemView {
        ItemView { elem: self.elem@, opts: self.opts }
    }
}

/// The description of a list has one part for each item.
pub proof fn lemma_item_views(items: Seq<StackItem>)
    ensures
        item_views(items).len() == items.len(),
        forall|i: int| 0 <= i < items.len() ==> #[trigger] item_views(items)[i] == items[i]@,
    decreases items.len(),
{
    if items.len() > 0 {
        lemma_item_views(items.drop_last());
    }
}

/// A description that takes what it needs of a stack.
pub open spec fn auto_view(elem: ElemView) -> ItemView {
    ItemView { elem, opts: StackItemOpts { length: None, fill_weight: 0 } }
}

/// A description that takes a share of what is left of a stack.
pub open spec fn fill_view(weight: u16, elem: ElemView) -> ItemView {
    ItemView { elem, opts: StackItemOpts { length: None, fill_weight: weight } }
}

/// A description that takes `len` cells of a stack.
pub open spec fn length_view(len: u16, elem: ElemView) -> ItemView {
    ItemView { elem, opts: StackItemOpts { length: Some(len), fill_weight: 0 } }
}

/// The description of plain text.
pub open spec fn plain_view(text: Seq<char>) -> ElemView {
    ElemView::Text { text, style: Style::spec_plain() }
}

/// The description of a stack.
pub open spec fn stack_view(axis: Axis, items: Seq<ItemView>) -> ElemView {
    ElemView::Stack { axis, items }
}

/// The description of an element that reacts to the mouse.
pub open spec fn interactive_view(elem: ElemView, tag: Seq<u8>) -> ElemView {
    ElemView::Interactive { inner: Box::new(elem), tag, hovered: None }
}

/// The description of an element with a least size.
pub open spec fn min_size_view(elem: ElemView, size: Size) -> ElemView {
    ElemView::MinSize { inner: Box::new(elem), size }
}

impl Clone for Elem {
    fn clone(&self) -> (r: Self)
        ensures
            r == *self,
    {
        Elem { node: self.node.clone() }
    }
}

impl Clone for StackItem {
    fn clone(&self) -> (r: Self)
        ensures
            r == *self,
    {
        StackItem { elem: self.elem.clone(), opts: self.opts }
    }
}

impl Elem {
    pub fn empty() -> (r: Self)
        ensures
            r@ == ElemView::Empty,
    {
        Elem { node: Arc::new(Node::Empty) }
    }

    pub fn text(text: &str, style: Style) -> (r: Self)
        ensures
            r@ == (ElemView::Text { text: text@, style }),
    {
        Elem { node: Arc::new(Node::Text { text: text.to_owned(), style }) }
    }

    /// Text without decoration.
    pub fn plain(text: &str) -> (r: Self)
        ensures
            r@ == plain_view(text@),
    {
        Elem::text(text, Style::plain())
    }

    pub fn raw_print(text: &str) -> (r: Self)
        ensures
            r@ == (ElemView::RawPrint { text: text@ }),
    {
        Elem { node: Arc::new(Node::RawPrint { text: text.to_owned() }) }
    }

    pub fn fill_cells_single(symbol: &str) -> (r: Self)
        ensures
            r@ == (ElemView::FillCells { symbol: symbol@ }),
    {
        Elem { node: Arc::new(Node::FillCells { symbol: symbol.to_owned() }) }
    }

    pub fn image(image: ImageData, axis: Axis, len: u16) -> (r: Self)
        ensures
            r@ == (ElemView::Image { image: image@, axis, len }),
    {
        Elem { node: Arc::new(Node::Image { image, axis, len }) }
    }

    pub fn spacing(axis: Axis, len: u16) -> (r: Self)
        ensures
            r@ == (ElemView::Spacing { axis, len }),
    {
        Elem { node: Arc::new(Node::Spacing { axis, len }) }
    }

    pub fn stack(axis: Axis, items: Vec<StackItem>) -> (r: Self)
        ensures
            r@ == stack_view(axis, item_views(items@)),
    {
        Elem { node: Arc::new(Node::Stack { axis, items }) }
    }

    pub fn with_min_size(self, size: Size) -> (r: Self)
        ensures
            r@ == min_size_view(self@, size),
    {
        Elem { node: Arc::new(Node::MinSize { inner: self, size }) }
    }

    pub fn with_min_axis(self, min: MinAxis) -> (r: Self)
        ensures
            r@ == (ElemView::MinAxis { inner: Box::new(self@), min }),
    {
        Elem { node: Arc::new(Node::MinAxis { inner: self, min }) }
    }

    pub fn block(borders: BlockBorders, fg: Color, lines: LineSet, content: Option<Elem>) -> (r: Self)
        ensures
            r@ == (ElemView::Block {
                borders,
                fg,
                lines,
                content: match content {
                    Some(elem) => Some(Box::new(elem@)),
                    None => None,
                },
            }),
    {
        Elem { node: Arc::new(Node::Block { borders, fg, lines, content }) }
    }

    pub fn interactive(self, tag: CustomId) -> (r: Self)
        ensures
            r@ == interactive_view(self@, tag@),
    {
        Elem { node: Arc::new(Node::Interactive { inner: self, tag, hovered: None }) }
    }

    /// As [`Elem::interactive`], with `hovered` in place of the element while
    /// the mouse is over it.
    pub fn interactive_hover(self, tag: CustomId, hovered: Elem) -> (r: Self)
        ensures
            r@ == (ElemView::Interactive {
                inner: Box::new(self@),
                tag: tag@,
                hovered: Some(Box::new(hovered@)),
            }),
    {
        Elem { node: Arc::new(Node::Interactive { inner: self, tag, hovered: Some(hovered) }) }
    }
}

impl StackItem {
    /// An item that takes what it needs.
    pub fn auto(elem: Elem) -> (r: Self)
        ensures
            r@ == auto_view(elem@),
    {
        StackItem { elem, opts: StackItemOpts { length: None, fill_weight: 0 } }
    }

    /// An item of a fixed length.
    pub fn length(len: u16, elem: Elem) -> (r: Self)
        ensures
            r@ == length_view(len, elem@),
    {
        StackItem { elem, opts: StackItemOpts { length: Some(len), fill_weight: 0 } }
    }

    /// Empty room.
    pub fn spacing(len: u16) -> (r: Self)
        ensures
            r@ == length_view(len, ElemView::Empty),
    {
        StackItem::length(len, Elem::empty())
    }

    /// An item that takes a share of the room that is left.
    pub fn fill(weight: u16, elem: Elem) -> (r: Self)
        ensures
            r@ == fill_view(weight, elem@),
    {
        StackItem { elem, opts: StackItemOpts { length: None, fill_weight: weight } }
    }
}

/// Appends an item to a list, on the level of what the items describe.
pub fn push_item(items: &mut Vec<StackItem>, item: StackItem)
    ensures
        item_views(final(items)@) == item_views(old(items)@).push(item@),
{
    items.push(item);
    proof {
        assert(items@.drop_last() =~= old(items)@);
    }
}

/// An item takes what it needs, a fixed length, or a share of what is left: one
/// of the three and not two at once. What it holds stays what it is.
pub proof fn law_items_hold_their_elements(elem: ElemView, n: u16)
    ensures
        auto_view(elem).elem == elem,
        auto_view(elem).opts.length is None && auto_view(elem).opts.fill_weight == 0,
        length_view(n, elem).elem == elem,
        length_view(n, elem).opts.length == Some(n) && length_view(n, elem).opts.fill_weight == 0,
        fill_view(n, elem).elem == elem,
        fill_view(n, elem).opts.length is None && fill_view(n, elem).opts.fill_weight == n,
{
}

/// Elements that are made of others keep what they are made of, and plain text
/// is text without color or weight.
pub proof fn law_elements_hold_their_parts(
    elem: ElemView,
    items: Seq<ItemView>,
    axis: Axis,
    text: Seq<char>,
    tag: Seq<u8>,
    size: Size,
)
    ensures
        plain_view(text) == (ElemView::Text {
            text,
            style: Style { fg: Color::Unset, bold: false, underlined: false },
        }),
        stack_view(axis, items) == (ElemView::Stack { axis, items }),
        interactive_view(elem, tag) == (ElemView::Interactive {
            inner: Box::new(elem),
            tag,
            hovered: None,
        }),
        min_size_view(elem, size) == (ElemView::MinSize { inner: Box::new(elem), size }),
{
}

/// The three ways in which text is decorated.
pub proof fn law_styles(fg: Color)
    ensures
        Style::spec_plain().fg == Color::Unset && !Style::spec_plain().bold
            && !Style::spec_plain().underlined,
        Style::spec_colored(fg).fg == fg && !Style::spec_colored(fg).bold && !Style::spec_colored(
            fg,
        ).underlined,
        Style::spec_bolded().fg == Color::Unset && Style::spec_bolded().bold
            && !Style::spec_bolded().underlined,
{
}

/// Elements of the same description have the same parts: text by text, tag by
/// tag, item by item.
pub proof fn law_same_description_same_parts(a: Elem, b: Elem)
    requires
        a@ == b@,
    ensures
        (*a.node matches Node::Text { text: ta, style: sa } ==> (*b.node matches Node::Text {
            text: tb,
            style: sb,
        } && ta@ == tb@ && sa == sb)),
        (*a.node matches Node::Interactive { inner: ia, tag: ta, .. } ==> (
        *b.node matches Node::Interactive { inner: ib, tag: tb, .. } && ia@ == ib@ && ta@ == tb@)),
        (*a.node matches Node::Stack { axis: xa, items: ia } ==> (*b.node matches Node::Stack {
            axis: xb,
            items: ib,
        } && xa == xb && ia@.len() == ib@.len() && forall|i: int|
            0 <= i < ia@.len() ==> (#[trigger] ia@[i])@ == ib@[i]@)),
{
    if let Node::Stack { axis, items } = *a.node {
        if let Node::Stack { axis: other_axis, items: other } = *b.node {
            lemma_item_views(items@);
            lemma_item_views(other@);
            assert(item_views(items@) == item_views(other@));
            assert forall|i: int| 0 <= i < items@.len() implies (#[trigger] items@[i])@
                == other@[i]@ by {
                assert(item_views(items@)[i] == items@[i]@);
                assert(item_views(other@)[i] == other@[i]@);
            }
        }
    }
}

} // verus!
