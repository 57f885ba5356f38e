//! Ready-made pieces of user interface.
use vstd::prelude::*;
use crate::strs::{dec, is_control, push_dec};
use crate::tui::{
    auto_view, fill_view, item_views, min_size_view, push_item, stack_view, Axis, Elem, ElemView,
    ItemView, MinAxis, Size, StackItem,
};
use crate::xtui::text::{sets_color, Layer, PlainColor, TermColor};

pub mod text;

verus! {

/// A stack that is filled piece by piece.
#[derive(Debug)]
pub struct StackBuilder {
    pub axis: Axis,
    pub items: Vec<StackItem>,
}

impl View for StackBuilder {
    type V = Seq<ItemView>;

    open spec fn view(&self) -> Seq<ItemView> {
        item_views(self.items@)
    }
}

impl Clone for StackBuilder {
    fn clone(&self) -> (r: Self)
        ensures
            r.axis == self.axis,
            r.items@ == self.items@,
    {
        let mut items: Vec<StackItem> = Vec::new();
        let mut i: usize = 0;
        while i < self.items.len()
            invariant
                0 <= i <= self.items@.len(),
                items@ == self.items@.take(i as int),
            decreases self.items@.len() - i,
        {
            items.push(self.items[i].clone());
            proof {
                assert(self.items@.take(i + 1) =~= self.items@.take(i as int).push(
                    self.items@[i as int],
                ));
            }
            i += 1;
        }
        proof {
            assert(self.items@.take(i as int) =~= self.items@);
        }
        StackBuilder { axis: self.axis, items }
    }
}

impl StackBuilder {
    pub fn new(axis: Axis) -> (r: Self)
        ensures
            r.axis == axis,
            r@ == Seq::<ItemView>::empty(),
    {
        StackBuilder { axis, items: Vec::new() }
    }

    /// Adds an element that takes what it needs.
    pub fn push(&mut self, elem: Elem)
        ensures
            final(self).axis == old(self).axis,
            final(self)@ == old(self)@.push(auto_view(elem@)),
    {
        push_item(&mut self.items, StackItem::auto(elem));
    }

    /// Adds an element that takes a share of the room that is left.
    pub fn fill(&mut self, fill_weight: u16, elem: Elem)
        ensures
            final(self).axis == old(self).axis,
            final(self)@ == old(self)@.push(fill_view(fill_weight, elem@)),
    {
        push_item(&mut self.items, StackItem::fill(fill_weight, elem));
    }

    /// Adds empty room.
    pub fn spacing(&mut self, len: u16)
        ensures
            final(self).axis == old(self).axis,
            final(self)@ == old(self)@.push(
                auto_view(ElemView::Spacing { axis: old(self).axis, len }),
            ),
    {
        let axis = self.axis;
        self.push(Elem::spacing(axis, len));
    }

    pub fn build(self) -> (r: Elem)
        ensures
            r@ == stack_view(self.axis, self@),
    {
        Elem::stack(self.axis, self.items)
    }

    pub fn is_empty(&self) -> (r: bool)
        ensures
            r == (self@.len() == 0),
    {
        proof {
            crate::tui::lemma_item_views(self.items@);
        }
        self.items.len() == 0
    }

    /// Takes the last item out, if there is one.
    pub fn delete_last(&mut self)
        ensures
            final(self).axis == old(self).axis,
            old(self)@.len() > 0 ==> final(self)@ == old(self)@.drop_last(),
            old(self)@.len() == 0 ==> final(self)@ == old(self)@,
    {
        proof {
            crate::tui::lemma_item_views(old(self).items@);
        }
        let _ = self.items.pop();
        proof {
            if old(self).items@.len() > 0 {
                assert(self.items@ =~= old(self).items@.drop_last());
                assert(self@ =~= old(self)@.drop_last());
            }
        }
    }
}

/// Taking out what was just added gives back the stack as it was.
pub proof fn law_delete_last_undoes_push(items: Seq<ItemView>, elem: ElemView)
    ensures
        items.push(auto_view(elem)).drop_last() == items,
{
    assert(items.push(auto_view(elem)).drop_last() =~= items);
}

/// The characters of the standard Base64 alphabet, in order.
pub open spec fn base64_alphabet() -> Seq<char> {
    "ABCDEFGHIJKLMNOPQRSTUVWXYZabcdefghijklmnopqrstuvwxyz0123456789+/"@
}

/// The character for six bits.
pub open spec fn base64_char(bits: int) -> char {
    base64_alphabet()[bits]
}

/// Bytes in the standard Base64 alphabet, with padding: four characters for every
/// three bytes and for what is left of them.
pub open spec fn base64_text(bytes: Seq<u8>) -> Seq<char>
    decreases bytes.len(),
{
    if bytes.len() == 0 {
        Seq::empty()
    } else {
        let a = bytes[0] as int;
        let b = if bytes.len() > 1 {
            bytes[1] as int
        } else {
            0
        };
        let c = if bytes.len() > 2 {
            bytes[2] as int
        } else {
            0
        };
        seq![
            base64_char(a / 4),
            base64_char(16 * (a % 4) + b / 16),
            if bytes.len() > 1 {
                base64_char(4 * (b % 16) + c / 64)
            } else {
                '='
            },
            if bytes.len() > 2 {
                base64_char(c % 64)
            } else {
                '='
            },
        ] + (if bytes.len() > 3 {
            base64_text(bytes.skip(3))
        } else {
            Seq::empty()
        })
    }
}

/// `base64::display::Base64Display` over `base64::engine::general_purpose::STANDARD`:
/// the bytes in the standard alphabet, with padding.
#[verifier::external_body]
fn base64_standard(bytes: &Vec<u8>) -> (r: String)
    ensures
        r@ == base64_text(bytes@),
{
    let engine = &base64::engine::general_purpose::STANDARD;
    base64::display::Base64Display::new(bytes, engine).to_string()
}

/// The command of the terminal's graphics protocol that draws an image of four
/// bytes per pixel over `len` cells of an axis and leaves the cursor where it
/// is. `data` is the image in Base64.
pub open spec fn image_command(
    width: u32,
    height: u32,
    axis: Axis,
    len: u16,
    data: Seq<char>,
) -> Seq<char> {
    "\x1b_Ga=T,f=32,C=1,s="@ + dec(width as nat) + ",v="@ + dec(height as nat) + (match axis {
        Axis::X => ",c="@,
        Axis::Y => ",r="@,
    }) + dec(len as nat) + ";"@ + data + "\x1b\\"@
}

/// The text that draws an image, given its data in Base64.
pub fn image_command_text(width: u32, height: u32, axis: Axis, len: u16, data: &str) -> (r: String)
    ensures
        r@ == image_command(width, height, axis, len, data@),
{
    let mut out: String = "\x1b_Ga=T,f=32,C=1,s=".to_owned();
    push_dec(&mut out, width as u64);
    out.push_str(",v=");
    push_dec(&mut out, height as u64);
    match axis {
        Axis::X => {
            out.push_str(",c=");
        },
        Axis::Y => {
            out.push_str(",r=");
        },
    }
    push_dec(&mut out, len as u64);
    out.push_str(";");
    out.push_str(data);
    out.push_str("\x1b\\");
    out
}

/// The description of an image that fills `fill_len` cells of an axis, given
/// its data in Base64.
pub open spec fn image_elem_view(
    width: u32,
    height: u32,
    fill_axis: Axis,
    fill_len: u16,
    data: Seq<char>,
) -> ElemView {
    ElemView::MinAxis {
        inner: Box::new(
            ElemView::RawPrint { text: image_command(width, height, fill_axis, fill_len, data) },
        ),
        min: MinAxis {
            axis: fill_axis,
            len: fill_len,
            aspect_width: width,
            aspect_height: height,
        },
    }
}

/// An image of four bytes per pixel that fills `fill_len` cells of an axis.
pub fn rgba_img_fill_axis(
    width: u32,
    height: u32,
    pixels: &Vec<u8>,
    fill_axis: Axis,
    fill_len: u16,
) -> (r: Elem)
    ensures
        r@ == image_elem_view(width, height, fill_axis, fill_len, base64_text(pixels@)),
{
    let data = base64_standard(pixels);
    let text = image_command_text(width, height, fill_axis, fill_len, &data);
    Elem::raw_print(&text).with_min_axis(
        MinAxis { axis: fill_axis, len: fill_len, aspect_width: width, aspect_height: height },
    )
}

proof fn lemma_base64_char(bits: int)
    requires
        0 <= bits < 64,
    ensures
        !is_control(base64_char(bits)),
{
    reveal_strlit("ABCDEFGHIJKLMNOPQRSTUVWXYZabcdefghijklmnopqrstuvwxyz0123456789+/");
}

/// The data of an image cannot end its command early: there is no control character
/// in it.
pub proof fn law_image_data_cannot_escape(bytes: Seq<u8>, i: int)
    requires
        0 <= i < base64_text(bytes).len(),
    ensures
        !is_control(base64_text(bytes)[i]),
    decreases bytes.len(),
{
    let a = bytes[0] as int;
    let b = if bytes.len() > 1 {
        bytes[1] as int
    } else {
        0
    };
    let c = if bytes.len() > 2 {
        bytes[2] as int
    } else {
        0
    };
    lemma_base64_char(a / 4);
    lemma_base64_char(16 * (a % 4) + b / 16);
    lemma_base64_char(4 * (b % 16) + c / 64);
    lemma_base64_char(c % 64);
    if i >= 4 {
        law_image_data_cannot_escape(bytes.skip(3), i - 4);
    }
}

/// The data of an image has four characters for every three bytes and for what is left
/// of them.
pub proof fn law_image_data_length(bytes: Seq<u8>)
    ensures
        base64_text(bytes).len() == 4 * ((bytes.len() + 2) / 3),
    decreases bytes.len(),
{
    if bytes.len() > 3 {
        law_image_data_length(bytes.skip(3));
    }
}

/// The text that shows a symbol in the middle of `width` cells, by the
/// terminal's text sizing protocol.
pub open spec fn center_symbol_text(sym: Seq<char>, width: u16) -> Seq<char> {
    "\x1b]66;w="@ + dec(width as nat) + ":h=2:n=1:d=1;"@ + sym + "\x07"@
}

/// The description of a symbol in the middle of `width` cells.
pub open spec fn center_symbol_view(sym: Seq<char>, width: u16) -> ElemView {
    min_size_view(
        ElemView::RawPrint { text: center_symbol_text(sym, width) },
        Size { width, height: 1 },
    )
}

/// A symbol in the middle of `width` cells.
pub fn tui_center_symbol(sym: &str, width: u16) -> (r: Elem)
    ensures
        r@ == center_symbol_view(sym@, width),
{
    let mut out: String = "\x1b]66;w=".to_owned();
    push_dec(&mut out, width as u64);
    out.push_str(":h=2:n=1:d=1;");
    out.push_str(sym);
    out.push_str("\x07");
    Elem::raw_print(&out).with_min_size(Size { width, height: 1 })
}

/// What a frame has: which of its sides, and what is in it.
#[derive(Debug)]
pub struct BlockOpts {
    pub borders: BlockBorders,
    pub inner: Option<Elem>,
}

impl Default for BlockOpts {
    /// An empty frame without sides.
    fn default() -> (r: Self)
        ensures
            r.borders == (BlockBorders { top: false, bottom: false, left: false, right: false }),
            r.inner is None,
    {
        BlockOpts { borders: BlockBorders::default(), inner: None }
    }
}

/// Which sides a frame has.
#[derive(Clone, Copy, PartialEq, Eq, Structural, Debug)]
pub struct BlockBorders {
    pub top: bool,
    pub bottom: bool,
    pub left: bool,
    pub right: bool,
}

impl Default for BlockBorders {
    /// No side.
    fn default() -> (r: Self)
        ensures
            r == (BlockBorders { top: false, bottom: false, left: false, right: false }),
    {
        BlockBorders { top: false, bottom: false, left: false, right: false }
    }
}

impl BlockBorders {
    pub fn all() -> (r: Self)
        ensures
            r == (BlockBorders { top: true, bottom: true, left: true, right: true }),
    {
        BlockBorders { top: true, bottom: true, left: true, right: true }
    }
}

/// What a frame is drawn with.
#[derive(Debug)]
pub struct BlockLines<D> {
    pub vertical: D,
    pub horizontal: D,
    pub top_right: D,
    pub top_left: D,
    pub bottom_right: D,
    pub bottom_left: D,
}

/// Whether each part of a frame is what a function may give for that of another one.
pub open spec fn is_mapped<D, E, F: FnMut(D) -> E>(
    lines: BlockLines<D>,
    f: F,
    mapped: BlockLines<E>,
) -> bool {
    &&& f.ensures((lines.vertical,), mapped.vertical)
    &&& f.ensures((lines.horizontal,), mapped.horizontal)
    &&& f.ensures((lines.top_right,), mapped.top_right)
    &&& f.ensures((lines.top_left,), mapped.top_left)
    &&& f.ensures((lines.bottom_right,), mapped.bottom_right)
    &&& f.ensures((lines.bottom_left,), mapped.bottom_left)
}

impl<D> BlockLines<D> {
    /// Applies a function to each of the parts.
    pub fn map<E, F: FnMut(D) -> E>(self, mut f: F) -> (r: BlockLines<E>)
        requires
            f.requires((self.vertical,)),
            f.requires((self.horizontal,)),
            f.requires((self.top_right,)),
            f.requires((self.top_left,)),
            f.requires((self.bottom_right,)),
            f.requires((self.bottom_left,)),
        ensures
            is_mapped(self, f, r),
    {
        BlockLines {
            vertical: f(self.vertical),
            horizontal: f(self.horizontal),
            top_right: f(self.top_right),
            top_left: f(self.top_left),
            bottom_right: f(self.bottom_right),
            bottom_left: f(self.bottom_left),
        }
    }
}

/// The frame whose parts a function gives for those of another one.
pub open spec fn mapped<D, E>(lines: BlockLines<D>, f: spec_fn(D) -> E) -> BlockLines<E> {
    BlockLines {
        vertical: f(lines.vertical),
        horizontal: f(lines.horizontal),
        top_right: f(lines.top_right),
        top_left: f(lines.top_left),
        bottom_right: f(lines.bottom_right),
        bottom_left: f(lines.bottom_left),
    }
}

/// With a function that gives one result for each part, the frame is the one of these
/// results.
pub proof fn law_map_is_pointwise<D, E, F: FnMut(D) -> E>(
    lines: BlockLines<D>,
    f: F,
    pure: spec_fn(D) -> E,
    r: BlockLines<E>,
)
    requires
        is_mapped(lines, f, r),
        forall|x: D, y: E| #[trigger] f.ensures((x,), y) ==> y == pure(x),
    ensures
        r == mapped(lines, pure),
{
}

/// A function that changes nothing leaves a frame as it is.
pub proof fn law_map_identity<D>(lines: BlockLines<D>)
    ensures
        mapped(lines, |x: D| x) == lines,
{
}

/// Two functions one after the other are one function.
pub proof fn law_map_composes<D, E, F>(
    lines: BlockLines<D>,
    f: spec_fn(D) -> E,
    g: spec_fn(E) -> F,
)
    ensures
        mapped(mapped(lines, f), g) == mapped(lines, |x: D| g(f(x))),
{
}

/// A frame of the given characters.
pub open spec fn is_frame(lines: BlockLines<&'static str>, parts: Seq<Seq<char>>) -> bool {
    &&& lines.vertical@ == parts[0]
    &&& lines.horizontal@ == parts[1]
    &&& lines.top_right@ == parts[2]
    &&& lines.top_left@ == parts[3]
    &&& lines.bottom_right@ == parts[4]
    &&& lines.bottom_left@ == parts[5]
}

impl BlockLines<&'static str> {
    pub fn normal() -> (r: Self)
        ensures
            is_frame(r, seq!["│"@, "─"@, "┐"@, "┌"@, "┘"@, "└"@]),
    {
        BlockLines {
            vertical: "│",
            horizontal: "─",
            top_right: "┐",
            top_left: "┌",
            bottom_right: "┘",
            bottom_left: "└",
        }
    }

    pub fn rounded() -> (r: Self)
        ensures
            is_frame(r, seq!["│"@, "─"@, "╮"@, "╭"@, "╯"@, "╰"@]),
    {
        BlockLines {
            top_right: "╮",
            top_left: "╭",
            bottom_right: "╯",
            bottom_left: "╰",
            ..Self::normal()
        }
    }

    pub fn double() -> (r: Self)
        ensures
            is_frame(r, seq!["║"@, "═"@, "╗"@, "╔"@, "╝"@, "╚"@]),
    {
        BlockLines {
            vertical: "║",
            horizontal: "═",
            top_right: "╗",
            top_left: "╔",
            bottom_right: "╝",
            bottom_left: "╚",
        }
    }

    pub fn thick() -> (r: Self)
        ensures
            is_frame(r, seq!["┃"@, "━"@, "┓"@, "┏"@, "┛"@, "┗"@]),
    {
        BlockLines {
            vertical: "┃",
            horizontal: "━",
            top_right: "┓",
            top_left: "┏",
            bottom_right: "┛",
            bottom_left: "┗",
        }
    }

    pub fn light_double_dashed() -> (r: Self)
        ensures
            is_frame(r, seq!["╎"@, "╌"@, "┐"@, "┌"@, "┘"@, "└"@]),
    {
        BlockLines { vertical: "╎", horizontal: "╌", ..Self::normal() }
    }

    pub fn heavy_double_dashed() -> (r: Self)
        ensures
            is_frame(r, seq!["╏"@, "╍"@, "┓"@, "┏"@, "┛"@, "┗"@]),
    {
        BlockLines { vertical: "╏", horizontal: "╍", ..Self::thick() }
    }

    pub fn light_triple_dashed() -> (r: Self)
        ensures
            is_frame(r, seq!["┆"@, "┄"@, "┐"@, "┌"@, "┘"@, "└"@]),
    {
        BlockLines { vertical: "┆", horizontal: "┄", ..Self::normal() }
    }

    pub fn heavy_triple_dashed() -> (r: Self)
        ensures
            is_frame(r, seq!["┇"@, "┅"@, "┓"@, "┏"@, "┛"@, "┗"@]),
    {
        BlockLines { vertical: "┇", horizontal: "┅", ..Self::thick() }
    }

    pub fn light_quadruple_dashed() -> (r: Self)
        ensures
            is_frame(r, seq!["┊"@, "┈"@, "┐"@, "┌"@, "┘"@, "└"@]),
    {
        BlockLines { vertical: "┊", horizontal: "┈", ..Self::normal() }
    }

    pub fn heavy_quadruple_dashed() -> (r: Self)
        ensures
            is_frame(r, seq!["┋"@, "┉"@, "┓"@, "┏"@, "┛"@, "┗"@]),
    {
        BlockLines { vertical: "┋", horizontal: "┉", ..Self::thick() }
    }
}

/// An attribute of a text, as the terminal knows it.
#[derive(Clone, Copy, Debug, PartialEq, Eq, Structural)]
pub enum Attribute {
    Reset,
    Bold,
    Dim,
    Italic,
    Underlined,
    DoubleUnderlined,
    Undercurled,
    Underdotted,
    Underdashed,
    SlowBlink,
    RapidBlink,
    Reverse,
    Hidden,
    CrossedOut,
    Fraktur,
    NoBold,
    NormalIntensity,
    NoItalic,
    NoUnderline,
    NoBlink,
    NoReverse,
    NoHidden,
    NotCrossedOut,
    Framed,
    Encircled,
    OverLined,
    NotFramedOrEncircled,
    NotOverLined,
}

/// The number of attributes.
pub const ATTRIBUTE_COUNT: usize = 28;

/// All attributes, in the order in which they are set.
pub open spec fn all_attributes() -> Seq<Attribute> {
    seq![
        Attribute::Reset,
        Attribute::Bold,
        Attribute::Dim,
        Attribute::Italic,
        Attribute::Underlined,
        Attribute::DoubleUnderlined,
        Attribute::Undercurled,
        Attribute::Underdotted,
        Attribute::Underdashed,
        Attribute::SlowBlink,
        Attribute::RapidBlink,
        Attribute::Reverse,
        Attribute::Hidden,
        Attribute::CrossedOut,
        Attribute::Fraktur,
        Attribute::NoBold,
        Attribute::NormalIntensity,
        Attribute::NoItalic,
        Attribute::NoUnderline,
        Attribute::NoBlink,
        Attribute::NoReverse,
        Attribute::NoHidden,
        Attribute::NotCrossedOut,
        Attribute::Framed,
        Attribute::Encircled,
        Attribute::OverLined,
        Attribute::NotFramedOrEncircled,
        Attribute::NotOverLined,
    ]
}

/// What stands for an attribute in an escape sequence.
pub open spec fn attribute_code(attribute: Attribute) -> Seq<char> {
    match attribute {
        Attribute::Reset => "0"@,
        Attribute::Bold => "1"@,
        Attribute::Dim => "2"@,
        Attribute::Italic => "3"@,
        Attribute::Underlined => "4"@,
        Attribute::DoubleUnderlined => "4:2"@,
        Attribute::Undercurled => "4:3"@,
        Attribute::Underdotted => "4:4"@,
        Attribute::Underdashed => "4:5"@,
        Attribute::SlowBlink => "5"@,
        Attribute::RapidBlink => "6"@,
        Attribute::Reverse => "7"@,
        Attribute::Hidden => "8"@,
        Attribute::CrossedOut => "9"@,
        Attribute::Fraktur => "20"@,
        Attribute::NoBold => "21"@,
        Attribute::NormalIntensity => "22"@,
        Attribute::NoItalic => "23"@,
        Attribute::NoUnderline => "24"@,
        Attribute::NoBlink => "25"@,
        Attribute::NoReverse => "27"@,
        Attribute::NoHidden => "28"@,
        Attribute::NotCrossedOut => "29"@,
        Attribute::Framed => "51"@,
        Attribute::Encircled => "52"@,
        Attribute::OverLined => "53"@,
        Attribute::NotFramedOrEncircled => "54"@,
        Attribute::NotOverLined => "55"@,
    }
}

impl Attribute {
    /// The place of the attribute among all of them.
    pub fn place(self) -> (r: usize)
        ensures
            r < ATTRIBUTE_COUNT,
            all_attributes()[r as int] == self,
    {
        match self {
            Attribute::Reset => 0,
            Attribute::Bold => 1,
            Attribute::Dim => 2,
            Attribute::Italic => 3,
            Attribute::Underlined => 4,
            Attribute::DoubleUnderlined => 5,
            Attribute::Undercurled => 6,
            Attribute::Underdotted => 7,
            Attribute::Underdashed => 8,
            Attribute::SlowBlink => 9,
            Attribute::RapidBlink => 10,
            Attribute::Reverse => 11,
            Attribute::Hidden => 12,
            Attribute::CrossedOut => 13,
            Attribute::Fraktur => 14,
            Attribute::NoBold => 15,
            Attribute::NormalIntensity => 16,
            Attribute::NoItalic => 17,
            Attribute::NoUnderline => 18,
            Attribute::NoBlink => 19,
            Attribute::NoReverse => 20,
            Attribute::NoHidden => 21,
            Attribute::NotCrossedOut => 22,
            Attribute::Framed => 23,
            Attribute::Encircled => 24,
            Attribute::OverLined => 25,
            Attribute::NotFramedOrEncircled => 26,
            Attribute::NotOverLined => 27,
        }
    }
}

/// How a text looks: colors, as far as there are any, and attributes.
#[derive(Debug)]
pub struct ContentStyle {
    pub foreground_color: Option<TermColor>,
    pub background_color: Option<TermColor>,
    pub underline_color: Option<TermColor>,
    pub attributes: Vec<Attribute>,
}

/// The escape sequences of those of the first `n` attributes that are wanted.
pub open spec fn attributes_text(wanted: Seq<Attribute>, n: int) -> Seq<char>
    decreases n,
{
    if n <= 0 {
        Seq::empty()
    } else {
        attributes_text(wanted, n - 1) + (if wanted.contains(all_attributes()[n - 1]) {
            "\x1b["@ + attribute_code(all_attributes()[n - 1]) + "m"@
        } else {
            Seq::empty()
        })
    }
}

/// The attributes that are wanted are set one by one, in the order of all attributes
/// and each by its own sequence; the others are not set.
pub proof fn law_wanted_attributes_are_set(wanted: Seq<Attribute>, i: int)
    requires
        0 <= i < ATTRIBUTE_COUNT,
    ensures
        attributes_text(wanted, 0).len() == 0,
        wanted.contains(all_attributes()[i]) ==> attributes_text(wanted, i + 1) == attributes_text(
            wanted,
            i,
        ) + "\x1b["@ + attribute_code(all_attributes()[i]) + "m"@,
        !wanted.contains(all_attributes()[i]) ==> attributes_text(wanted, i + 1)
            == attributes_text(wanted, i),
{
    let before = attributes_text(wanted, i);
    let code = attribute_code(all_attributes()[i]);
    assert(before + ("\x1b["@ + code + "m"@) =~= before + "\x1b["@ + code + "m"@);
    assert(before + Seq::<char>::empty() =~= before);
}

/// Whether a text sets a color of a layer, if there is one to set.
pub open spec fn starts_layer(text: Seq<char>, layer: Layer, color: Option<TermColor>) -> bool {
    match color {
        Some(color) => sets_color(text, layer, color),
        None => text == Seq::<char>::empty(),
    }
}

/// The color to which a layer goes back, if it has to.
pub open spec fn reset_if(cond: bool) -> Option<TermColor> {
    if cond {
        Some(TermColor::Reset)
    } else {
        None
    }
}

/// Whether a text ends a style: everything where there are attributes, or else the
/// color of the ground, and that of the letters where these or the line below them
/// have one.
pub open spec fn ends_style(
    text: Seq<char>,
    fg: Option<TermColor>,
    bg: Option<TermColor>,
    ul: Option<TermColor>,
    attributes: Seq<Attribute>,
) -> bool {
    if attributes.len() > 0 {
        text == "\x1b[0m"@
    } else {
        exists|ground: Seq<char>, letters: Seq<char>|
            {
                &&& starts_layer(ground, Layer::Ground, reset_if(bg is Some))
                &&& starts_layer(letters, Layer::Letters, reset_if(fg is Some || ul is Some))
                &&& text == #[trigger] (ground + letters)
            }
    }
}

/// Whether a text shows another one in these colors and with these attributes.
pub open spec fn is_shown_in(
    styled: Seq<char>,
    text: Seq<char>,
    fg: Option<TermColor>,
    bg: Option<TermColor>,
    ul: Option<TermColor>,
    attributes: Seq<Attribute>,
) -> bool {
    exists|ground: Seq<char>, letters: Seq<char>, line: Seq<char>, end: Seq<char>|
        {
            &&& starts_layer(ground, Layer::Ground, bg)
            &&& starts_layer(letters, Layer::Letters, fg)
            &&& starts_layer(line, Layer::Line, ul)
            &&& ends_style(end, fg, bg, ul, attributes)
            &&& styled == #[trigger] (ground + letters + line + attributes_text(
                attributes,
                ATTRIBUTE_COUNT as int,
            ) + text + end)
        }
}

/// Whether a text shows another one in a style.
pub open spec fn is_styled(styled: Seq<char>, text: Seq<char>, style: ContentStyle) -> bool {
    is_shown_in(
        styled,
        text,
        style.foreground_color,
        style.background_color,
        style.underline_color,
        style.attributes@,
    )
}

/// Whether plain values are that color, or nothing is where there is none.
pub open spec fn stands_for(plain: Option<PlainColor>, color: Option<TermColor>) -> bool {
    match (plain, color) {
        (Some(plain), Some(color)) => plain.stands_for(color),
        (None, None) => true,
        _ => false,
    }
}

/// The attributes at these places.
pub open spec fn attributes_at(places: Seq<usize>) -> Seq<Attribute> {
    Seq::new(places.len(), |i: int| all_attributes()[places[i] as int])
}

/// `crossterm::style::ContentStyle::apply`, and what the styled content displays: the
/// sequences that set the colors and the attributes, the text, and the sequences that
/// end them. Where the environment variable `NO_COLOR` is set, those of colors are
/// `ESC[m`. A color that has a name is found by it, with
/// `crossterm::style::Color::try_from`, and an attribute by its place in
/// `crossterm::style::Attribute::iterator`.
#[verifier::external_body]
fn style_text(
    text: &str,
    fg: Option<PlainColor>,
    bg: Option<PlainColor>,
    ul: Option<PlainColor>,
    places: &Vec<usize>,
) -> (r: String)
    requires
        fg matches Some(color) ==> color.wf(),
        bg matches Some(color) ==> color.wf(),
        ul matches Some(color) ==> color.wf(),
        forall|i: int| 0 <= i < places@.len() ==> #[trigger] places@[i] < ATTRIBUTE_COUNT,
    ensures
        forall|f: Option<TermColor>, b: Option<TermColor>, u: Option<TermColor>|
            #[trigger] stands_for(fg, f) && #[trigger] stands_for(bg, b) && #[trigger] stands_for(
                ul,
                u,
            ) ==> is_shown_in(r@, text@, f, b, u, attributes_at(places@)),
{
    let color = |it| match it {
        PlainColor::Name(name) => crossterm::style::Color::try_from(name).unwrap_or(crossterm::style::Color::Reset),
        PlainColor::Rgb { r, g, b } => crossterm::style::Color::Rgb { r, g, b },
        PlainColor::AnsiValue(v) => crossterm::style::Color::AnsiValue(v),
    };
    let all: Vec<_> = crossterm::style::Attribute::iterator().collect();
    let attributes: Vec<_> = places.iter().map(|place| all[*place]).collect();
    let style = crossterm::style::ContentStyle {
        foreground_color: fg.map(color),
        background_color: bg.map(color),
        underline_color: ul.map(color),
        attributes: attributes.as_slice().into(),
    };
    style.apply(text).to_string()
}

/// A text in a style.
fn styled(text: &str, style: &ContentStyle) -> (r: String)
    ensures
        is_styled(r@, text@, *style),
{
    let fg = plain_of(style.foreground_color);
    let bg = plain_of(style.background_color);
    let ul = plain_of(style.underline_color);
    let mut places: Vec<usize> = Vec::new();
    let mut i: usize = 0;
    while i < style.attributes.len()
        invariant
            0 <= i <= style.attributes@.len(),
            places@.len() == i,
            forall|j: int|
                0 <= j < i ==> #[trigger] places@[j] < ATTRIBUTE_COUNT
                    && all_attributes()[places@[j] as int] == style.attributes@[j],
        decreases style.attributes@.len() - i,
    {
        places.push(style.attributes[i].place());
        i += 1;
    }
    proof {
        assert(attributes_at(places@) =~= style.attributes@);
        assert(stands_for(fg, style.foreground_color));
        assert(stands_for(bg, style.background_color));
        assert(stands_for(ul, style.underline_color));
    }
    style_text(text, fg, bg, ul, &places)
}

fn plain_of(color: Option<TermColor>) -> (r: Option<PlainColor>)
    ensures
        stands_for(r, color),
        r matches Some(plain) ==> plain.wf(),
{
    match color {
        Some(color) => Some(color.plain()),
        None => None,
    }
}

/// What the part of a frame can be: something that is shown as text.
pub trait LinePart {
    /// The text that is shown.
    spec fn text(&self) -> Seq<char>;

    fn shown(&self) -> (r: &str)
        ensures
            r@ == self.text(),
    ;
}

impl LinePart for &'static str {
    open spec fn text(&self) -> Seq<char> {
        self@
    }

    fn shown(&self) -> (r: &str) {
        self
    }
}

impl LinePart for String {
    open spec fn text(&self) -> Seq<char> {
        self@
    }

    fn shown(&self) -> (r: &str) {
        self.as_str()
    }
}

/// Whether each part of a frame shows that of another one in a style.
pub open spec fn is_styled_frame<D: LinePart>(
    styled: BlockLines<String>,
    lines: BlockLines<D>,
    style: ContentStyle,
) -> bool {
    &&& is_styled(styled.vertical@, lines.vertical.text(), style)
    &&& is_styled(styled.horizontal@, lines.horizontal.text(), style)
    &&& is_styled(styled.top_right@, lines.top_right.text(), style)
    &&& is_styled(styled.top_left@, lines.top_left.text(), style)
    &&& is_styled(styled.bottom_right@, lines.bottom_right.text(), style)
    &&& is_styled(styled.bottom_left@, lines.bottom_left.text(), style)
}

impl<D: LinePart> BlockLines<D> {
    /// The frame in a style.
    pub fn apply_crossterm(self, style: &ContentStyle) -> (r: BlockLines<String>)
        ensures
            is_styled_frame(r, self, *style),
    {
        BlockLines {
            vertical: styled(self.vertical.shown(), style),
            horizontal: styled(self.horizontal.shown(), style),
            top_right: styled(self.top_right.shown(), style),
            top_left: styled(self.top_left.shown(), style),
            bottom_right: styled(self.bottom_right.shown(), style),
            bottom_left: styled(self.bottom_left.shown(), style),
        }
    }
}

/// A corner of a frame: one cell.
pub open spec fn corner_view(symbol: Seq<char>) -> ItemView {
    auto_view(min_size_view(ElemView::RawPrint { text: symbol }, Size { width: 1, height: 1 }))
}

/// A side of a frame: as long as there is room.
pub open spec fn side_view(symbol: Seq<char>, size: Size) -> ItemView {
    fill_view(1, min_size_view(ElemView::FillCells { symbol }, size))
}

/// The item, where the condition holds.
pub open spec fn item_if(cond: bool, item: ItemView) -> Seq<ItemView> {
    if cond {
        seq![item]
    } else {
        Seq::empty()
    }
}

/// What is in a frame, if anything.
pub open spec fn inner_view(inner: Option<Elem>) -> Seq<ItemView> {
    match inner {
        Some(elem) => seq![auto_view(elem@)],
        None => Seq::empty(),
    }
}

/// The left or the right column of a frame: two corners and the side between
/// them, as far as the frame has them.
pub open spec fn outer_column(
    here: bool,
    top: bool,
    bottom: bool,
    upper: Seq<char>,
    side: Seq<char>,
    lower: Seq<char>,
) -> ElemView {
    stack_view(
        Axis::Y,
        item_if(here && top, corner_view(upper)) + item_if(
            here,
            side_view(side, Size { width: 1, height: 0 }),
        ) + item_if(here && bottom, corner_view(lower)),
    )
}

/// The description of a frame: three columns, of which the middle one, with
/// what is in the frame, takes the room that is left.
pub open spec fn block_view<D: LinePart>(lines: BlockLines<D>, opts: BlockOpts) -> ElemView {
    let b = opts.borders;
    let line = side_view(lines.horizontal.text(), Size { width: 0, height: 1 });
    stack_view(
        Axis::X,
        seq![
            auto_view(
                outer_column(
                    b.left,
                    b.top,
                    b.bottom,
                    lines.top_left.text(),
                    lines.vertical.text(),
                    lines.bottom_left.text(),
                ),
            ),
            fill_view(
                1,
                stack_view(
                    Axis::Y,
                    item_if(b.top, line) + inner_view(opts.inner) + item_if(b.bottom, line),
                ),
            ),
            auto_view(
                outer_column(
                    b.right,
                    b.top,
                    b.bottom,
                    lines.top_right.text(),
                    lines.vertical.text(),
                    lines.bottom_right.text(),
                ),
            ),
        ],
    )
}

/// A corner of a frame.
fn corner(symbol: &str) -> (r: StackItem)
    ensures
        r@ == corner_view(symbol@),
{
    StackItem::auto(Elem::raw_print(symbol).with_min_size(Size { width: 1, height: 1 }))
}

/// A side of a frame.
fn side(symbol: &str, size: Size) -> (r: StackItem)
    ensures
        r@ == side_view(symbol@, size),
{
    StackItem::fill(1, Elem::fill_cells_single(symbol).with_min_size(size))
}

/// The left or the right column of a frame.
fn mk_outer_column(
    here: bool,
    top: bool,
    bottom: bool,
    upper: &str,
    middle: &str,
    lower: &str,
) -> (r: Elem)
    ensures
        r@ == outer_column(here, top, bottom, upper@, middle@, lower@),
{
    let mut items: Vec<StackItem> = Vec::new();
    if here && top {
        push_item(&mut items, corner(upper));
    }
    if here {
        push_item(&mut items, side(middle, Size { width: 1, height: 0 }));
    }
    if here && bottom {
        push_item(&mut items, corner(lower));
    }
    proof {
        assert(item_views(items@) =~= item_if(here && top, corner_view(upper@)) + item_if(
            here,
            side_view(middle@, Size { width: 1, height: 0 }),
        ) + item_if(here && bottom, corner_view(lower@)));
    }
    Elem::stack(Axis::Y, items)
}

/// A frame.
pub fn block<D: LinePart>(lines: BlockLines<D>, opts: BlockOpts) -> (r: Elem)
    ensures
        r@ == block_view(lines, opts),
{
    let b = opts.borders;
    let left = mk_outer_column(
        b.left,
        b.top,
        b.bottom,
        lines.top_left.shown(),
        lines.vertical.shown(),
        lines.bottom_left.shown(),
    );
    let right = mk_outer_column(
        b.right,
        b.top,
        b.bottom,
        lines.top_right.shown(),
        lines.vertical.shown(),
        lines.bottom_right.shown(),
    );
    let mut middle: Vec<StackItem> = Vec::new();
    if b.top {
        push_item(&mut middle, side(lines.horizontal.shown(), Size { width: 0, height: 1 }));
    }
    let ghost inner = opts.inner;
    if let Some(elem) = opts.inner {
        push_item(&mut middle, StackItem::auto(elem));
    }
    if b.bottom {
        push_item(&mut middle, side(lines.horizontal.shown(), Size { width: 0, height: 1 }));
    }
    let ghost line = side_view(lines.horizontal.text(), Size { width: 0, height: 1 });
    proof {
        assert(item_views(middle@) =~= item_if(b.top, line) + inner_view(inner) + item_if(
            b.bottom,
            line,
        ));
    }
    let mut items: Vec<StackItem> = Vec::new();
    push_item(&mut items, StackItem::auto(left));
    push_item(&mut items, StackItem::fill(1, Elem::stack(Axis::Y, middle)));
    push_item(&mut items, StackItem::auto(right));
    let r = Elem::stack(Axis::X, items);
    proof {
        assert(r@->Stack_items =~= block_view(lines, opts)->Stack_items);
    }
    r
}

/// A frame without sides holds nothing but its content, between two empty columns.
pub proof fn law_block_without_borders<D: LinePart>(lines: BlockLines<D>, elem: Elem)
    ensures
        block_view(
            lines,
            BlockOpts {
                borders: BlockBorders { top: false, bottom: false, left: false, right: false },
                inner: Some(elem),
            },
        ) == stack_view(
            Axis::X,
            seq![
                auto_view(stack_view(Axis::Y, Seq::empty())),
                fill_view(1, stack_view(Axis::Y, seq![auto_view(elem@)])),
                auto_view(stack_view(Axis::Y, Seq::empty())),
            ],
        ),
{
    let none = Seq::<ItemView>::empty();
    assert(none + none + none =~= none);
    assert(none + seq![auto_view(elem@)] + none =~= seq![auto_view(elem@)]);
}

/// A frame has its corners and sides where its borders are: the left column and
/// the right one only where it has that side, a corner where two sides meet, each
/// with its own symbol. Its content stands in the middle column, which takes all
/// the room, below the upper line and above the lower one.
pub proof fn law_frame_has_its_borders<D: LinePart>(lines: BlockLines<D>, opts: BlockOpts)
    ensures
        block_view(lines, opts) matches ElemView::Stack { axis, items } && {
            let b = opts.borders;
            let left = items[0].elem->Stack_items;
            let middle = items[1].elem->Stack_items;
            let right = items[2].elem->Stack_items;
            let vertical = fill_view(
                1,
                ElemView::MinSize {
                    inner: Box::new(ElemView::FillCells { symbol: lines.vertical.text() }),
                    size: Size { width: 1, height: 0 },
                },
            );
            let horizontal = fill_view(
                1,
                ElemView::MinSize {
                    inner: Box::new(ElemView::FillCells { symbol: lines.horizontal.text() }),
                    size: Size { width: 0, height: 1 },
                },
            );
            let above = if b.top {
                1int
            } else {
                0
            };
            let below = if b.bottom {
                1int
            } else {
                0
            };
            let inside = if opts.inner is Some {
                1int
            } else {
                0
            };
            &&& axis == Axis::X
            &&& items.len() == 3
            &&& items[0] == auto_view(ElemView::Stack { axis: Axis::Y, items: left })
            &&& items[1] == fill_view(1, ElemView::Stack { axis: Axis::Y, items: middle })
            &&& items[2] == auto_view(ElemView::Stack { axis: Axis::Y, items: right })
            &&& !b.left ==> left.len() == 0
            &&& b.left ==> {
                &&& left.len() == above + 1 + below
                &&& b.top ==> left[0] == corner_view(lines.top_left.text())
                &&& left[above] == vertical
                &&& b.bottom ==> left.last() == corner_view(lines.bottom_left.text())
            }
            &&& !b.right ==> right.len() == 0
            &&& b.right ==> {
                &&& right.len() == above + 1 + below
                &&& b.top ==> right[0] == corner_view(lines.top_right.text())
                &&& right[above] == vertical
                &&& b.bottom ==> right.last() == corner_view(lines.bottom_right.text())
            }
            &&& middle.len() == above + inside + below
            &&& b.top ==> middle[0] == horizontal
            &&& b.bottom ==> middle.last() == horizontal
            &&& opts.inner matches Some(elem) ==> middle[above] == auto_view(elem@)
        },
{
}

/// A corner is one cell with its symbol.
pub proof fn law_corner_is_one_cell(symbol: Seq<char>)
    ensures
        corner_view(symbol).elem == (ElemView::MinSize {
            inner: Box::new(ElemView::RawPrint { text: symbol }),
            size: Size { width: 1, height: 1 },
        }),
        corner_view(symbol).opts.length is None,
        corner_view(symbol).opts.fill_weight == 0,
{
}

/// An image takes the cells of the axis that it fills, with the ratio of its sides,
/// and is drawn by a command that says how wide and high it is, which axis it
/// fills with how many cells, and what it holds.
pub proof fn law_image_keeps_its_shape(
    width: u32,
    height: u32,
    axis: Axis,
    len: u16,
    data: Seq<char>,
)
    ensures
        image_elem_view(width, height, axis, len, data) matches ElemView::MinAxis { inner, min } && {
            &&& min.axis == axis
            &&& min.len == len
            &&& min.aspect_width == width
            &&& min.aspect_height == height
            &&& *inner matches ElemView::RawPrint { text } && {
                &&& axis == Axis::X ==> text == "\x1b_Ga=T,f=32,C=1,s="@ + dec(width as nat)
                    + ",v="@ + dec(height as nat) + ",c="@ + dec(len as nat) + ";"@ + data
                    + "\x1b\\"@
                &&& axis == Axis::Y ==> text == "\x1b_Ga=T,f=32,C=1,s="@ + dec(width as nat)
                    + ",v="@ + dec(height as nat) + ",r="@ + dec(len as nat) + ";"@ + data
                    + "\x1b\\"@
            }
        },
{
}

/// A symbol in the middle of some cells takes these cells of one line.
pub proof fn law_centered_symbol_takes_its_cells(sym: Seq<char>, width: u16)
    ensures
        center_symbol_view(sym, width) matches ElemView::MinSize { inner, size } && {
            &&& size.width == width
            &&& size.height == 1
            &&& *inner matches ElemView::RawPrint { text } && text == "\x1b]66;w="@ + dec(
                width as nat,
            ) + ":h=2:n=1:d=1;"@ + sym + "\x07"@
        },
{
}

/// A text in a style without colors and attributes is the text itself. With
/// attributes, everything is reset behind it.
pub proof fn law_style_is_put_around_the_text(
    styled: Seq<char>,
    text: Seq<char>,
    style: ContentStyle,
)
    requires
        is_styled(styled, text, style),
        style.foreground_color is None,
        style.background_color is None,
        style.underline_color is None,
    ensures
        style.attributes@.len() == 0 ==> styled == text,
        style.attributes@.len() > 0 ==> styled == attributes_text(
            style.attributes@,
            ATTRIBUTE_COUNT as int,
        ) + text + "\x1b[0m"@,
{
    let none = Seq::<char>::empty();
    let wanted = style.attributes@;
    let set = attributes_text(wanted, ATTRIBUTE_COUNT as int);
    let (ground, letters, line, end) = choose|
        ground: Seq<char>,
        letters: Seq<char>,
        line: Seq<char>,
        end: Seq<char>,
    |
        {
            &&& starts_layer(ground, Layer::Ground, style.background_color)
            &&& starts_layer(letters, Layer::Letters, style.foreground_color)
            &&& starts_layer(line, Layer::Line, style.underline_color)
            &&& ends_style(
                end,
                style.foreground_color,
                style.background_color,
                style.underline_color,
                wanted,
            )
            &&& styled == #[trigger] (ground + letters + line + set + text + end)
        };
    assert(none + none + none + set + text + end =~= set + text + end);
    if wanted.len() == 0 {
        lemma_no_attributes(wanted, ATTRIBUTE_COUNT as int);
        assert(none + none =~= none);
        assert(end == none);
        assert(none + text + none =~= text);
    }
}

proof fn lemma_no_attributes(wanted: Seq<Attribute>, n: int)
    requires
        wanted.len() == 0,
        0 <= n,
    ensures
        attributes_text(wanted, n) == Seq::<char>::empty(),
    decreases n,
{
    if n > 0 {
        lemma_no_attributes(wanted, n - 1);
        assert(attributes_text(wanted, n) =~= Seq::<char>::empty());
    }
}

} // verus!
