//! Text with colors, attributes and sizes.
use vstd::prelude::*;
use vstd::std_specs::convert::FromSpec;
use crate::strs::{
    dec, is_control, lines, lines_of, push_dec, push_without_controls, texts, without_controls,
};
use crate::tui::{
    auto_view, item_views, min_size_view, push_item, Axis, CustomId, Elem, ElemView, Size,
    StackItem,
};

verus! {

#[derive(Clone, Copy, Debug, PartialEq, Eq, Structural)]
pub enum HorizontalAlign {
    Left,
    Right,
    Center,
}

#[derive(Clone, Copy, Debug, PartialEq, Eq, Structural)]
pub enum VerticalAlign {
    Top,
    Bottom,
    Center,
}

#[derive(Clone, Copy, Debug, PartialEq, Eq, Structural)]
#[non_exhaustive]
pub enum Color {
    /// Specifies that no color should be set.
    Unset,
    Black,
    DarkGrey,
    Red,
    DarkRed,
    Green,
    DarkGreen,
    Yellow,
    DarkYellow,
    Blue,
    DarkBlue,
    Magenta,
    DarkMagenta,
    Cyan,
    DarkCyan,
    White,
    Grey,
    Rgb { r: u8, g: u8, b: u8 },
    AnsiValue(u8),
}

impl Default for Color {
    fn default() -> (r: Self)
        ensures
            r == Color::Unset,
    {
        Color::Unset
    }
}

/// A color as the terminal knows it: one of those that have a name, red, green and
/// blue, or an entry of the palette. `Reset` is the color that the terminal uses where
/// none is set.
#[derive(Clone, Copy, Debug, PartialEq, Eq, Structural)]
pub enum TermColor {
    Reset,
    Black,
    DarkGrey,
    Red,
    DarkRed,
    Green,
    DarkGreen,
    Yellow,
    DarkYellow,
    Blue,
    DarkBlue,
    Magenta,
    DarkMagenta,
    Cyan,
    DarkCyan,
    White,
    Grey,
    Rgb { r: u8, g: u8, b: u8 },
    AnsiValue(u8),
}

impl Color {
    /// The color of the same name, unless none is set.
    pub open spec fn term(self) -> Option<TermColor> {
        match self {
            Color::Unset => None,
            Color::Black => Some(TermColor::Black),
            Color::DarkGrey => Some(TermColor::DarkGrey),
            Color::Red => Some(TermColor::Red),
            Color::DarkRed => Some(TermColor::DarkRed),
            Color::Green => Some(TermColor::Green),
            Color::DarkGreen => Some(TermColor::DarkGreen),
            Color::Yellow => Some(TermColor::Yellow),
            Color::DarkYellow => Some(TermColor::DarkYellow),
            Color::Blue => Some(TermColor::Blue),
            Color::DarkBlue => Some(TermColor::DarkBlue),
            Color::Magenta => Some(TermColor::Magenta),
            Color::DarkMagenta => Some(TermColor::DarkMagenta),
            Color::Cyan => Some(TermColor::Cyan),
            Color::DarkCyan => Some(TermColor::DarkCyan),
            Color::White => Some(TermColor::White),
            Color::Grey => Some(TermColor::Grey),
            Color::Rgb { r, g, b } => Some(TermColor::Rgb { r, g, b }),
            Color::AnsiValue(v) => Some(TermColor::AnsiValue(v)),
        }
    }

    pub fn to_crossterm(self) -> (r: Option<TermColor>)
        ensures
            r == self.term(),
    {
        match self {
            Color::Unset => None,
            Color::Black => Some(TermColor::Black),
            Color::DarkGrey => Some(TermColor::DarkGrey),
            Color::Red => Some(TermColor::Red),
            Color::DarkRed => Some(TermColor::DarkRed),
            Color::Green => Some(TermColor::Green),
            Color::DarkGreen => Some(TermColor::DarkGreen),
            Color::Yellow => Some(TermColor::Yellow),
            Color::DarkYellow => Some(TermColor::DarkYellow),
            Color::Blue => Some(TermColor::Blue),
            Color::DarkBlue => Some(TermColor::DarkBlue),
            Color::Magenta => Some(TermColor::Magenta),
            Color::DarkMagenta => Some(TermColor::DarkMagenta),
            Color::Cyan => Some(TermColor::Cyan),
            Color::DarkCyan => Some(TermColor::DarkCyan),
            Color::White => Some(TermColor::White),
            Color::Grey => Some(TermColor::Grey),
            Color::Rgb { r, g, b } => Some(TermColor::Rgb { r, g, b }),
            Color::AnsiValue(v) => Some(TermColor::AnsiValue(v)),
        }
    }
}

/// Different colors stay different, and only where no color is set there is none.
pub proof fn law_colors_stay_apart(a: Color, b: Color)
    ensures
        a.term() is None <==> a == Color::Unset,
        a.term() == b.term() ==> a == b,
{
}

/// A color is that of the same name, red, green and blue stay what they are, and so
/// does an entry of the palette.
pub proof fn law_colors_keep_their_names(r: u8, g: u8, b: u8)
    ensures
        Color::Black.term() == Some(TermColor::Black),
        Color::DarkGrey.term() == Some(TermColor::DarkGrey),
        Color::Red.term() == Some(TermColor::Red),
        Color::DarkRed.term() == Some(TermColor::DarkRed),
        Color::Green.term() == Some(TermColor::Green),
        Color::DarkGreen.term() == Some(TermColor::DarkGreen),
        Color::Yellow.term() == Some(TermColor::Yellow),
        Color::DarkYellow.term() == Some(TermColor::DarkYellow),
        Color::Blue.term() == Some(TermColor::Blue),
        Color::DarkBlue.term() == Some(TermColor::DarkBlue),
        Color::Magenta.term() == Some(TermColor::Magenta),
        Color::DarkMagenta.term() == Some(TermColor::DarkMagenta),
        Color::Cyan.term() == Some(TermColor::Cyan),
        Color::DarkCyan.term() == Some(TermColor::DarkCyan),
        Color::White.term() == Some(TermColor::White),
        Color::Grey.term() == Some(TermColor::Grey),
        (Color::Rgb { r, g, b }).term() == Some(TermColor::Rgb { r, g, b }),
        Color::AnsiValue(r).term() == Some(TermColor::AnsiValue(r)),
{
}

/// Attributes of a text. Bold has a bit of its own; dim, italic, crossed out and
/// underlined share one.
#[derive(Clone, Copy, Debug, PartialEq, Eq, Structural)]
pub struct Attrs {
    pub flags: u8,
}

impl Default for Attrs {
    fn default() -> (r: Self)
        ensures
            r.flags == 0,
    {
        Attrs { flags: 0 }
    }
}

pub const BOLD: u8 = 1;

pub const DIM: u8 = 2;

pub const ITALIC: u8 = 2;

pub const CROSSOUT: u8 = 2;

pub const UNDERLINED: u8 = 2;

impl Attrs {
    /// Whether a flag is set.
    pub open spec fn has(self, flag: u8) -> bool {
        self.flags & flag != 0
    }

    /// With a flag set or cleared, and the others as they are.
    pub open spec fn put(self, flag: u8, val: bool) -> Attrs {
        Attrs {
            flags: if val {
                self.flags | flag
            } else {
                self.flags & !flag
            },
        }
    }

    fn get(&self, flag: u8) -> (r: bool)
        ensures
            r == self.has(flag),
    {
        self.flags & flag != 0
    }

    fn set(&mut self, flag: u8, val: bool)
        requires
            flag == 1 || flag == 2,
        ensures
            *final(self) == old(self).put(flag, val),
    {
        let flags: u8 = self.flags;
        assert(flag == 1 || flag == 2 ==> (flags & flag == 0 ==> flags ^ flag == flags | flag && flags
            & !flag == flags) && (flags & flag != 0 ==> flags ^ flag == flags & !flag && flags | flag
            == flags)) by (bit_vector);
        if self.get(flag) != val {
            self.flags = flags ^ flag;
        }
    }

    pub fn bold() -> (r: Self)
        ensures
            r == (Attrs { flags: BOLD }),
    {
        Attrs { flags: BOLD }
    }

    pub fn is_bold(&self) -> (r: bool)
        ensures
            r == self.has(BOLD),
    {
        self.get(BOLD)
    }

    pub fn set_bold(&mut self, val: bool)
        ensures
            *final(self) == old(self).put(BOLD, val),
    {
        self.set(BOLD, val);
    }

    pub fn with_bold(self, val: bool) -> (r: Self)
        ensures
            r == self.put(BOLD, val),
    {
        let mut attrs = self;
        attrs.set(BOLD, val);
        attrs
    }

    pub fn dim() -> (r: Self)
        ensures
            r == (Attrs { flags: DIM }),
    {
        Attrs { flags: DIM }
    }

    pub fn is_dim(&self) -> (r: bool)
        ensures
            r == self.has(DIM),
    {
        self.get(DIM)
    }

    pub fn set_dim(&mut self, val: bool)
        ensures
            *final(self) == old(self).put(DIM, val),
    {
        self.set(DIM, val);
    }

    pub fn with_dim(self, val: bool) -> (r: Self)
        ensures
            r == self.put(DIM, val),
    {
        let mut attrs = self;
        attrs.set(DIM, val);
        attrs
    }

    pub fn italic() -> (r: Self)
        ensures
            r == (Attrs { flags: ITALIC }),
    {
        Attrs { flags: ITALIC }
    }

    pub fn is_italic(&self) -> (r: bool)
        ensures
            r == self.has(ITALIC),
    {
        self.get(ITALIC)
    }

    pub fn set_italic(&mut self, val: bool)
        ensures
            *final(self) == old(self).put(ITALIC, val),
    {
        self.set(ITALIC, val);
    }

    pub fn with_italic(self, val: bool) -> (r: Self)
        ensures
            r == self.put(ITALIC, val),
    {
        let mut attrs = self;
        attrs.set(ITALIC, val);
        attrs
    }

    pub fn crossout() -> (r: Self)
        ensures
            r == (Attrs { flags: CROSSOUT }),
    {
        Attrs { flags: CROSSOUT }
    }

    pub fn is_crossout(&self) -> (r: bool)
        ensures
            r == self.has(CROSSOUT),
    {
        self.get(CROSSOUT)
    }

    pub fn set_crossout(&mut self, val: bool)
        ensures
            *final(self) == old(self).put(CROSSOUT, val),
    {
        self.set(CROSSOUT, val);
    }

    pub fn with_crossout(self, val: bool) -> (r: Self)
        ensures
            r == self.put(CROSSOUT, val),
    {
        let mut attrs = self;
        attrs.set(CROSSOUT, val);
        attrs
    }

    pub fn underlined() -> (r: Self)
        ensures
            r == (Attrs { flags: UNDERLINED }),
    {
        Attrs { flags: UNDERLINED }
    }

    pub fn is_underlined(&self) -> (r: bool)
        ensures
            r == self.has(UNDERLINED),
    {
        self.get(UNDERLINED)
    }

    pub fn set_underlined(&mut self, val: bool)
        ensures
            *final(self) == old(self).put(UNDERLINED, val),
    {
        self.set(UNDERLINED, val);
    }

    pub fn with_underlined(self, val: bool) -> (r: Self)
        ensures
            r == self.put(UNDERLINED, val),
    {
        let mut attrs = self;
        attrs.set(UNDERLINED, val);
        attrs
    }
}

/// Whether a flag is that of an attribute.
pub open spec fn is_attr(flag: u8) -> bool {
    flag == BOLD || flag == DIM || flag == ITALIC || flag == CROSSOUT || flag == UNDERLINED
}

/// An attribute is what it was set to. Those that share its bit are set with it, and
/// those that do not stay as they were.
pub proof fn law_attrs_set_get(attrs: Attrs, set: u8, other: u8, val: bool)
    requires
        is_attr(set),
        is_attr(other),
    ensures
        attrs.put(set, val).has(set) == val,
        other == set ==> attrs.put(set, val).has(other) == val,
        other != set ==> attrs.put(set, val).has(other) == attrs.has(other),
{
    let f: u8 = attrs.flags;
    assert((f | 1) & 1 != 0 && (f & !1) & 1 == 0 && (f | 2) & 2 != 0 && (f & !2) & 2 == 0) by (bit_vector);
    assert((f | 1) & 2 == f & 2 && (f & !1) & 2 == f & 2 && (f | 2) & 1 == f & 1 && (f & !2) & 1 == f
        & 1) by (bit_vector);
}

/// Bold has a bit to itself. Dim, italic, crossed out and underlined are one bit: a text
/// that has one of them has them all.
pub proof fn law_attrs_that_share_a_bit(attrs: Attrs, val: bool)
    ensures
        attrs.put(BOLD, val).has(DIM) == attrs.has(DIM),
        attrs.put(DIM, val).has(BOLD) == attrs.has(BOLD),
        attrs.has(ITALIC) == attrs.has(DIM),
        attrs.has(CROSSOUT) == attrs.has(DIM),
        attrs.has(UNDERLINED) == attrs.has(DIM),
{
    law_attrs_set_get(attrs, BOLD, DIM, val);
    law_attrs_set_get(attrs, DIM, BOLD, val);
}

/// A fraction of the size of a cell, and where in the cell the text stands.
/// Neither number is zero.
#[derive(Clone, Copy, Debug, PartialEq, Eq, Structural)]
pub struct Subscale {
    pub numerator: u16,
    pub denominator: u16,
    pub vertical: VerticalAlign,
    pub horizontal: HorizontalAlign,
}

impl Subscale {
    pub open spec fn wf(self) -> bool {
        self.numerator > 0 && self.denominator > 0
    }

    /// The whole cell, in its upper left corner.
    pub open spec fn whole() -> Subscale {
        Subscale {
            numerator: 1,
            denominator: 1,
            vertical: VerticalAlign::Top,
            horizontal: HorizontalAlign::Left,
        }
    }
}

impl Default for Subscale {
    fn default() -> (r: Self)
        ensures
            r.wf(),
            r == Subscale::whole(),
    {
        Subscale {
            numerator: 1,
            denominator: 1,
            vertical: VerticalAlign::Top,
            horizontal: HorizontalAlign::Left,
        }
    }
}

/// How a text is drawn. The scale is not zero.
#[derive(Clone, Copy, Debug, PartialEq, Eq, Structural)]
pub struct TextOpts {
    pub fg_color: Color,
    pub bg_color: Color,
    pub underline_color: Color,
    pub attrs: Attrs,
    pub scale: u16,
    pub subscale: Option<Subscale>,
}

impl TextOpts {
    pub open spec fn wf(self) -> bool {
        self.scale > 0 && (self.subscale matches Some(subscale) ==> subscale.wf())
    }

    /// Text as the terminal draws it by itself.
    pub open spec fn usual() -> TextOpts {
        TextOpts {
            fg_color: Color::Unset,
            bg_color: Color::Unset,
            underline_color: Color::Unset,
            attrs: Attrs { flags: 0 },
            scale: 1,
            subscale: None,
        }
    }

    /// The options that `f` makes of these.
    pub fn with<F: FnOnce(&mut Self)>(self, f: F) -> (r: Self)
        requires
            forall|opts: &mut Self| *opts == self ==> #[trigger] f.requires((opts,)),
        ensures
            exists|opts: &mut Self|
                *opts == self && *final(opts) == r && #[trigger] f.ensures((opts,), ()),
    {
        let mut opts = self;
        f(&mut opts);
        opts
    }
}

impl Default for TextOpts {
    fn default() -> (r: Self)
        ensures
            r.wf(),
            r == TextOpts::usual(),
    {
        TextOpts {
            fg_color: Color::Unset,
            bg_color: Color::Unset,
            underline_color: Color::Unset,
            attrs: Attrs { flags: 0 },
            scale: 1,
            subscale: None,
        }
    }
}

impl From<Attrs> for TextOpts {
    fn from(value: Attrs) -> (r: Self) {
        TextOpts { attrs: value, ..TextOpts::default() }
    }
}

impl vstd::std_specs::convert::FromSpecImpl<Attrs> for TextOpts {
    open spec fn obeys_from_spec() -> bool {
        true
    }

    open spec fn from_spec(value: Attrs) -> Self {
        TextOpts { attrs: value, ..TextOpts::usual() }
    }
}

impl From<Subscale> for TextOpts {
    fn from(value: Subscale) -> (r: Self) {
        TextOpts { subscale: Some(value), ..TextOpts::default() }
    }
}

impl vstd::std_specs::convert::FromSpecImpl<Subscale> for TextOpts {
    open spec fn obeys_from_spec() -> bool {
        true
    }

    open spec fn from_spec(value: Subscale) -> Self {
        TextOpts { subscale: Some(value), ..TextOpts::usual() }
    }
}

impl From<VerticalAlign> for TextOpts {
    fn from(value: VerticalAlign) -> (r: Self) {
        TextOpts::from(Subscale { vertical: value, ..Subscale::default() })
    }
}

impl vstd::std_specs::convert::FromSpecImpl<VerticalAlign> for TextOpts {
    open spec fn obeys_from_spec() -> bool {
        true
    }

    open spec fn from_spec(value: VerticalAlign) -> Self {
        TextOpts {
            subscale: Some(Subscale { vertical: value, ..Subscale::whole() }),
            ..TextOpts::usual()
        }
    }
}

impl From<HorizontalAlign> for TextOpts {
    fn from(value: HorizontalAlign) -> (r: Self) {
        TextOpts::from(Subscale { horizontal: value, ..Subscale::default() })
    }
}

impl vstd::std_specs::convert::FromSpecImpl<HorizontalAlign> for TextOpts {
    open spec fn obeys_from_spec() -> bool {
        true
    }

    open spec fn from_spec(value: HorizontalAlign) -> Self {
        TextOpts {
            subscale: Some(Subscale { horizontal: value, ..Subscale::whole() }),
            ..TextOpts::usual()
        }
    }
}

/// Options that are made of one thing have that thing and are usual otherwise; an
/// alignment is one of the whole cell.
pub proof fn law_options_of_one_thing(
    attrs: Attrs,
    subscale: Subscale,
    vertical: VerticalAlign,
    horizontal: HorizontalAlign,
)
    ensures
        ({
            let of_attrs = <TextOpts as FromSpec<Attrs>>::from_spec(attrs);
            let of_scale = <TextOpts as FromSpec<Subscale>>::from_spec(subscale);
            let of_vertical = <TextOpts as FromSpec<VerticalAlign>>::from_spec(vertical);
            let of_horizontal = <TextOpts as FromSpec<HorizontalAlign>>::from_spec(horizontal);
            &&& of_attrs.attrs == attrs
            &&& of_attrs == (TextOpts { attrs, ..TextOpts::usual() })
            &&& of_scale.subscale == Some(subscale)
            &&& of_scale == (TextOpts { subscale: Some(subscale), ..TextOpts::usual() })
            &&& of_vertical.subscale == Some(
                Subscale {
                    numerator: 1,
                    denominator: 1,
                    vertical,
                    horizontal: HorizontalAlign::Left,
                },
            )
            &&& of_vertical == (TextOpts {
                subscale: of_vertical.subscale,
                ..TextOpts::usual()
            })
            &&& of_horizontal.subscale == Some(
                Subscale {
                    numerator: 1,
                    denominator: 1,
                    vertical: VerticalAlign::Top,
                    horizontal,
                },
            )
            &&& of_horizontal == (TextOpts {
                subscale: of_horizontal.subscale,
                ..TextOpts::usual()
            })
        }),
{
}

/// The extended grapheme clusters of a text.
pub uninterp spec fn clusters_of(text: Seq<char>) -> Seq<Seq<char>>;

/// Texts one behind the other.
pub open spec fn concat(parts: Seq<Seq<char>>) -> Seq<char>
    decreases parts.len(),
{
    if parts.len() == 0 {
        Seq::empty()
    } else {
        concat(parts.drop_last()) + parts.last()
    }
}

/// `unicode_segmentation::UnicodeSegmentation::graphemes` for extended clusters:
/// the clusters are a function of the text, and one behind the other they are the
/// text.
#[verifier::external_body]
pub fn graphemes(text: &str) -> (r: Vec<String>)
    ensures
        texts(r@) == clusters_of(text@),
        concat(texts(r@)) == text@,
{
    unicode_segmentation::UnicodeSegmentation::graphemes(text, true).map(str::to_owned).collect()
}

/// The number of columns that a text takes.
pub uninterp spec fn width_of(text: Seq<char>) -> usize;

/// `unicode_width::UnicodeWidthStr::width`: the number of columns is a function
/// of the text.
#[verifier::external_body]
pub fn width(text: &str) -> (r: usize)
    ensures
        r == width_of(text@),
{
    unicode_width::UnicodeWidthStr::width(text)
}

/// What of a text a color is for: the ground, the letters, or the line below them.
#[derive(Clone, Copy, Debug, PartialEq, Eq, Structural)]
pub enum Layer {
    Ground,
    Letters,
    Line,
}

impl Layer {
    /// What opens the color of the layer in an escape sequence.
    pub open spec fn code(self) -> Seq<char> {
        match self {
            Layer::Ground => "48;"@,
            Layer::Letters => "38;"@,
            Layer::Line => "58;"@,
        }
    }

    /// What stands for the usual color of the layer in an escape sequence.
    pub open spec fn reset_code(self) -> Seq<char> {
        match self {
            Layer::Ground => "49"@,
            Layer::Letters => "39"@,
            Layer::Line => "59"@,
        }
    }
}

/// What stands for a color in an escape sequence. The colors that have a name are the
/// first entries of the palette.
pub open spec fn color_code(layer: Layer, color: TermColor) -> Seq<char> {
    match color {
        TermColor::Reset => layer.reset_code(),
        TermColor::Black => layer.code() + "5;0"@,
        TermColor::DarkGrey => layer.code() + "5;8"@,
        TermColor::Red => layer.code() + "5;9"@,
        TermColor::DarkRed => layer.code() + "5;1"@,
        TermColor::Green => layer.code() + "5;10"@,
        TermColor::DarkGreen => layer.code() + "5;2"@,
        TermColor::Yellow => layer.code() + "5;11"@,
        TermColor::DarkYellow => layer.code() + "5;3"@,
        TermColor::Blue => layer.code() + "5;12"@,
        TermColor::DarkBlue => layer.code() + "5;4"@,
        TermColor::Magenta => layer.code() + "5;13"@,
        TermColor::DarkMagenta => layer.code() + "5;5"@,
        TermColor::Cyan => layer.code() + "5;14"@,
        TermColor::DarkCyan => layer.code() + "5;6"@,
        TermColor::White => layer.code() + "5;15"@,
        TermColor::Grey => layer.code() + "5;7"@,
        TermColor::Rgb { r, g, b } => layer.code() + "2;"@ + dec(r as nat) + ";"@ + dec(g as nat)
            + ";"@ + dec(b as nat),
        TermColor::AnsiValue(v) => layer.code() + "5;"@ + dec(v as nat),
    }
}

/// The escape sequence that sets a color.
pub open spec fn color_sequence(layer: Layer, color: TermColor) -> Seq<char> {
    "\x1b["@ + color_code(layer, color) + "m"@
}

/// The sequence that stands in place of a color where the environment asks for
/// output without colors.
pub open spec fn no_color_sequence() -> Seq<char> {
    "\x1b[m"@
}

/// Whether a text sets that color, or stands for it where colors are not wanted.
pub open spec fn sets_color(text: Seq<char>, layer: Layer, color: TermColor) -> bool {
    text == color_sequence(layer, color) || text == no_color_sequence()
}

/// The name of a color, if it has one.
pub open spec fn color_name(color: TermColor) -> Option<Seq<char>> {
    match color {
        TermColor::Reset => Some("reset"@),
        TermColor::Black => Some("black"@),
        TermColor::DarkGrey => Some("dark_grey"@),
        TermColor::Red => Some("red"@),
        TermColor::DarkRed => Some("dark_red"@),
        TermColor::Green => Some("green"@),
        TermColor::DarkGreen => Some("dark_green"@),
        TermColor::Yellow => Some("yellow"@),
        TermColor::DarkYellow => Some("dark_yellow"@),
        TermColor::Blue => Some("blue"@),
        TermColor::DarkBlue => Some("dark_blue"@),
        TermColor::Magenta => Some("magenta"@),
        TermColor::DarkMagenta => Some("dark_magenta"@),
        TermColor::Cyan => Some("cyan"@),
        TermColor::DarkCyan => Some("dark_cyan"@),
        TermColor::White => Some("white"@),
        TermColor::Grey => Some("grey"@),
        TermColor::Rgb { .. } => None,
        TermColor::AnsiValue(_) => None,
    }
}

/// A color in plain values: by its name where it has one, or by its numbers.
#[derive(Clone, Copy, Debug)]
pub enum PlainColor {
    Name(&'static str),
    Rgb { r: u8, g: u8, b: u8 },
    AnsiValue(u8),
}

impl PlainColor {
    /// Whether this is that color.
    pub open spec fn stands_for(self, color: TermColor) -> bool {
        match self {
            PlainColor::Name(name) => color_name(color) == Some(name@),
            PlainColor::Rgb { r, g, b } => color == (TermColor::Rgb { r, g, b }),
            PlainColor::AnsiValue(v) => color == TermColor::AnsiValue(v),
        }
    }

    /// Whether this is a color at all: it has no other name than those of colors.
    pub open spec fn wf(self) -> bool {
        exists|color: TermColor| self.stands_for(color)
    }
}

impl TermColor {
    /// The color in plain values.
    pub fn plain(self) -> (r: PlainColor)
        ensures
            r.stands_for(self),
            r.wf(),
    {
        let r = match self {
            TermColor::Reset => PlainColor::Name("reset"),
            TermColor::Black => PlainColor::Name("black"),
            TermColor::DarkGrey => PlainColor::Name("dark_grey"),
            TermColor::Red => PlainColor::Name("red"),
            TermColor::DarkRed => PlainColor::Name("dark_red"),
            TermColor::Green => PlainColor::Name("green"),
            TermColor::DarkGreen => PlainColor::Name("dark_green"),
            TermColor::Yellow => PlainColor::Name("yellow"),
            TermColor::DarkYellow => PlainColor::Name("dark_yellow"),
            TermColor::Blue => PlainColor::Name("blue"),
            TermColor::DarkBlue => PlainColor::Name("dark_blue"),
            TermColor::Magenta => PlainColor::Name("magenta"),
            TermColor::DarkMagenta => PlainColor::Name("dark_magenta"),
            TermColor::Cyan => PlainColor::Name("cyan"),
            TermColor::DarkCyan => PlainColor::Name("dark_cyan"),
            TermColor::White => PlainColor::Name("white"),
            TermColor::Grey => PlainColor::Name("grey"),
            TermColor::Rgb { r, g, b } => PlainColor::Rgb { r, g, b },
            TermColor::AnsiValue(v) => PlainColor::AnsiValue(v),
        };
        proof {
            assert(r.stands_for(self));
        }
        r
    }
}

/// `crossterm::style::SetBackgroundColor` as a command: the escape sequence of the color, or
/// `ESC[m` where the environment variable `NO_COLOR` is set. A color that has a name is
/// found by it, with `crossterm::style::Color::try_from`.
#[verifier::external_body]
fn background_sequence(color: PlainColor) -> (r: String)
    requires
        color.wf(),
    ensures
        forall|term: TermColor| #[trigger]
            color.stands_for(term) ==> sets_color(r@, Layer::Ground, term),
{
    let mut out = String::new();
    let color = match color {
        PlainColor::Name(name) => {
            crossterm::style::Color::try_from(name).unwrap_or(crossterm::style::Color::Reset)
        },
        PlainColor::Rgb { r, g, b } => crossterm::style::Color::Rgb { r, g, b },
        PlainColor::AnsiValue(v) => crossterm::style::Color::AnsiValue(v),
    };
    let _ = crossterm::Command::write_ansi(&crossterm::style::SetBackgroundColor(color), &mut out);
    out
}

/// `crossterm::style::SetForegroundColor` as a command: the escape sequence of the color, or
/// `ESC[m` where the environment variable `NO_COLOR` is set. A color that has a name is
/// found by it, with `crossterm::style::Color::try_from`.
#[verifier::external_body]
fn foreground_sequence(color: PlainColor) -> (r: String)
    requires
        color.wf(),
    ensures
        forall|term: TermColor| #[trigger]
            color.stands_for(term) ==> sets_color(r@, Layer::Letters, term),
{
    let mut out = String::new();
    let color = match color {
        PlainColor::Name(name) => {
            crossterm::style::Color::try_from(name).unwrap_or(crossterm::style::Color::Reset)
        },
        PlainColor::Rgb { r, g, b } => crossterm::style::Color::Rgb { r, g, b },
        PlainColor::AnsiValue(v) => crossterm::style::Color::AnsiValue(v),
    };
    let _ = crossterm::Command::write_ansi(&crossterm::style::SetForegroundColor(color), &mut out);
    out
}

/// `crossterm::style::SetUnderlineColor` as a command: the escape sequence of the color, or
/// `ESC[m` where the environment variable `NO_COLOR` is set. A color that has a name is
/// found by it, with `crossterm::style::Color::try_from`.
#[verifier::external_body]
fn underline_sequence(color: PlainColor) -> (r: String)
    requires
        color.wf(),
    ensures
        forall|term: TermColor| #[trigger]
            color.stands_for(term) ==> sets_color(r@, Layer::Line, term),
{
    let mut out = String::new();
    let color = match color {
        PlainColor::Name(name) => {
            crossterm::style::Color::try_from(name).unwrap_or(crossterm::style::Color::Reset)
        },
        PlainColor::Rgb { r, g, b } => crossterm::style::Color::Rgb { r, g, b },
        PlainColor::AnsiValue(v) => crossterm::style::Color::AnsiValue(v),
    };
    let _ = crossterm::Command::write_ansi(&crossterm::style::SetUnderlineColor(color), &mut out);
    out
}

/// `crossterm::style::ResetColor` as a command: always the same sequence.
#[verifier::external_body]
fn reset_sequence() -> (r: String)
    ensures
        r@ == "\x1b[0m"@,
{
    let mut out = String::new();
    let _ = crossterm::Command::write_ansi(&crossterm::style::ResetColor, &mut out);
    out
}

/// Whether a text sets a color of a layer, if there is one to set.
pub open spec fn is_layer(text: Seq<char>, layer: Layer, color: Color) -> bool {
    match color.term() {
        Some(color) => sets_color(text, layer, color),
        None => text == Seq::<char>::empty(),
    }
}

/// Whether a text sets the colors of the options: the ground, the letters, the
/// line below them.
pub open spec fn is_intro(text: Seq<char>, opts: TextOpts) -> bool {
    exists|bg: Seq<char>, fg: Seq<char>, ul: Seq<char>|
        {
            &&& #[trigger] is_layer(bg, Layer::Ground, opts.bg_color)
            &&& #[trigger] is_layer(fg, Layer::Letters, opts.fg_color)
            &&& #[trigger] is_layer(ul, Layer::Line, opts.underline_color)
            &&& text == bg + fg + ul
        }
}

/// Whether the options have any color.
pub open spec fn has_color(opts: TextOpts) -> bool {
    opts.bg_color.term() is Some || opts.fg_color.term() is Some || opts.underline_color.term() is Some
}

/// What ends a text: the colors are reset, if any was set.
pub open spec fn outro(opts: TextOpts) -> Seq<char> {
    if has_color(opts) {
        "\x1b[0m"@
    } else {
        Seq::empty()
    }
}

/// One setting of the text sizing protocol.
pub open spec fn flag_text(flag: Seq<char>, val: nat) -> Seq<char> {
    flag + "="@ + dec(val)
}

/// The number that stands for a vertical alignment.
pub open spec fn vertical_code(align: VerticalAlign) -> nat {
    match align {
        VerticalAlign::Top => 0,
        VerticalAlign::Bottom => 1,
        VerticalAlign::Center => 2,
    }
}

/// The number that stands for a horizontal alignment.
pub open spec fn horizontal_code(align: HorizontalAlign) -> nat {
    match align {
        HorizontalAlign::Left => 0,
        HorizontalAlign::Right => 1,
        HorizontalAlign::Center => 2,
    }
}

/// The setting of an alignment, unless it is the one that the terminal assumes.
pub open spec fn align_flags(flag: Seq<char>, code: nat) -> Seq<Seq<char>> {
    if code == 0 {
        Seq::empty()
    } else {
        seq![flag_text(flag, code)]
    }
}

/// The settings of a fraction.
pub open spec fn subscale_flags(sub: Subscale) -> Seq<Seq<char>> {
    seq![flag_text("n"@, sub.numerator as nat), flag_text("d"@, sub.denominator as nat)]
        + align_flags("v"@, vertical_code(sub.vertical)) + align_flags(
        "h"@,
        horizontal_code(sub.horizontal),
    )
}

/// The settings for a piece of text, in order. Those that the terminal assumes
/// anyway are left out.
pub open spec fn flags_of(opts: TextOpts, width: Option<usize>) -> Seq<Seq<char>> {
    let scale = if opts.scale != 1 {
        seq![flag_text("s"@, opts.scale as nat)]
    } else {
        Seq::empty()
    };
    let cells = match width {
        Some(width) => seq![flag_text("w"@, width as nat)],
        None => Seq::empty(),
    };
    let fraction = match opts.subscale {
        Some(sub) => subscale_flags(sub),
        None => Seq::empty(),
    };
    scale + cells + fraction
}

/// What opens a piece of text in the text sizing protocol.
pub open spec fn sizing_intro(opts: TextOpts, width: Option<usize>) -> Seq<char> {
    "\x1b]66;"@ + crate::strs::join(flags_of(opts, width), ":"@) + ";"@
}

/// A piece of text in the text sizing protocol. Control characters in the text
/// are left out, so none of them can end it early.
pub open spec fn sized(opts: TextOpts, text: Seq<char>, width: Option<usize>) -> Seq<char> {
    sizing_intro(opts, width) + without_controls(text) + "\x07"@
}

/// `width + added`, at most the greatest `u16`.
pub open spec fn width_sum(width: u16, added: usize) -> u16 {
    if width + added > u16::MAX {
        u16::MAX
    } else {
        (width + added) as u16
    }
}

/// Writes one line of text, piece by piece.
#[derive(Debug)]
pub struct LineFormatter {
    pub opts: TextOpts,
    pub out: String,
    pub width: u16,
    pub reset_color: bool,
}

/// What can be done to a line: count columns, write a piece without counting it, or
/// write a piece that takes some columns.
#[verifier::ext_equal]
pub enum Written {
    Width(usize),
    Direct(Seq<char>, Option<usize>),
    Cell(Seq<char>, usize),
}

impl Written {
    /// What this adds to the text of the line.
    pub open spec fn text(self, opts: TextOpts) -> Seq<char> {
        match self {
            Written::Width(_) => Seq::empty(),
            Written::Direct(text, cell_width) => sized(opts, text, cell_width),
            Written::Cell(text, width) => sized(opts, text, Some(width)),
        }
    }

    /// The columns that this adds to the line.
    pub open spec fn columns(self) -> usize {
        match self {
            Written::Width(width) => width,
            Written::Direct(_, _) => 0,
            Written::Cell(_, width) => width,
        }
    }
}

/// Whether a line is another one with something added.
pub open spec fn wrote(before: LineFormatter, added: Written, after: LineFormatter) -> bool {
    &&& after.opts == before.opts
    &&& after.reset_color == before.reset_color
    &&& after.width == width_sum(before.width, added.columns())
    &&& after.out@ == before.out@ + added.text(before.opts)
}

/// Whether a line has just been started behind some text. `intro` is what sets its
/// colors.
pub open spec fn entered(
    line: LineFormatter,
    out: Seq<char>,
    opts: TextOpts,
    intro: Seq<char>,
) -> bool {
    &&& is_intro(intro, opts)
    &&& line.opts == opts
    &&& line.width == 0
    &&& line.reset_color == has_color(opts)
    &&& line.out@ == out + intro
}

/// What a line is in the end: its text, its options and its size.
pub open spec fn finished(line: LineFormatter) -> (Seq<char>, TextOpts, Size) {
    (
        line.out@ + (if line.reset_color {
            "\x1b[0m"@
        } else {
            Seq::empty()
        }),
        line.opts,
        Size { width: line.width, height: line.opts.scale },
    )
}

/// All that is added to the text of a line.
pub open spec fn all_text(opts: TextOpts, writes: Seq<Written>) -> Seq<char>
    decreases writes.len(),
{
    if writes.len() == 0 {
        Seq::empty()
    } else {
        all_text(opts, writes.drop_last()) + writes.last().text(opts)
    }
}

/// The sum of all columns that are added to a line.
pub open spec fn all_columns(writes: Seq<Written>) -> int
    decreases writes.len(),
{
    if writes.len() == 0 {
        0
    } else {
        all_columns(writes.drop_last()) + writes.last().columns()
    }
}

/// A number of columns, as far as it can be counted.
pub open spec fn counted(columns: int) -> u16 {
    if columns > u16::MAX {
        u16::MAX
    } else {
        columns as u16
    }
}

proof fn lemma_writes_add_up(states: Seq<LineFormatter>, writes: Seq<Written>)
    requires
        states.len() == writes.len() + 1,
        states[0].width == 0,
        forall|i: int|
            0 <= i < writes.len() ==> wrote(#[trigger] states[i], writes[i], states[i + 1]),
    ensures
        states.last().opts == states[0].opts,
        states.last().reset_color == states[0].reset_color,
        states.last().out@ == states[0].out@ + all_text(states[0].opts, writes),
        all_columns(writes) >= 0,
        states.last().width == counted(all_columns(writes)),
    decreases writes.len(),
{
    if writes.len() == 0 {
        assert(states[0].out@ + Seq::<char>::empty() =~= states[0].out@);
    } else {
        let front = states.drop_last();
        let n = writes.len() - 1;
        assert forall|i: int| 0 <= i < n implies wrote(
            #[trigger] front[i],
            writes.drop_last()[i],
            front[i + 1],
        ) by {
            assert(wrote(states[i], writes[i], states[i + 1]));
        }
        lemma_writes_add_up(front, writes.drop_last());
        assert(wrote(states[n], writes[n], states[n + 1]));
        assert(states.last().out@ =~= states[0].out@ + all_text(states[0].opts, writes));
    }
}

/// However a line is written, in the end it is all that was written, behind what sets
/// its colors and before what resets them; it has the options that it was started
/// with; and it is as wide as all columns together, as far as they can be counted.
pub proof fn law_finish_gives_all(
    states: Seq<LineFormatter>,
    writes: Seq<Written>,
    out: Seq<char>,
    opts: TextOpts,
    intro: Seq<char>,
)
    requires
        states.len() == writes.len() + 1,
        entered(states[0], out, opts, intro),
        forall|i: int|
            0 <= i < writes.len() ==> wrote(#[trigger] states[i], writes[i], states[i + 1]),
    ensures
        finished(states.last()) == (
            out + intro + all_text(opts, writes) + outro(opts),
            opts,
            Size { width: counted(all_columns(writes)), height: opts.scale },
        ),
{
    lemma_writes_add_up(states, writes);
}

/// A text that ends with settings.
pub open spec fn with_flags(before: Seq<char>, flags: Seq<Seq<char>>) -> Seq<char> {
    before + crate::strs::join(flags, ":"@)
}

/// Adds one setting to a list of them.
fn push_flag(
    out: &mut String,
    needs_colon: &mut bool,
    flag: &str,
    val: u64,
    Ghost(before): Ghost<Seq<char>>,
    Ghost(done): Ghost<Seq<Seq<char>>>,
)
    requires
        *old(needs_colon) == (done.len() > 0),
        old(out)@ == with_flags(before, done),
    ensures
        *final(needs_colon),
        final(out)@ == with_flags(before, done.push(flag_text(flag@, val as nat))),
{
    let ghost added = flag_text(flag@, val as nat);
    if *needs_colon {
        out.push_str(":");
    } else {
        *needs_colon = true;
    }
    out.push_str(flag);
    out.push_str("=");
    push_dec(out, val);
    proof {
        assert(done.push(added).drop_last() =~= done);
        assert(out@ =~= with_flags(before, done.push(added)));
    }
}

/// Adds the settings of a fraction to a list of settings.
fn push_subscale(
    out: &mut String,
    needs_colon: &mut bool,
    sub: Subscale,
    Ghost(before): Ghost<Seq<char>>,
    Ghost(done): Ghost<Seq<Seq<char>>>,
)
    requires
        *old(needs_colon) == (done.len() > 0),
        old(out)@ == with_flags(before, done),
    ensures
        final(out)@ == with_flags(before, done + subscale_flags(sub)),
{
    let ghost d1 = done.push(flag_text("n"@, sub.numerator as nat));
    push_flag(out, needs_colon, "n", sub.numerator as u64, Ghost(before), Ghost(done));
    let ghost d2 = d1.push(flag_text("d"@, sub.denominator as nat));
    push_flag(out, needs_colon, "d", sub.denominator as u64, Ghost(before), Ghost(d1));
    let ghost d3 = d2 + align_flags("v"@, vertical_code(sub.vertical));
    match sub.vertical {
        VerticalAlign::Top => {},
        VerticalAlign::Bottom => {
            push_flag(out, needs_colon, "v", 1, Ghost(before), Ghost(d2));
        },
        VerticalAlign::Center => {
            push_flag(out, needs_colon, "v", 2, Ghost(before), Ghost(d2));
        },
    }
    proof {
        assert(d2 + Seq::<Seq<char>>::empty() =~= d2);
        assert(d2.push(flag_text("v"@, 1)) =~= d2 + seq![flag_text("v"@, 1)]);
        assert(d2.push(flag_text("v"@, 2)) =~= d2 + seq![flag_text("v"@, 2)]);
        assert(out@ == with_flags(before, d3));
    }
    match sub.horizontal {
        HorizontalAlign::Left => {},
        HorizontalAlign::Right => {
            push_flag(out, needs_colon, "h", 1, Ghost(before), Ghost(d3));
        },
        HorizontalAlign::Center => {
            push_flag(out, needs_colon, "h", 2, Ghost(before), Ghost(d3));
        },
    }
    proof {
        let d4 = d3 + align_flags("h"@, horizontal_code(sub.horizontal));
        assert(d3 + Seq::<Seq<char>>::empty() =~= d3);
        assert(d3.push(flag_text("h"@, 1)) =~= d3 + seq![flag_text("h"@, 1)]);
        assert(d3.push(flag_text("h"@, 2)) =~= d3 + seq![flag_text("h"@, 2)]);
        assert(out@ == with_flags(before, d4));
        assert(d4 =~= done + subscale_flags(sub));
    }
}

impl LineFormatter {
    /// Starts a line with the colors of the options.
    pub fn enter_new(out: String, opts: TextOpts) -> (r: Self)
        ensures
            exists|intro: Seq<char>| #[trigger] entered(r, out@, opts, intro),
    {
        let mut text: String = out;
        let mut reset_color = false;
        let ghost mut bg: Seq<char> = Seq::empty();
        let ghost mut fg: Seq<char> = Seq::empty();
        let ghost mut ul: Seq<char> = Seq::empty();
        if let Some(color) = opts.bg_color.to_crossterm() {
            reset_color = true;
            let sequence = background_sequence(color.plain());
            proof {
                bg = sequence@;
            }
            text.push_str(&sequence);
        }
        if let Some(color) = opts.fg_color.to_crossterm() {
            reset_color = true;
            let sequence = foreground_sequence(color.plain());
            proof {
                fg = sequence@;
            }
            text.push_str(&sequence);
        }
        if let Some(color) = opts.underline_color.to_crossterm() {
            reset_color = true;
            let sequence = underline_sequence(color.plain());
            proof {
                ul = sequence@;
            }
            text.push_str(&sequence);
        }
        proof {
            assert(is_layer(bg, Layer::Ground, opts.bg_color) && is_layer(fg, Layer::Letters, opts.fg_color)
                && is_layer(ul, Layer::Line, opts.underline_color));
            assert(is_intro(bg + fg + ul, opts));
            assert(text@ =~= out@ + (bg + fg + ul));
        }
        let line = LineFormatter { opts, out: text, width: 0, reset_color };
        proof {
            assert(entered(line, out@, opts, bg + fg + ul));
        }
        line
    }

    /// Ends the line. The result is its text, its options and its size.
    pub fn finish(self) -> (r: (String, TextOpts, Size))
        ensures
            (r.0@, r.1, r.2) == finished(self),
    {
        let mut text: String = self.out;
        if self.reset_color {
            text.push_str(&reset_sequence());
        } else {
            proof {
                assert(text@ =~= text@ + Seq::<char>::empty());
            }
        }
        (text, self.opts, Size { width: self.width, height: self.opts.scale })
    }

    /// Counts `width` more columns.
    pub fn add_width(&mut self, width: usize)
        ensures
            *final(self) == (LineFormatter {
                width: width_sum(old(self).width, width),
                ..*old(self)
            }),
            wrote(*old(self), Written::Width(width), *final(self)),
    {
        let added: u16 = if width > u16::MAX as usize {
            u16::MAX
        } else {
            width as u16
        };
        self.width = self.width.saturating_add(added);
        proof {
            assert(self.out@ + Seq::<char>::empty() =~= self.out@);
        }
    }

    /// Opens a piece of text.
    fn open_sizing_context(&mut self, width: Option<usize>)
        ensures
            final(self).opts == old(self).opts,
            final(self).width == old(self).width,
            final(self).reset_color == old(self).reset_color,
            final(self).out@ == old(self).out@ + sizing_intro(old(self).opts, width),
    {
        let opts = self.opts;
        self.out.push_str("\x1b]66;");
        let ghost before = self.out@;
        let mut needs_colon = false;
        let ghost mut done: Seq<Seq<char>> = Seq::empty();
        proof {
            assert(self.out@ =~= with_flags(before, done));
        }
        if opts.scale != 1 {
            push_flag(
                &mut self.out,
                &mut needs_colon,
                "s",
                opts.scale as u64,
                Ghost(before),
                Ghost(done),
            );
            proof {
                done = done.push(flag_text("s"@, opts.scale as nat));
            }
        }
        if let Some(width) = width {
            push_flag(
                &mut self.out,
                &mut needs_colon,
                "w",
                width as u64,
                Ghost(before),
                Ghost(done),
            );
            proof {
                done = done.push(flag_text("w"@, width as nat));
            }
        }
        if let Some(sub) = opts.subscale {
            push_subscale(&mut self.out, &mut needs_colon, sub, Ghost(before), Ghost(done));
            proof {
                done = done + subscale_flags(sub);
            }
        }
        proof {
            assert(done =~= flags_of(opts, width));
        }
        self.out.push_str(";");
        proof {
            assert(self.out@ =~= old(self).out@ + sizing_intro(opts, width));
        }
    }

    /// Writes a piece of text, without counting its columns.
    pub fn write_direct(&mut self, text: &str, cell_width: Option<usize>)
        ensures
            wrote(*old(self), Written::Direct(text@, cell_width), *final(self)),
    {
        self.open_sizing_context(cell_width);
        push_without_controls(&mut self.out, text);
        self.out.push_str("\x07");
        proof {
            assert(self.out@ =~= old(self).out@ + sized(old(self).opts, text@, cell_width));
        }
    }

    /// Writes a piece of text that takes `width` columns.
    pub fn write_cell(&mut self, content: &str, width: usize)
        ensures
            wrote(*old(self), Written::Cell(content@, width), *final(self)),
    {
        self.add_width(width);
        self.write_direct(content, Some(width));
    }

    /// The line as an element.
    pub fn render(self) -> (r: Elem)
        ensures
            r@ == min_size_view(
                ElemView::RawPrint { text: finished(self).0 },
                finished(self).2,
            ),
    {
        let (text, _, size) = self.finish();
        Elem::raw_print(&text).with_min_size(size)
    }
}

/// A piece of a line: a text and the number of columns it takes.
#[derive(Debug)]
pub struct Cell {
    pub text: String,
    pub width: usize,
}

/// The texts and columns of pieces of a line.
pub open spec fn cell_views(cells: Seq<Cell>) -> Seq<(Seq<char>, usize)> {
    Seq::new(cells.len(), |i: int| (cells[i].text@, cells[i].width))
}

/// The pieces of a line of text.
pub open spec fn cells_of(line: Seq<char>) -> Seq<(Seq<char>, usize)> {
    Seq::new(
        clusters_of(line).len(),
        |i: int| (clusters_of(line)[i], width_of(clusters_of(line)[i])),
    )
}

/// One piece of a line. A piece that takes no column is written without a width.
pub open spec fn cell_text(opts: TextOpts, cell: (Seq<char>, usize)) -> Seq<char> {
    sized(
        opts,
        cell.0,
        if cell.1 > 0 {
            Some(cell.1)
        } else {
            None
        },
    )
}

/// All pieces of a line.
pub open spec fn cells_text(opts: TextOpts, cells: Seq<(Seq<char>, usize)>) -> Seq<char>
    decreases cells.len(),
{
    if cells.len() == 0 {
        Seq::empty()
    } else {
        cells_text(opts, cells.drop_last()) + cell_text(opts, cells.last())
    }
}

/// The columns of all pieces of a line, at most the greatest `u16`.
pub open spec fn cells_width(cells: Seq<(Seq<char>, usize)>) -> u16
    decreases cells.len(),
{
    if cells.len() == 0 {
        0
    } else {
        width_sum(cells_width(cells.drop_last()), cells.last().1)
    }
}

/// The description of a line, given the text that sets its colors.
pub open spec fn line_view(
    opts: TextOpts,
    intro: Seq<char>,
    cells: Seq<(Seq<char>, usize)>,
) -> ElemView {
    min_size_view(
        ElemView::RawPrint { text: intro + cells_text(opts, cells) + outro(opts) },
        Size { width: cells_width(cells), height: opts.scale },
    )
}

/// Whether an element is a line of text with these options.
pub open spec fn is_line(elem: ElemView, opts: TextOpts, line: Seq<char>) -> bool {
    exists|intro: Seq<char>| #[trigger]
        is_intro(intro, opts) && elem == line_view(opts, intro, cells_of(line))
}

/// The line that the formatter holds with all pieces added.
fn render_cells(formatter: LineFormatter, cells: &Vec<Cell>, Ghost(intro): Ghost<Seq<char>>) -> (r: Elem)
    requires
        formatter.out@ == intro,
        formatter.width == 0,
        formatter.reset_color == has_color(formatter.opts),
    ensures
        r@ == line_view(formatter.opts, intro, cell_views(cells@)),
{
    let mut f = formatter;
    let ghost opts = formatter.opts;
    let ghost views = cell_views(cells@);
    let mut i: usize = 0;
    proof {
        assert(views.take(0) =~= Seq::empty());
        assert(f.out@ =~= intro + cells_text(opts, views.take(0)));
    }
    while i < cells.len()
        invariant
            0 <= i <= cells@.len(),
            views == cell_views(cells@),
            f.opts == opts,
            f.reset_color == has_color(opts),
            f.width == cells_width(views.take(i as int)),
            f.out@ == intro + cells_text(opts, views.take(i as int)),
        decreases cells@.len() - i,
    {
        proof {
            assert(views.take(i + 1).drop_last() =~= views.take(i as int));
            assert(views.take(i + 1).last() == views[i as int]);
        }
        let cell = &cells[i];
        if cell.width > 0 {
            f.write_cell(&cell.text, cell.width);
        } else {
            f.write_direct(&cell.text, None);
        }
        proof {
            assert(f.out@ =~= intro + cells_text(opts, views.take(i + 1)));
        }
        i += 1;
    }
    proof {
        assert(views.take(i as int) =~= views);
    }
    f.render()
}

/// A line made of given pieces, behind a text that sets its colors.
pub fn render_pieces(opts: TextOpts, intro: String, cells: &Vec<Cell>) -> (r: Elem)
    ensures
        r@ == line_view(opts, intro@, cell_views(cells@)),
{
    let reset_color = opts.bg_color.to_crossterm().is_some() || opts.fg_color.to_crossterm().is_some()
        || opts.underline_color.to_crossterm().is_some();
    let ghost text = intro@;
    render_cells(LineFormatter { opts, out: intro, width: 0, reset_color }, cells, Ghost(text))
}

/// The pieces of a line: its grapheme clusters with their columns.
fn split_cells(line: &str) -> (r: Vec<Cell>)
    ensures
        cell_views(r@) == cells_of(line@),
        concat(clusters_of(line@)) == line@,
{
    let clusters = graphemes(line);
    let mut cells: Vec<Cell> = Vec::new();
    let mut i: usize = 0;
    while i < clusters.len()
        invariant
            0 <= i <= clusters@.len(),
            texts(clusters@) == clusters_of(line@),
            cell_views(cells@) == cells_of(line@).take(i as int),
        decreases clusters@.len() - i,
    {
        let ghost had = cell_views(cells@);
        proof {
            assert(texts(clusters@)[i as int] == clusters@[i as int]@);
        }
        let columns: usize = width(&clusters[i]);
        cells.push(Cell { text: clusters[i].clone(), width: columns });
        proof {
            assert(cell_views(cells@) =~= had.push((clusters@[i as int]@, columns)));
            assert(cells_of(line@).take(i + 1) =~= cells_of(line@).take(i as int).push(
                cells_of(line@)[i as int],
            ));
        }
        i += 1;
    }
    proof {
        assert(texts(clusters@).len() == clusters@.len());
        assert(cells_of(line@).take(i as int) =~= cells_of(line@));
    }
    cells
}

impl TextOpts {
    /// The lines of a text, one below the other.
    pub fn render(&self, lines: &str) -> (r: Elem)
        ensures
            is_text(r@, *self, crate::strs::lines(lines@)),
    {
        let parts = lines_of(lines);
        self.render_lines(&parts)
    }

    /// One line of text. Its pieces are all of the text.
    pub fn render_line(&self, line: &str) -> (r: Elem)
        ensures
            is_line(r@, *self, line@),
            concat(clusters_of(line@)) == line@,
    {
        let f = LineFormatter::enter_new(String::new(), *self);
        let ghost text = f.out@;
        proof {
            let intro = choose|intro: Seq<char>| #[trigger]
                entered(f, Seq::<char>::empty(), *self, intro);
            assert(Seq::<char>::empty() + intro =~= intro);
            assert(is_intro(text, *self));
        }
        let cells = split_cells(line);
        render_cells(f, &cells, Ghost(text))
    }

    /// Lines of text, one below the other.
    pub fn render_lines(&self, lines: &Vec<String>) -> (r: Elem)
        ensures
            is_text(r@, *self, texts(lines@)),
    {
        let mut items: Vec<StackItem> = Vec::new();
        let mut i: usize = 0;
        while i < lines.len()
            invariant
                0 <= i <= lines@.len(),
                item_views(items@).len() == i,
                forall|j: int|
                    0 <= j < i ==> (#[trigger] item_views(items@)[j]).opts == auto_view(
                        ElemView::Empty,
                    ).opts && is_line(item_views(items@)[j].elem, *self, lines@[j]@),
            decreases lines@.len() - i,
        {
            let elem = self.render_line(&lines[i]);
            push_item(&mut items, StackItem::auto(elem));
            i += 1;
        }
        Elem::stack(Axis::Y, items)
    }

    /// A text that takes `width` columns, whatever it holds.
    pub fn render_cell(&self, content: &str, width: usize) -> (r: Elem)
        ensures
            exists|intro: Seq<char>| #[trigger]
                is_intro(intro, *self) && r@ == min_size_view(
                    ElemView::RawPrint {
                        text: intro + sized(*self, content@, Some(width)) + outro(*self),
                    },
                    Size { width: width_sum(0, width), height: self.scale },
                ),
    {
        let mut f = LineFormatter::enter_new(String::new(), *self);
        let ghost text = f.out@;
        proof {
            let intro = choose|intro: Seq<char>| #[trigger]
                entered(f, Seq::<char>::empty(), *self, intro);
            assert(Seq::<char>::empty() + intro =~= intro);
            assert(is_intro(text, *self));
        }
        f.write_cell(content, width);
        f.render()
    }
}

/// Whether an element is a stack of lines of text with these options.
pub open spec fn is_text(elem: ElemView, opts: TextOpts, lines: Seq<Seq<char>>) -> bool {
    elem matches ElemView::Stack { axis, items } && {
        &&& axis == Axis::Y
        &&& items.len() == lines.len()
        &&& forall|j: int|
            0 <= j < items.len() ==> (#[trigger] items[j]).opts == auto_view(ElemView::Empty).opts
                && is_line(items[j].elem, opts, lines[j])
    }
}

/// A text in two looks: the usual one, and the one while the mouse is over it.
pub fn render_with_hover<F: FnMut(&TextOpts) -> Elem>(
    normal: &TextOpts,
    tag: CustomId,
    hovered: &TextOpts,
    mut render: F,
) -> (r: Elem)
    requires
        render.requires((normal,)),
        render.requires((hovered,)),
    ensures
        exists|usual: Elem, under: Elem|
            {
                &&& #[trigger] render.ensures((normal,), usual)
                &&& #[trigger] render.ensures((hovered,), under)
                &&& r@ == (ElemView::Interactive {
                    inner: Box::new(usual@),
                    tag: tag@,
                    hovered: Some(Box::new(under@)),
                })
            },
{
    let usual = render(normal);
    let under = render(hovered);
    usual.interactive_hover(tag, under)
}

/// Whatever a piece of text holds, nothing in it between the sequence that
/// opens it and the character that ends it is a control character.
pub proof fn law_content_cannot_escape(opts: TextOpts, text: Seq<char>, width: Option<usize>, i: int)
    requires
        sizing_intro(opts, width).len() <= i < sized(opts, text, width).len() - 1,
    ensures
        !is_control(sized(opts, text, width)[i]),
{
    reveal_strlit("\x07");
    let at = i - sizing_intro(opts, width).len();
    crate::strs::law_no_controls_left(text, at);
    assert(sized(opts, text, width)[i] == without_controls(text)[at]);
}

/// What is written of the pieces of a text is what is written of the text as a
/// whole: nothing but control characters is lost between them.
pub proof fn law_pieces_keep_the_text(parts: Seq<Seq<char>>)
    ensures
        concat(parts.map_values(|part: Seq<char>| without_controls(part))) == without_controls(
            concat(parts),
        ),
    decreases parts.len(),
{
    reveal(Seq::filter);
    let written = |part: Seq<char>| without_controls(part);
    if parts.len() > 0 {
        let front = parts.drop_last();
        law_pieces_keep_the_text(front);
        assert(parts.map_values(written).drop_last() =~= front.map_values(written));
        Seq::filter_distributes_over_add(
            concat(front),
            parts.last(),
            |c: char| !is_control(c),
        );
    }
}

/// The columns of a line are the sum of the columns of its pieces, as long as
/// they can be counted.
pub proof fn law_width_is_sum(cells: Seq<(Seq<char>, usize)>)
    ensures
        cells_width(cells) == (if column_sum(cells) > u16::MAX {
            u16::MAX as int
        } else {
            column_sum(cells)
        }),
        column_sum(cells) >= 0,
    decreases cells.len(),
{
    if cells.len() > 0 {
        law_width_is_sum(cells.drop_last());
    }
}

/// The sum of the columns of the pieces of a line.
pub open spec fn column_sum(cells: Seq<(Seq<char>, usize)>) -> int
    decreases cells.len(),
{
    if cells.len() == 0 {
        0
    } else {
        column_sum(cells.drop_last()) + cells.last().1
    }
}

/// Text as the terminal draws it by itself has no color, no attribute, its usual
/// size and no fraction of it.
pub proof fn law_usual_text_is_plain(flag: u8)
    ensures
        TextOpts::usual().fg_color == Color::Unset,
        TextOpts::usual().bg_color == Color::Unset,
        TextOpts::usual().underline_color == Color::Unset,
        !TextOpts::usual().attrs.has(flag),
        TextOpts::usual().scale == 1,
        TextOpts::usual().subscale is None,
        Subscale::whole().numerator == 1 && Subscale::whole().denominator == 1,
        Subscale::whole().vertical == VerticalAlign::Top,
        Subscale::whole().horizontal == HorizontalAlign::Left,
        flags_of(TextOpts::usual(), None).len() == 0,
        !has_color(TextOpts::usual()),
{
    assert(0u8 & flag == 0) by (bit_vector);
}

/// The settings of a piece of text: its scale unless that is one, its columns where
/// they are given, and its fraction with the two alignments, each unless it is the
/// one that the terminal assumes. They come in this order, each by its letter.
pub proof fn law_settings_of_a_piece(opts: TextOpts, width: Option<usize>)
    ensures
        ({
            let flags = flags_of(opts, width);
            let s = if opts.scale == 1 {
                0int
            } else {
                1
            };
            let w = if width is None {
                s
            } else {
                s + 1
            };
            &&& opts.scale != 1 ==> flags[0] == "s"@ + "="@ + dec(opts.scale as nat)
            &&& width matches Some(width) ==> flags[s] == "w"@ + "="@ + dec(width as nat)
            &&& opts.subscale is None ==> flags.len() == w
            &&& opts.subscale matches Some(sub) ==> {
                let v = if sub.vertical == VerticalAlign::Top {
                    w + 2
                } else {
                    w + 3
                };
                let h = if sub.horizontal == HorizontalAlign::Left {
                    v
                } else {
                    v + 1
                };
                &&& flags.len() == h
                &&& flags[w] == "n"@ + "="@ + dec(sub.numerator as nat)
                &&& flags[w + 1] == "d"@ + "="@ + dec(sub.denominator as nat)
                &&& sub.vertical == VerticalAlign::Bottom ==> flags[w + 2] == "v"@ + "="@ + dec(1)
                &&& sub.vertical == VerticalAlign::Center ==> flags[w + 2] == "v"@ + "="@ + dec(2)
                &&& sub.horizontal == HorizontalAlign::Right ==> flags[v] == "h"@ + "="@ + dec(1)
                &&& sub.horizontal == HorizontalAlign::Center ==> flags[v] == "h"@ + "="@ + dec(2)
            }
        }),
{
}

/// A piece of text without control characters stands as it is between what opens
/// it, which ends with a semicolon, and the one character that ends it.
pub proof fn law_piece_holds_its_text(opts: TextOpts, text: Seq<char>, width: Option<usize>)
    requires
        forall|i: int| 0 <= i < text.len() ==> !is_control(#[trigger] text[i]),
    ensures
        sized(opts, text, width) == sizing_intro(opts, width) + text + seq!['\x07'],
        sizing_intro(opts, width).len() > 0 && sizing_intro(opts, width).last() == ';',
        sizing_intro(opts, width).take(5) == seq!['\x1b', ']', '6', '6', ';'],
{
    crate::strs::law_plain_text_is_kept(text);
    reveal_strlit("\x07");
    reveal_strlit(";");
    reveal_strlit("\x1b]66;");
    assert("\x07"@ =~= seq!['\x07']);
    assert(sizing_intro(opts, width).take(5) =~= seq!['\x1b', ']', '6', '6', ';']);
}

/// Each color is set for its own layer: what sets the colors of a text with one
/// color sets that color for that layer and nothing else.
pub proof fn law_colors_are_set_for_their_layers(text: Seq<char>, opts: TextOpts)
    requires
        is_intro(text, opts),
    ensures
        opts.bg_color == Color::Unset && opts.underline_color == Color::Unset ==> (
        opts.fg_color.term() matches Some(color) ==> sets_color(text, Layer::Letters, color)),
        opts.fg_color == Color::Unset && opts.underline_color == Color::Unset ==> (
        opts.bg_color.term() matches Some(color) ==> sets_color(text, Layer::Ground, color)),
        opts.fg_color == Color::Unset && opts.bg_color == Color::Unset ==> (
        opts.underline_color.term() matches Some(color) ==> sets_color(text, Layer::Line, color)),
        opts.fg_color == Color::Unset && opts.bg_color == Color::Unset && opts.underline_color
            == Color::Unset ==> text.len() == 0,
{
    let (bg, fg, ul) = choose|bg: Seq<char>, fg: Seq<char>, ul: Seq<char>|
        {
            &&& #[trigger] is_layer(bg, Layer::Ground, opts.bg_color)
            &&& #[trigger] is_layer(fg, Layer::Letters, opts.fg_color)
            &&& #[trigger] is_layer(ul, Layer::Line, opts.underline_color)
            &&& text == bg + fg + ul
        };
    let none = Seq::<char>::empty();
    assert(none + fg + none =~= fg);
    assert(bg + none + none =~= bg);
    assert(none + none + ul =~= ul);
}

/// The colors of a text are reset behind it exactly where it has any.
pub proof fn law_colors_are_reset(opts: TextOpts)
    ensures
        (opts.fg_color != Color::Unset || opts.bg_color != Color::Unset || opts.underline_color
            != Color::Unset) ==> outro(opts) == "\x1b[0m"@,
        opts.fg_color == Color::Unset && opts.bg_color == Color::Unset && opts.underline_color
            == Color::Unset ==> outro(opts).len() == 0,
{
}

/// The pieces of a line are written in their order, each with its columns, and
/// without any where it takes none.
pub proof fn law_pieces_are_written_in_order(
    opts: TextOpts,
    cells: Seq<(Seq<char>, usize)>,
    text: Seq<char>,
    width: usize,
)
    ensures
        cells_text(opts, Seq::empty()).len() == 0,
        width > 0 ==> cells_text(opts, cells.push((text, width))) == cells_text(opts, cells)
            + sized(opts, text, Some(width)),
        cells_text(opts, cells.push((text, 0))) == cells_text(opts, cells) + sized(
            opts,
            text,
            None,
        ),
{
    assert(cells.push((text, width)).drop_last() =~= cells);
    assert(cells.push((text, 0)).drop_last() =~= cells);
}

/// A line is what sets its colors, its pieces and what resets its colors. It takes
/// the columns of its pieces and as many lines as its scale.
pub proof fn law_line_is_as_large_as_its_text(
    opts: TextOpts,
    intro: Seq<char>,
    cells: Seq<(Seq<char>, usize)>,
)
    ensures
        line_view(opts, intro, cells) matches ElemView::MinSize { inner, size } && {
            &&& *inner == (ElemView::RawPrint {
                text: intro + cells_text(opts, cells) + outro(opts),
            })
            &&& size.width == cells_width(cells)
            &&& size.height == opts.scale
        },
{
}

/// The pieces of a line are its clusters, each with the columns that it takes.
pub proof fn law_pieces_are_clusters(line: Seq<char>, i: int)
    requires
        0 <= i < clusters_of(line).len(),
    ensures
        cells_of(line).len() == clusters_of(line).len(),
        cells_of(line)[i].0 == clusters_of(line)[i],
        cells_of(line)[i].1 == width_of(clusters_of(line)[i]),
{
}

/// What is written counts as it is said to: columns alone, a piece without columns,
/// or a piece with the columns it is given.
pub proof fn law_writing_adds_text_and_columns(
    opts: TextOpts,
    text: Seq<char>,
    columns: Option<usize>,
    width: usize,
)
    ensures
        Written::Width(width).text(opts).len() == 0,
        Written::Width(width).columns() == width,
        Written::Direct(text, columns).text(opts) == sized(opts, text, columns),
        Written::Direct(text, columns).columns() == 0,
        Written::Cell(text, width).text(opts) == sized(opts, text, Some(width)),
        Written::Cell(text, width).columns() == width,
{
}

/// The parts of a text are joined from the first to the last.
pub proof fn law_parts_are_joined_in_order(parts: Seq<Seq<char>>, part: Seq<char>)
    ensures
        concat(Seq::empty()).len() == 0,
        concat(parts.push(part)) == concat(parts) + part,
{
    assert(parts.push(part).drop_last() =~= parts);
}

/// Lines of text stand one below the other, each drawn with the same options.
pub proof fn law_lines_stand_below_each_other(
    elem: ElemView,
    opts: TextOpts,
    lines: Seq<Seq<char>>,
    i: int,
)
    requires
        is_text(elem, opts, lines),
        0 <= i < lines.len(),
    ensures
        elem matches ElemView::Stack { axis, items } && {
            &&& axis == Axis::Y
            &&& items.len() == lines.len()
            &&& exists|intro: Seq<char>| #[trigger]
                is_intro(intro, opts) && items[i] == auto_view(
                    line_view(opts, intro, cells_of(lines[i])),
                )
        },
{
    let items = elem->Stack_items;
    assert(is_line(items[i].elem, opts, lines[i]));
    let intro = choose|intro: Seq<char>| #[trigger]
        is_intro(intro, opts) && items[i].elem == line_view(opts, intro, cells_of(lines[i]));
    assert(is_intro(intro, opts) && items[i] == auto_view(
        line_view(opts, intro, cells_of(lines[i])),
    ));
}

} // verus!
