use crossterm::style::SetForegroundColor;
use crossterm::Command;
use scratchbar::tui::{Axis, CustomId, Elem, Node, Size, StackItem};
use scratchbar::xtui::text::{
    graphemes, render_pieces, render_with_hover, width, Attrs, Cell, Color, HorizontalAlign,
    LineFormatter, Subscale, TermColor, TextOpts, VerticalAlign,
};

fn show(elem: &Elem) -> String {
    format!("{elem:?}")
}

fn raw_text(elem: &Elem) -> String {
    match &*elem.node {
        Node::MinSize { inner, .. } => raw_text(inner),
        Node::RawPrint { text } => text.clone(),
        _ => panic!("not a line"),
    }
}

#[test]
fn clusters_and_columns() {
    assert_eq!(graphemes("ae\u{301}🇩🇪"), vec!["a", "e\u{301}", "🇩🇪"]);
    assert_eq!(width("a"), 1);
    assert_eq!(width("漢"), 2);
    assert_eq!(width("\u{301}"), 0);
}

#[test]
fn plain_line_is_made_of_cells() {
    let expected = Elem::raw_print("\x1b]66;w=1;a\x07\x1b]66;w=2;漢\x07")
        .with_min_size(Size { width: 3, height: 1 });
    assert_eq!(show(&TextOpts::default().render_line("a漢")), show(&expected));
}

#[test]
fn text_without_columns_gets_no_width() {
    let elem = TextOpts::default().render_line("\u{301}");
    assert_eq!(raw_text(&elem), "\x1b]66;;\u{301}\x07");
}

#[test]
fn scale_and_fraction_become_settings() {
    let opts = TextOpts {
        scale: 2,
        subscale: Some(Subscale {
            numerator: 1,
            denominator: 3,
            vertical: VerticalAlign::Center,
            horizontal: HorizontalAlign::Right,
        }),
        ..TextOpts::default()
    };
    let expected = Elem::raw_print("\x1b]66;s=2:w=4:n=1:d=3:v=2:h=1;x\x07")
        .with_min_size(Size { width: 4, height: 2 });
    assert_eq!(show(&opts.render_cell("x", 4)), show(&expected));
    let bottom = TextOpts::from(VerticalAlign::Bottom);
    assert_eq!(raw_text(&bottom.render_cell("x", 1)), "\x1b]66;w=1:n=1:d=1:v=1;x\x07");
    let center = TextOpts::from(HorizontalAlign::Center);
    assert_eq!(raw_text(&center.render_cell("x", 2)), "\x1b]66;w=2:n=1:d=1:h=2;x\x07");
}

#[test]
fn content_cannot_escape() {
    let elem = TextOpts::default().render_cell("a\x07\x1b[31mb", 3);
    assert_eq!(raw_text(&elem), "\x1b]66;w=3;a[31mb\x07");
}

#[test]
fn colors_are_set_and_reset() {
    let opts = TextOpts {
        bg_color: Color::DarkRed,
        fg_color: Color::Rgb { r: 1, g: 20, b: 255 },
        underline_color: Color::AnsiValue(200),
        ..TextOpts::default()
    };
    let text = raw_text(&opts.render_cell("x", 1));
    let colored = "\x1b[48;5;1m\x1b[38;2;1;20;255m\x1b[58;5;200m\x1b]66;w=1;x\x07\x1b[0m";
    let plain = "\x1b[m\x1b[m\x1b[m\x1b]66;w=1;x\x07\x1b[0m";
    assert!(text == colored || text == plain, "{text:?}");
}

/// The sequence that sets the color of the letters.
fn foreground(color: Color) -> String {
    let opts = TextOpts { fg_color: color, ..TextOpts::default() };
    LineFormatter::enter_new(String::new(), opts).out
}

#[test]
fn colors_keep_their_names() {
    use_all_colors(|color, term, outside| {
        assert_eq!(color.to_crossterm(), Some(term));
        let mut expected = String::new();
        SetForegroundColor(outside).write_ansi(&mut expected).unwrap();
        assert_eq!(foreground(color), expected);
    });
    assert_eq!(Color::Unset.to_crossterm(), None);
    assert_eq!(foreground(Color::Unset), "");
    assert_eq!(Color::default(), Color::Unset);
}

#[test]
fn different_colors_stay_different() {
    let mut seen: Vec<TermColor> = Vec::new();
    use_all_colors(|_, term, _| {
        assert!(!seen.contains(&term));
        seen.push(term);
    });
    assert_eq!(seen.len(), 19);
    assert_ne!(Color::Black.to_crossterm(), Color::AnsiValue(0).to_crossterm());
}

fn use_all_colors(mut f: impl FnMut(Color, TermColor, crossterm::style::Color)) {
    use_named_colors(&mut f);
    f(
        Color::Rgb { r: 1, g: 2, b: 3 },
        TermColor::Rgb { r: 1, g: 2, b: 3 },
        crossterm::style::Color::Rgb { r: 1, g: 2, b: 3 },
    );
    f(
        Color::AnsiValue(0),
        TermColor::AnsiValue(0),
        crossterm::style::Color::AnsiValue(0),
    );
    f(
        Color::AnsiValue(77),
        TermColor::AnsiValue(77),
        crossterm::style::Color::AnsiValue(77),
    );
}

fn use_named_colors(f: &mut impl FnMut(Color, TermColor, crossterm::style::Color)) {
    f(Color::Black, TermColor::Black, crossterm::style::Color::Black);
    f(Color::DarkGrey, TermColor::DarkGrey, crossterm::style::Color::DarkGrey);
    f(Color::Red, TermColor::Red, crossterm::style::Color::Red);
    f(Color::DarkRed, TermColor::DarkRed, crossterm::style::Color::DarkRed);
    f(Color::Green, TermColor::Green, crossterm::style::Color::Green);
    f(Color::DarkGreen, TermColor::DarkGreen, crossterm::style::Color::DarkGreen);
    f(Color::Yellow, TermColor::Yellow, crossterm::style::Color::Yellow);
    f(Color::DarkYellow, TermColor::DarkYellow, crossterm::style::Color::DarkYellow);
    f(Color::Blue, TermColor::Blue, crossterm::style::Color::Blue);
    f(Color::DarkBlue, TermColor::DarkBlue, crossterm::style::Color::DarkBlue);
    f(Color::Magenta, TermColor::Magenta, crossterm::style::Color::Magenta);
    f(Color::DarkMagenta, TermColor::DarkMagenta, crossterm::style::Color::DarkMagenta);
    f(Color::Cyan, TermColor::Cyan, crossterm::style::Color::Cyan);
    f(Color::DarkCyan, TermColor::DarkCyan, crossterm::style::Color::DarkCyan);
    f(Color::White, TermColor::White, crossterm::style::Color::White);
    f(Color::Grey, TermColor::Grey, crossterm::style::Color::Grey);
}

#[test]
fn formatter_counts_columns() {
    let mut f = LineFormatter::enter_new(String::from(">"), TextOpts::default());
    f.write_cell("ab", 2);
    f.write_direct("c", None);
    f.add_width(3);
    let (text, opts, size) = f.finish();
    assert_eq!(opts, TextOpts::default());
    assert_eq!(text, ">\x1b]66;w=2;ab\x07\x1b]66;;c\x07");
    assert_eq!(size, Size { width: 5, height: 1 });
}

#[test]
fn columns_saturate() {
    let mut f = LineFormatter::enter_new(String::new(), TextOpts::default());
    f.add_width(65530);
    f.add_width(100);
    assert_eq!(f.width, u16::MAX);
    let mut g = LineFormatter::enter_new(String::new(), TextOpts::default());
    g.add_width(usize::MAX);
    assert_eq!(g.width, u16::MAX);
}

#[test]
fn width_of_a_line_is_the_sum_of_its_pieces() {
    let cells = vec![
        Cell { text: "a".to_owned(), width: 1 },
        Cell { text: "\u{301}".to_owned(), width: 0 },
        Cell { text: "漢".to_owned(), width: 2 },
    ];
    let elem = render_pieces(TextOpts::default(), "<".to_owned(), &cells);
    let expected = Elem::raw_print("<\x1b]66;w=1;a\x07\x1b]66;;\u{301}\x07\x1b]66;w=2;漢\x07")
        .with_min_size(Size { width: 3, height: 1 });
    assert_eq!(show(&elem), show(&expected));
}

#[test]
fn lines_are_stacked() {
    let opts = TextOpts::default();
    let expected = Elem::stack(
        Axis::Y,
        vec![
            StackItem::auto(opts.render_line("one")),
            StackItem::auto(opts.render_line("two")),
        ],
    );
    assert_eq!(show(&opts.render("one\r\ntwo\n")), show(&expected));
    let lines = vec!["one".to_owned(), "two".to_owned()];
    assert_eq!(show(&opts.render_lines(&lines)), show(&expected));
}

#[test]
fn hover_renders_twice() {
    let normal = TextOpts::default();
    let hovered = TextOpts { scale: 2, ..normal };
    let tag = CustomId::from_bytes(vec![9]);
    let elem = render_with_hover(&normal, tag.clone(), &hovered, |it: &TextOpts| {
        it.render_line("x")
    });
    let expected = normal.render_line("x").interactive_hover(tag, hovered.render_line("x"));
    assert_eq!(show(&elem), show(&expected));
}

#[test]
fn attributes_share_a_bit_but_for_bold() {
    let mut attrs = Attrs::default();
    attrs.set_bold(true);
    assert!(attrs.is_bold() && !attrs.is_dim());
    attrs.set_dim(true);
    assert!(attrs.is_bold() && attrs.is_dim() && attrs.is_italic());
    assert!(attrs.is_crossout() && attrs.is_underlined());
    attrs.set_dim(true);
    assert!(attrs.is_dim());
    attrs.set_underlined(false);
    assert!(attrs.is_bold() && !attrs.is_dim());
    assert_eq!(Attrs::bold(), Attrs::default().with_bold(true));
    assert_eq!(Attrs::dim(), Attrs::default().with_italic(true));
    assert_eq!(Attrs::crossout().with_crossout(false), Attrs::default());
    assert_eq!(Attrs::underlined(), Attrs::italic());
    assert!(Attrs::default().with_underlined(true).is_underlined());
    assert!(Attrs::default().with_dim(true).is_dim());
}

#[test]
fn options_from_parts() {
    let opts = TextOpts::from(Attrs::bold());
    assert!(opts.attrs.is_bold());
    assert_eq!(opts.scale, 1);
    let sub = Subscale { numerator: 2, ..Subscale::default() };
    assert_eq!(TextOpts::from(sub).subscale, Some(sub));
    let scaled = TextOpts::default().with(|it: &mut TextOpts| it.scale = 3);
    assert_eq!(scaled.scale, 3);
}

#[test]
fn clusters_are_all_of_the_text() {
    for text in ["", "abc", "a\u{310}e\u{301}", "\u{1f1f7}\u{1f1fa}x\r\ny", "日本\u{0}語"] {
        assert_eq!(graphemes(text).concat(), text);
    }
    assert_eq!(graphemes("e\u{301}x"), vec!["e\u{301}", "x"]);
}

#[test]
fn finished_line_is_all_that_was_written() {
    let opts = TextOpts { scale: 2, attrs: Attrs::bold(), ..TextOpts::default() };
    let mut f = LineFormatter::enter_new(String::from("before "), opts);
    f.add_width(65_000);
    f.write_direct("a", Some(3));
    f.write_cell("b", 500);
    f.write_cell("c", 100);
    let (text, after, size) = f.finish();
    assert_eq!(
        text,
        "before \x1b]66;s=2:w=3;a\x07\x1b]66;s=2:w=500;b\x07\x1b]66;s=2:w=100;c\x07"
    );
    assert_eq!(after, opts);
    assert_eq!(size, Size { width: u16::MAX, height: 2 });
    let colored = TextOpts { fg_color: Color::Red, ..opts };
    assert!(LineFormatter::enter_new(String::new(), colored).finish().0.ends_with("\x1b[0m"));
}
