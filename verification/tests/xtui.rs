use scratchbar::tui::{Axis, CustomId, Elem, MinAxis, Node, Size, StackItem};
use scratchbar::xtui::text::TermColor;
use scratchbar::xtui::{
    block, image_command_text, rgba_img_fill_axis, tui_center_symbol, Attribute, BlockBorders,
    BlockLines, BlockOpts, ContentStyle, StackBuilder,
};

fn show(elem: &Elem) -> String {
    format!("{elem:?}")
}

fn owned_lines() -> BlockLines<String> {
    BlockLines::normal().map(|part: &'static str| part.to_owned())
}

fn stack_len(elem: &Elem) -> usize {
    match &*elem.node {
        Node::Stack { items, .. } => items.len(),
        _ => panic!("not a stack"),
    }
}

#[test]
fn stack_builder_collects_items() {
    let mut stack = StackBuilder::new(Axis::X);
    assert!(stack.is_empty());
    stack.push(Elem::plain("a"));
    stack.spacing(3);
    stack.fill(2, Elem::empty());
    assert!(!stack.is_empty());
    let expected = Elem::stack(
        Axis::X,
        vec![
            StackItem::auto(Elem::plain("a")),
            StackItem::auto(Elem::spacing(Axis::X, 3)),
            StackItem::fill(2, Elem::empty()),
        ],
    );
    assert_eq!(show(&stack.clone().build()), show(&expected));
    stack.delete_last();
    assert_eq!(stack_len(&stack.build()), 2);
}

#[test]
fn delete_last_undoes_push() {
    let mut stack = StackBuilder::new(Axis::Y);
    stack.push(Elem::plain("kept"));
    let before = show(&stack.clone().build());
    stack.push(Elem::plain("gone"));
    stack.delete_last();
    assert_eq!(show(&stack.build()), before);
    let mut empty = StackBuilder::new(Axis::Y);
    empty.delete_last();
    assert!(empty.is_empty());
}

#[test]
fn images_are_sent_in_base64() {
    let elem = rgba_img_fill_axis(1, 1, &vec![255, 0, 16, 255], Axis::Y, 2);
    let expected = Elem::raw_print("\x1b_Ga=T,f=32,C=1,s=1,v=1,r=2;/wAQ/w==\x1b\\").with_min_axis(
        MinAxis { axis: Axis::Y, len: 2, aspect_width: 1, aspect_height: 1 },
    );
    assert_eq!(show(&elem), show(&expected));
    assert_eq!(
        image_command_text(3, 4, Axis::X, 5, "QUJD"),
        "\x1b_Ga=T,f=32,C=1,s=3,v=4,c=5;QUJD\x1b\\"
    );
}

#[test]
fn centered_symbol() {
    let expected = Elem::raw_print("\x1b]66;w=2:h=2:n=1:d=1;x\x07")
        .with_min_size(Size { width: 2, height: 1 });
    assert_eq!(show(&tui_center_symbol("x", 2)), show(&expected));
}

#[test]
fn block_with_all_borders() {
    let elem = block(
        owned_lines(),
        BlockOpts { borders: BlockBorders::all(), inner: Some(Elem::plain("in")) },
    );
    let corner = |c: &str| {
        StackItem::auto(Elem::raw_print(c).with_min_size(Size { width: 1, height: 1 }))
    };
    let side = || {
        StackItem::fill(
            1,
            Elem::fill_cells_single("│").with_min_size(Size { width: 1, height: 0 }),
        )
    };
    let line = || {
        StackItem::fill(
            1,
            Elem::fill_cells_single("─").with_min_size(Size { width: 0, height: 1 }),
        )
    };
    let expected = Elem::stack(
        Axis::X,
        vec![
            StackItem::auto(Elem::stack(Axis::Y, vec![corner("┌"), side(), corner("└")])),
            StackItem::fill(
                1,
                Elem::stack(Axis::Y, vec![line(), StackItem::auto(Elem::plain("in")), line()]),
            ),
            StackItem::auto(Elem::stack(Axis::Y, vec![corner("┐"), side(), corner("┘")])),
        ],
    );
    assert_eq!(show(&elem), show(&expected));
}

#[test]
fn block_without_borders_holds_its_content() {
    let elem = block(
        owned_lines(),
        BlockOpts { borders: BlockBorders::default(), inner: Some(Elem::plain("in")) },
    );
    let expected = Elem::stack(
        Axis::X,
        vec![
            StackItem::auto(Elem::stack(Axis::Y, vec![])),
            StackItem::fill(
                1,
                Elem::stack(Axis::Y, vec![StackItem::auto(Elem::plain("in"))]),
            ),
            StackItem::auto(Elem::stack(Axis::Y, vec![])),
        ],
    );
    assert_eq!(show(&elem), show(&expected));
}

#[test]
fn block_with_top_only_has_no_corners() {
    let borders = BlockBorders { top: true, bottom: false, left: false, right: false };
    let elem = block(owned_lines(), BlockOpts { borders, inner: None });
    match &*elem.node {
        Node::Stack { items, .. } => {
            assert_eq!(stack_len(&items[0].elem), 0);
            assert_eq!(stack_len(&items[1].elem), 1);
            assert_eq!(stack_len(&items[2].elem), 0);
        }
        _ => panic!("not a stack"),
    }
}

#[test]
fn line_sets() {
    let all = |l: BlockLines<&'static str>| {
        [l.vertical, l.horizontal, l.top_right, l.top_left, l.bottom_right, l.bottom_left].concat()
    };
    assert_eq!(all(BlockLines::normal()), "│─┐┌┘└");
    assert_eq!(all(BlockLines::rounded()), "│─╮╭╯╰");
    assert_eq!(all(BlockLines::double()), "║═╗╔╝╚");
    assert_eq!(all(BlockLines::thick()), "┃━┓┏┛┗");
    assert_eq!(all(BlockLines::light_double_dashed()), "╎╌┐┌┘└");
    assert_eq!(all(BlockLines::heavy_double_dashed()), "╏╍┓┏┛┗");
    assert_eq!(all(BlockLines::light_triple_dashed()), "┆┄┐┌┘└");
    assert_eq!(all(BlockLines::heavy_triple_dashed()), "┇┅┓┏┛┗");
    assert_eq!(all(BlockLines::light_quadruple_dashed()), "┊┈┐┌┘└");
    assert_eq!(all(BlockLines::heavy_quadruple_dashed()), "┋┉┓┏┛┗");
}

#[test]
fn mapping_reaches_every_line() {
    let doubled = owned_lines().map(|part: String| part.repeat(2));
    assert_eq!(doubled.vertical, "││");
    assert_eq!(doubled.bottom_left, "└└");
}

#[test]
fn tags_compare_by_bytes() {
    let a = CustomId::from_bytes(vec![1, 2]);
    assert!(a.same(&CustomId::from_bytes(vec![1, 2])));
    assert!(!a.same(&CustomId::from_bytes(vec![1, 3])));
    assert!(!a.same(&CustomId::from_bytes(vec![1])));
}

#[test]
fn image_data_is_plain_text() {
    for len in [0, 1, 2, 3, 4] {
        let pixels: Vec<u8> = (0..len).map(|i| 255 - i).collect();
        let shown = format!("{:?}", rgba_img_fill_axis(1, 1, &pixels, Axis::X, 1));
        let start = shown.find(",c=1;").unwrap() + 5;
        let data: String = shown[start..].chars().take_while(|it| *it != '\\').collect();
        assert_eq!(data.len(), 4 * ((pixels.len() + 2) / 3));
        assert!(data.chars().all(|it| it.is_ascii_alphanumeric() || "+/=".contains(it)));
    }
}

const ATTRIBUTES: [(Attribute, crossterm::style::Attribute); 28] = [
    (Attribute::Reset, crossterm::style::Attribute::Reset),
    (Attribute::Bold, crossterm::style::Attribute::Bold),
    (Attribute::Dim, crossterm::style::Attribute::Dim),
    (Attribute::Italic, crossterm::style::Attribute::Italic),
    (Attribute::Underlined, crossterm::style::Attribute::Underlined),
    (Attribute::DoubleUnderlined, crossterm::style::Attribute::DoubleUnderlined),
    (Attribute::Undercurled, crossterm::style::Attribute::Undercurled),
    (Attribute::Underdotted, crossterm::style::Attribute::Underdotted),
    (Attribute::Underdashed, crossterm::style::Attribute::Underdashed),
    (Attribute::SlowBlink, crossterm::style::Attribute::SlowBlink),
    (Attribute::RapidBlink, crossterm::style::Attribute::RapidBlink),
    (Attribute::Reverse, crossterm::style::Attribute::Reverse),
    (Attribute::Hidden, crossterm::style::Attribute::Hidden),
    (Attribute::CrossedOut, crossterm::style::Attribute::CrossedOut),
    (Attribute::Fraktur, crossterm::style::Attribute::Fraktur),
    (Attribute::NoBold, crossterm::style::Attribute::NoBold),
    (Attribute::NormalIntensity, crossterm::style::Attribute::NormalIntensity),
    (Attribute::NoItalic, crossterm::style::Attribute::NoItalic),
    (Attribute::NoUnderline, crossterm::style::Attribute::NoUnderline),
    (Attribute::NoBlink, crossterm::style::Attribute::NoBlink),
    (Attribute::NoReverse, crossterm::style::Attribute::NoReverse),
    (Attribute::NoHidden, crossterm::style::Attribute::NoHidden),
    (Attribute::NotCrossedOut, crossterm::style::Attribute::NotCrossedOut),
    (Attribute::Framed, crossterm::style::Attribute::Framed),
    (Attribute::Encircled, crossterm::style::Attribute::Encircled),
    (Attribute::OverLined, crossterm::style::Attribute::OverLined),
    (Attribute::NotFramedOrEncircled, crossterm::style::Attribute::NotFramedOrEncircled),
    (Attribute::NotOverLined, crossterm::style::Attribute::NotOverLined),
];

fn style() -> ContentStyle {
    ContentStyle {
        foreground_color: None,
        background_color: None,
        underline_color: None,
        attributes: vec![],
    }
}

#[test]
fn frames_have_attributes() {
    for (attribute, outside) in ATTRIBUTES {
        let lines = BlockLines::thick()
            .apply_crossterm(&ContentStyle { attributes: vec![attribute], ..style() });
        let mut expected = crossterm::style::ContentStyle::new();
        expected.attributes.set(outside);
        assert_eq!(lines.vertical, expected.apply("┃").to_string());
    }
    let two = ContentStyle { attributes: vec![Attribute::Italic, Attribute::Bold], ..style() };
    let lines = BlockLines::normal().apply_crossterm(&two);
    assert_eq!(lines.bottom_left, "\x1b[1m\x1b[3m└\x1b[0m");
}

#[test]
fn frames_have_colors() {
    for bits in 0..16 {
        let has = |bit: u8| bits & (1 << bit) != 0;
        let lines = BlockLines::double().apply_crossterm(&ContentStyle {
            foreground_color: has(0).then_some(TermColor::DarkYellow),
            background_color: has(1).then_some(TermColor::Blue),
            underline_color: has(2).then_some(TermColor::Rgb { r: 1, g: 2, b: 3 }),
            attributes: has(3).then_some(Attribute::Dim).into_iter().collect(),
        });
        let mut expected = crossterm::style::ContentStyle::new();
        expected.foreground_color = has(0).then_some(crossterm::style::Color::DarkYellow);
        expected.background_color = has(1).then_some(crossterm::style::Color::Blue);
        let line = crossterm::style::Color::Rgb { r: 1, g: 2, b: 3 };
        expected.underline_color = has(2).then_some(line);
        if has(3) {
            expected.attributes.set(crossterm::style::Attribute::Dim);
        }
        assert_eq!(lines.horizontal, expected.apply("═").to_string());
        assert_eq!(lines.top_left, expected.apply("╔").to_string());
        assert_eq!(lines.bottom_right, expected.apply("╝").to_string());
    }
}

#[test]
fn frames_of_own_texts_are_styled() {
    let red = ContentStyle { foreground_color: Some(TermColor::Red), ..style() };
    let lines = owned_lines().apply_crossterm(&red);
    let mut expected = crossterm::style::ContentStyle::new();
    expected.foreground_color = Some(crossterm::style::Color::Red);
    assert_eq!(lines.top_right, expected.apply("┐").to_string());
    let plain = BlockLines::normal().apply_crossterm(&style());
    assert_eq!((plain.horizontal.as_str(), plain.top_right.as_str()), ("─", "┐"));
}

#[test]
fn frames_are_mapped_part_by_part() {
    let mut seen = Vec::new();
    let lines = BlockLines::normal().map(|part| {
        seen.push(part);
        format!("<{part}>")
    });
    assert_eq!(seen, vec!["│", "─", "┐", "┌", "┘", "└"]);
    assert_eq!(lines.top_left, "<┌>");
    let same = BlockLines::normal().map(|part| part);
    assert_eq!(format!("{same:?}"), format!("{:?}", BlockLines::normal()));
    let twice = BlockLines::normal().map(|part| part.len()).map(|len| len + 1);
    let once = BlockLines::normal().map(|part| part.len() + 1);
    assert_eq!(format!("{twice:?}"), format!("{once:?}"));
}

#[test]
fn frames_are_made_of_any_texts() {
    let opts = || BlockOpts { borders: BlockBorders::all(), inner: Some(Elem::plain("x")) };
    let of_literals = block(BlockLines::normal(), opts());
    assert_eq!(show(&of_literals), show(&block(owned_lines(), opts())));
}
