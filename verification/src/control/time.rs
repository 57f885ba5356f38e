//! The time in the bar and the calendar that belongs to it.
use vstd::prelude::*;
use crate::dates::{
    days_in, law_weekdays_follow, month_text, month_title, num_days_in_month, weekday, weekday_of,
    Date,
};
use crate::strs::{dec, dec_string, digit, law_filling_keeps_the_text, pad_left, padded_left};
use crate::tui::{
    auto_view, fill_view, stack_view, Axis, CustomId, Elem, ElemView, InteractKind, ItemView,
    MouseButton,
};
use crate::xtui::text::{
    cells_of, has_color, is_intro, is_layer, line_view, render_with_hover, Attrs, Color, Layer,
    TextOpts, BOLD, UNDERLINED,
};
use crate::xtui::StackBuilder;

verus! {

/// The parts of the calendar that react to the mouse.
#[derive(Debug)]
pub struct CalendarControls {
    pub reset_now: CustomId,
    pub next_month: CustomId,
    pub prev_month: CustomId,
}

/// Only a click with the left button moves the calendar.
pub fn moves_calendar(kind: InteractKind) -> (r: bool)
    ensures
        r == (kind == InteractKind::Click(MouseButton::Left)),
{
    kind == InteractKind::Click(MouseButton::Left)
}

/// Text without colors sets none.
proof fn lemma_no_color_no_intro(text: Seq<char>, opts: TextOpts)
    requires
        !has_color(opts),
        is_intro(text, opts),
    ensures
        text == Seq::<char>::empty(),
{
    let (bg, fg, ul) = choose|bg: Seq<char>, fg: Seq<char>, ul: Seq<char>|
        {
            &&& #[trigger] is_layer(bg, Layer::Ground, opts.bg_color)
            &&& #[trigger] is_layer(fg, Layer::Letters, opts.fg_color)
            &&& #[trigger] is_layer(ul, Layer::Line, opts.underline_color)
            &&& text == bg + fg + ul
        };
    assert(text =~= Seq::<char>::empty());
}

/// The description of a line of text without colors.
pub open spec fn colorless(opts: TextOpts, text: Seq<char>) -> ElemView {
    line_view(opts, Seq::empty(), cells_of(text))
}

/// A line of text without colors.
fn mk_colorless(opts: TextOpts, text: &str) -> (r: Elem)
    requires
        !has_color(opts),
    ensures
        r@ == colorless(opts, text@),
{
    let elem = opts.render_line(text);
    proof {
        let intro = choose|intro: Seq<char>| #[trigger]
            is_intro(intro, opts) && elem@ == line_view(opts, intro, cells_of(text@));
        lemma_no_color_no_intro(intro, opts);
    }
    elem
}

/// The options of a title.
pub open spec fn bold_opts() -> TextOpts {
    TextOpts { attrs: Attrs { flags: 0 }.put(BOLD, true), ..TextOpts::usual() }
}

/// The options of a part under the mouse.
pub open spec fn hovered_opts() -> TextOpts {
    TextOpts { attrs: Attrs { flags: 0 }.put(UNDERLINED, true), ..TextOpts::usual() }
}

/// The options of today.
pub open spec fn today_opts() -> TextOpts {
    TextOpts { fg_color: Color::Green, ..TextOpts::usual() }
}

/// The description of a part that is underlined while the mouse is over it.
pub open spec fn control_view(text: Seq<char>, tag: Seq<u8>) -> ElemView {
    ElemView::Interactive {
        inner: Box::new(colorless(TextOpts::usual(), text)),
        tag,
        hovered: Some(Box::new(colorless(hovered_opts(), text))),
    }
}

/// A part that is underlined while the mouse is over it.
fn mk_control(text: &str, tag: &CustomId) -> (r: Elem)
    ensures
        r@ == control_view(text@, tag@),
{
    let normal = TextOpts::default();
    let mut attrs = Attrs::default();
    attrs.set_underlined(true);
    let hovered = TextOpts { attrs, ..TextOpts::default() };
    let render = |opts: &TextOpts| -> (r: Elem)
        requires
            !has_color(*opts),
        ensures
            r@ == colorless(*opts, text@),
        { mk_colorless(*opts, text) };
    render_with_hover(&normal, tag.clone(), &hovered, render)
}

/// The title of the calendar: the month, with ways to the months around it
/// where it can be moved.
pub open spec fn title_view(
    year: int,
    month: int,
    controls: Option<&CalendarControls>,
) -> ElemView {
    match controls {
        Some(controls) => stack_view(
            Axis::X,
            seq![
                auto_view(control_view("<<"@, controls.prev_month@)),
                auto_view(ElemView::Spacing { axis: Axis::X, len: 1 }),
                auto_view(control_view(month_text(year, month), controls.reset_now@)),
                fill_view(1, ElemView::Empty),
                auto_view(ElemView::Spacing { axis: Axis::X, len: 1 }),
                auto_view(control_view(">>"@, controls.next_month@)),
            ],
        ),
        None => colorless(bold_opts(), month_text(year, month)),
    }
}

fn mk_title(year: i32, month: u32, controls: Option<&CalendarControls>) -> (r: Elem)
    requires
        (Date { year, month, day: 1 }).wf(),
    ensures
        r@ == title_view(year as int, month as int, controls),
{
    let text = month_title(year, month);
    match controls {
        Some(controls) => {
            let mut stack = StackBuilder::new(Axis::X);
            stack.push(mk_control("<<", &controls.prev_month));
            stack.spacing(1);
            stack.push(mk_control(&text, &controls.reset_now));
            stack.fill(1, Elem::empty());
            stack.spacing(1);
            stack.push(mk_control(">>", &controls.next_month));
            proof {
                assert(stack@ =~= title_view(year as int, month as int, Some(controls))->Stack_items);
            }
            stack.build()
        },
        None => {
            let mut attrs = Attrs::default();
            attrs.set_bold(true);
            let opts = TextOpts { attrs, ..TextOpts::default() };
            mk_colorless(opts, &text)
        },
    }
}

/// The short name of a weekday.
pub open spec fn weekday_name(day: int) -> Seq<char> {
    if day == 0 {
        "Mo"@
    } else if day == 1 {
        "Tu"@
    } else if day == 2 {
        "We"@
    } else if day == 3 {
        "Th"@
    } else if day == 4 {
        "Fr"@
    } else if day == 5 {
        "Sa"@
    } else {
        "Su"@
    }
}

/// The first names of weekdays, each with room behind it.
pub open spec fn header_parts(n: int) -> Seq<ItemView>
    decreases n,
{
    if n <= 0 {
        Seq::empty()
    } else {
        header_parts(n - 1).push(
            auto_view(colorless(TextOpts::usual(), weekday_name(n - 1))),
        ).push(auto_view(ElemView::Spacing { axis: Axis::X, len: 1 }))
    }
}

/// The names of the weekdays, with room between them.
pub open spec fn header_view() -> ElemView {
    stack_view(Axis::X, header_parts(7).drop_last())
}

fn short_name(day: usize) -> (r: &'static str)
    requires
        day < 7,
    ensures
        r@ == weekday_name(day as int),
{
    if day == 0 {
        "Mo"
    } else if day == 1 {
        "Tu"
    } else if day == 2 {
        "We"
    } else if day == 3 {
        "Th"
    } else if day == 4 {
        "Fr"
    } else if day == 5 {
        "Sa"
    } else {
        "Su"
    }
}

fn mk_header() -> (r: Elem)
    ensures
        r@ == header_view(),
{
    let mut stack = StackBuilder::new(Axis::X);
    let mut i: usize = 0;
    while i < 7
        invariant
            i <= 7,
            stack.axis == Axis::X,
            stack@ == header_parts(i as int),
        decreases 7 - i,
    {
        stack.push(mk_colorless(TextOpts::default(), short_name(i)));
        stack.spacing(1);
        i += 1;
    }
    proof {
        assert(header_parts(7).len() > 0);
    }
    stack.delete_last();
    stack.build()
}

/// A day of the month as text.
pub open spec fn day_text(day: int) -> Seq<char> {
    pad_left(dec(day as nat), 2, ' ')
}

/// What the calendar is for: the month, the day of it that is today, if it is
/// one, and the text that sets the color of today.
#[verifier::ext_equal]
pub struct Page {
    pub year: int,
    pub month: int,
    pub today: Option<int>,
    pub intro: Seq<char>,
}

/// The description of a day.
pub open spec fn day_view(page: Page, day: int) -> ElemView {
    if page.today == Some(day) {
        line_view(today_opts(), page.intro, cells_of(day_text(day)))
    } else {
        colorless(TextOpts::usual(), day_text(day))
    }
}

/// The weeks of a month up to a day: those that are complete, and the one that
/// is not.
pub open spec fn weeks(page: Page, day: int) -> (Seq<ItemView>, Seq<ItemView>)
    decreases day,
{
    if day <= 0 {
        (
            Seq::empty(),
            seq![
                auto_view(
                    ElemView::Spacing {
                        axis: Axis::X,
                        len: (3 * weekday_of(page.year, page.month, 1)) as u16,
                    },
                ),
            ],
        )
    } else {
        let (rows, week) = weeks(page, day - 1);
        let week = week.push(auto_view(day_view(page, day)));
        if weekday_of(page.year, page.month, day) == 6 {
            (rows.push(auto_view(stack_view(Axis::X, week))), Seq::empty())
        } else {
            (rows, week.push(auto_view(ElemView::Spacing { axis: Axis::X, len: 1 })))
        }
    }
}

/// All weeks of a month.
pub open spec fn all_weeks(page: Page) -> Seq<ItemView> {
    let (rows, week) = weeks(page, days_in(page.year, page.month));
    if week.len() > 0 {
        rows.push(auto_view(stack_view(Axis::X, week)))
    } else {
        rows
    }
}

/// The whole calendar.
pub open spec fn calendar_view(page: Page, controls: Option<&CalendarControls>) -> ElemView {
    stack_view(
        Axis::Y,
        seq![auto_view(title_view(page.year, page.month, controls)), auto_view(header_view())]
            + all_weeks(page),
    )
}

/// The day of a month that is today, if it is one of it.
pub open spec fn today_in(month: Date, today: Date) -> Option<int> {
    if today.year == month.year && today.month == month.month {
        Some(today.day as int)
    } else {
        None
    }
}

/// Whether an element is the calendar of a month.
pub open spec fn is_calendar(
    elem: ElemView,
    month: Date,
    today: Date,
    controls: Option<&CalendarControls>,
) -> bool {
    exists|intro: Seq<char>| #[trigger]
        is_intro(intro, today_opts()) && elem == calendar_view(
            Page {
                year: month.year as int,
                month: month.month as int,
                today: today_in(month, today),
                intro,
            },
            controls,
        )
}

/// The text of a day.
fn mk_day_text(day: u32) -> (r: String)
    ensures
        r@ == day_text(day as int),
{
    let number = dec_string(day as u64);
    padded_left(&number, 2)
}

/// The calendar of the month in which `month` lies.
pub fn mk_calendar(month: Date, today: Date, controls: Option<&CalendarControls>) -> (r: Option<
    Elem,
>)
    requires
        month.wf(),
        today.wf(),
    ensures
        r matches Some(elem) && is_calendar(elem@, month, today, controls),
{
    let year = month.year;
    let month_no = month.month;
    // The color of today may or may not be wanted, which shows in its text.
    let today_line = TextOpts { fg_color: Color::Green, ..TextOpts::default() }.render_line(
        &mk_day_text(today.day),
    );
    let ghost intro = choose|intro: Seq<char>| #[trigger]
        is_intro(intro, today_opts()) && today_line@ == line_view(
            today_opts(),
            intro,
            cells_of(day_text(today.day as int)),
        );
    let this_month = today.year == year && today.month == month_no;
    let ghost page = Page {
        year: year as int,
        month: month_no as int,
        today: today_in(month, today),
        intro,
    };
    let mut stack = StackBuilder::new(Axis::Y);
    stack.push(mk_title(year, month_no, controls));
    stack.push(mk_header());
    let ghost top = stack@;
    let offset: u32 = weekday(year, month_no, 1);
    let mut week = StackBuilder::new(Axis::X);
    week.spacing((3 * offset) as u16);
    let days: u32 = num_days_in_month(year, month_no) as u32;
    let mut day: u32 = 0;
    proof {
        assert(week@ =~= weeks(page, 0).1);
        assert(stack@ =~= top + weeks(page, 0).0);
    }
    while day < days
        invariant
            0 <= day <= days,
            days == days_in(year as int, month_no as int),
            (Date { year, month: month_no, day: 1 }).wf(),
            this_month == (today.year == year && today.month == month_no),
            page.year == year,
            page.month == month_no,
            page.today == (if this_month {
                Some(today.day as int)
            } else {
                None
            }),
            page.intro == intro,
            today_line@ == line_view(today_opts(), intro, cells_of(day_text(today.day as int))),
            stack.axis == Axis::Y,
            week.axis == Axis::X,
            stack@ == top + weeks(page, day as int).0,
            week@ == weeks(page, day as int).1,
        decreases days - day,
    {
        let ghost done = weeks(page, day as int);
        day += 1;
        let line = if this_month && day == today.day {
            today_line.clone()
        } else {
            mk_colorless(TextOpts::default(), &mk_day_text(day))
        };
        week.push(line);
        if weekday(year, month_no, day) == 6 {
            stack.push(week.build());
            week = StackBuilder::new(Axis::X);
        } else {
            week.spacing(1);
        }
        proof {
            assert(stack@ =~= top + weeks(page, day as int).0);
        }
    }
    if !week.is_empty() {
        stack.push(week.build());
    }
    proof {
        assert(top =~= seq![
            auto_view(title_view(page.year, page.month, controls)),
            auto_view(header_view()),
        ]);
        assert(stack@ =~= top + all_weeks(page));
    }
    Some(stack.build())
}

/// After `day` days of a month as many weeks are complete as there are Sundays
/// among them, which the weekday of the first day tells.
proof fn lemma_complete_weeks(page: Page, day: int)
    requires
        day >= 0,
    ensures
        weeks(page, day).0.len() == (weekday_of(page.year, page.month, 1) + day) / 7,
        weeks(page, day).1.len() == 0 <==> day > 0 && (weekday_of(page.year, page.month, 1) + day)
            % 7 == 0,
        day > 0 ==> weekday_of(page.year, page.month, day) == (weekday_of(page.year, page.month, 1)
            + day - 1) % 7,
    decreases day,
{
    let first = weekday_of(page.year, page.month, 1);
    assert(0 <= first < 7);
    if day > 0 {
        lemma_complete_weeks(page, day - 1);
        if day > 1 {
            law_weekdays_follow(page.year, page.month, day - 1);
            let before = first + day - 2;
            assert((before % 7 + 1) % 7 == (before + 1) % 7);
        }
        let n = first + day - 1;
        assert(n % 7 == 6 <==> (n + 1) % 7 == 0);
        assert((n + 1) / 7 == n / 7 + (if n % 7 == 6 {
            1int
        } else {
            0
        }));
    }
}

/// The calendar has a row for each week that the month touches: with the weekday
/// of its first day in front, its days fill whole weeks but for the last.
pub proof fn law_calendar_rows(page: Page)
    requires
        days_in(page.year, page.month) > 0,
    ensures
        all_weeks(page).len() == (weekday_of(page.year, page.month, 1) + days_in(
            page.year,
            page.month,
        ) + 6) / 7,
{
    let days = days_in(page.year, page.month);
    lemma_complete_weeks(page, days);
    let n = weekday_of(page.year, page.month, 1) + days;
    assert((n + 6) / 7 == n / 7 + (if n % 7 == 0 {
        0int
    } else {
        1
    }));
}

/// A part of the title shows its text and reacts under its tag; the mouse over it
/// underlines the text and changes nothing else.
pub proof fn law_control_shows_its_text(text: Seq<char>, tag: Seq<u8>)
    ensures
        control_view(text, tag) matches ElemView::Interactive { inner, tag: own, hovered } && {
            &&& own == tag
            &&& *inner == line_view(TextOpts::usual(), Seq::empty(), cells_of(text))
            &&& hovered matches Some(under) && *under == line_view(
                TextOpts { attrs: Attrs { flags: 0 }.put(UNDERLINED, true), ..TextOpts::usual() },
                Seq::empty(),
                cells_of(text),
            )
        },
{
}

/// The title names the month. Where the calendar can be moved, the way to the
/// month before stands at the left, the way to the month after at the right, and
/// the name of the month leads back to the present one.
pub proof fn law_title_leads_to_the_months_around(
    year: int,
    month: int,
    controls: CalendarControls,
)
    ensures
        title_view(year, month, None) == line_view(
            TextOpts { attrs: Attrs { flags: 0 }.put(BOLD, true), ..TextOpts::usual() },
            Seq::empty(),
            cells_of(month_text(year, month)),
        ),
        title_view(year, month, Some(&controls)) matches ElemView::Stack { axis, items } && {
            &&& axis == Axis::X
            &&& items.first() == auto_view(control_view("<<"@, controls.prev_month@))
            &&& items.last() == auto_view(control_view(">>"@, controls.next_month@))
            &&& items[2] == auto_view(
                control_view(month_text(year, month), controls.reset_now@),
            )
            &&& items[1] == auto_view(ElemView::Spacing { axis: Axis::X, len: 1 })
            &&& items[3] == fill_view(1, ElemView::Empty)
            &&& items[4] == auto_view(ElemView::Spacing { axis: Axis::X, len: 1 })
            &&& items.len() == 6
        },
{
}

proof fn lemma_header_parts(n: int)
    requires
        0 <= n,
    ensures
        header_parts(n).len() == 2 * n,
        forall|k: int|
            0 <= k < n ==> #[trigger] header_parts(n)[2 * k] == auto_view(
                colorless(TextOpts::usual(), weekday_name(k)),
            ),
        forall|k: int|
            0 <= k < n ==> #[trigger] header_parts(n)[2 * k + 1] == auto_view(
                ElemView::Spacing { axis: Axis::X, len: 1 },
            ),
    decreases n,
{
    if n > 0 {
        lemma_header_parts(n - 1);
    }
}

/// The line above the weeks names the seven weekdays from Monday on, with a cell
/// of room between them and none behind the last.
pub proof fn law_header_names_the_weekdays()
    ensures
        header_view() matches ElemView::Stack { axis, items } && {
            &&& axis == Axis::X
            &&& items.len() == 13
            &&& forall|k: int|
                0 <= k < 7 ==> #[trigger] items[2 * k] == auto_view(
                    line_view(
                        TextOpts::usual(),
                        Seq::empty(),
                        cells_of(seq!["Mo"@, "Tu"@, "We"@, "Th"@, "Fr"@, "Sa"@, "Su"@][k]),
                    ),
                )
            &&& forall|k: int|
                0 <= k < 6 ==> #[trigger] items[2 * k + 1] == auto_view(
                    ElemView::Spacing { axis: Axis::X, len: 1 },
                )
        },
{
    lemma_header_parts(7);
    let items = header_view()->Stack_items;
    assert forall|k: int| 0 <= k < 7 implies #[trigger] items[2 * k] == auto_view(
        line_view(
            TextOpts::usual(),
            Seq::empty(),
            cells_of(seq!["Mo"@, "Tu"@, "We"@, "Th"@, "Fr"@, "Sa"@, "Su"@][k]),
        ),
    ) by {
        assert(header_parts(7)[2 * k] == items[2 * k]);
    }
    assert forall|k: int| 0 <= k < 6 implies #[trigger] items[2 * k + 1] == auto_view(
        ElemView::Spacing { axis: Axis::X, len: 1 },
    ) by {
        assert(header_parts(7)[2 * k + 1] == items[2 * k + 1]);
    }
}

/// A day is shown by its number, at the right of two cells. Today is green, every
/// other day is not.
pub proof fn law_day_is_shown_by_its_number(page: Page, day: int)
    requires
        1 <= day <= 31,
    ensures
        ({
            let text = day_text(day);
            &&& text.len() == 2
            &&& day < 10 ==> text[0] == ' ' && text[1] as int == '0' as int + day
            &&& day >= 10 ==> text[0] as int == '0' as int + day / 10 && text[1] as int
                == '0' as int + day % 10
            &&& page.today == Some(day) ==> day_view(page, day) == line_view(
                TextOpts { fg_color: Color::Green, ..TextOpts::usual() },
                page.intro,
                cells_of(text),
            )
            &&& page.today != Some(day) ==> day_view(page, day) == line_view(
                TextOpts::usual(),
                Seq::empty(),
                cells_of(text),
            )
        }),
{
    let n = day as nat;
    law_filling_keeps_the_text(dec(n), 2, ' ');
    if n >= 10 {
        assert(dec(n) == dec(n / 10).push(digit(n % 10)));
        assert(dec(n / 10) == seq![digit(n / 10)]);
    }
}

/// Today is looked for in its own month only.
pub proof fn law_today_is_in_its_month(month: Date, today: Date)
    ensures
        today_in(month, today) is Some <==> month.year == today.year && month.month == today.month,
        today_in(month, today) matches Some(day) ==> day == today.day,
{
}

/// The place of a day in its week: behind the room for the days before the first
/// one in the first week, and by its weekday in the others.
pub open spec fn place_in_week(first: int, day: int) -> int {
    if first + day - 1 < 7 {
        1 + 2 * (day - 1)
    } else {
        2 * ((first + day - 1) % 7)
    }
}

proof fn lemma_days_in_weeks(page: Page, n: int, day: int)
    requires
        0 <= n,
        1 <= day <= n || day == 0,
    ensures
        ({
            let first = weekday_of(page.year, page.month, 1);
            let (rows, week) = weeks(page, n);
            let row = (first + day - 1) / 7;
            &&& rows.len() == 0 ==> week.len() == 1 + 2 * n
            &&& rows.len() > 0 ==> week.len() == 2 * ((first + n) % 7)
            &&& day > 0 && row < rows.len() ==> (rows[row].elem matches ElemView::Stack {
                axis,
                items,
            } && axis == Axis::X && place_in_week(first, day) < items.len() && items[place_in_week(
                first,
                day,
            )] == auto_view(day_view(page, day)) && ((first + day - 1) % 7 < 6 && day < n
                ==> items[place_in_week(first, day) + 1] == auto_view(
                ElemView::Spacing { axis: Axis::X, len: 1 },
            )))
            &&& day > 0 && row >= rows.len() ==> row == rows.len() && place_in_week(first, day) + 1
                < week.len() && week[place_in_week(first, day)] == auto_view(day_view(page, day))
                && week[place_in_week(first, day) + 1] == auto_view(
                ElemView::Spacing { axis: Axis::X, len: 1 },
            )
            &&& rows.len() > 0 ==> (rows[0].elem matches ElemView::Stack { axis, items }
                && items.len() > 0 && items[0] == auto_view(
                ElemView::Spacing { axis: Axis::X, len: (3 * first) as u16 },
            ))
            &&& rows.len() == 0 ==> week[0] == auto_view(
                ElemView::Spacing { axis: Axis::X, len: (3 * first) as u16 },
            )
        }),
    decreases n,
{
    let first = weekday_of(page.year, page.month, 1);
    assert(0 <= first < 7);
    lemma_complete_weeks(page, n);
    if n > 0 {
        lemma_complete_weeks(page, n - 1);
        if day == n {
            lemma_days_in_weeks(page, n - 1, 0);
        } else {
            lemma_days_in_weeks(page, n - 1, day);
        }
        let k = first + n - 1;
        assert(weekday_of(page.year, page.month, n) == k % 7);
        assert(k % 7 != 6 ==> (k + 1) % 7 == k % 7 + 1 && (k + 1) / 7 == k / 7);
        assert(k % 7 == 6 ==> (k + 1) % 7 == 0 && (k + 1) / 7 == k / 7 + 1);
        assert(weeks(page, n - 1).0.len() == k / 7);
        if day > 0 && day < n {
            assert((first + day - 1) / 7 <= k / 7);
        }
    }
}

/// Every day of the month is in the calendar: in the week that its number and the
/// weekday of the first day give, and in the column of its own weekday, which is
/// three cells wide: two for the day, and one of room before the next. The first week
/// begins with room for the days before.
pub proof fn law_days_stand_under_their_weekdays(page: Page, day: int)
    requires
        1 <= day <= days_in(page.year, page.month),
    ensures
        ({
            let first = weekday_of(page.year, page.month, 1);
            let row = (first + day - 1) / 7;
            &&& 0 <= row < all_weeks(page).len()
            &&& all_weeks(page)[row].elem matches ElemView::Stack { axis, items } && {
                &&& axis == Axis::X
                &&& row == 0 ==> items[0] == auto_view(
                    ElemView::Spacing { axis: Axis::X, len: (3 * first) as u16 },
                ) && items[1 + 2 * (day - 1)] == auto_view(day_view(page, day))
                &&& row > 0 ==> items[2 * weekday_of(page.year, page.month, day)] == auto_view(
                    day_view(page, day),
                )
                &&& weekday_of(page.year, page.month, day) < 6 ==> {
                    let next = if row == 0 {
                        2 * day
                    } else {
                        2 * weekday_of(page.year, page.month, day) + 1
                    };
                    items[next] == auto_view(ElemView::Spacing { axis: Axis::X, len: 1 })
                }
            }
        }),
{
    let days = days_in(page.year, page.month);
    let first = weekday_of(page.year, page.month, 1);
    assert(0 <= first < 7);
    lemma_days_in_weeks(page, days, day);
    lemma_complete_weeks(page, days);
    lemma_complete_weeks(page, day);
    assert((first + day - 1) / 7 <= (first + days - 1) / 7);
    let (rows, week) = weeks(page, days);
}

/// A calendar is its title, the names of the weekdays, and its weeks, from top to
/// bottom.
pub proof fn law_calendar_holds_its_parts(page: Page, controls: Option<&CalendarControls>)
    ensures
        calendar_view(page, controls) matches ElemView::Stack { axis, items } && {
            &&& axis == Axis::Y
            &&& items.len() == all_weeks(page).len() + 2
            &&& items[0] == auto_view(title_view(page.year, page.month, controls))
            &&& items[1] == auto_view(header_view())
            &&& items.skip(2) == all_weeks(page)
        },
{
    assert(calendar_view(page, controls)->Stack_items.skip(2) =~= all_weeks(page));
}

/// A calendar of a month has the title and the weeks of that month. Today is green in
/// its own month and nowhere else.
pub proof fn law_calendar_is_of_its_month(
    elem: ElemView,
    month: Date,
    today: Date,
    controls: Option<&CalendarControls>,
)
    requires
        is_calendar(elem, month, today, controls),
    ensures
        elem matches ElemView::Stack { axis, items } && {
            &&& axis == Axis::Y
            &&& items[0] == auto_view(
                title_view(month.year as int, month.month as int, controls),
            )
            &&& items[1] == auto_view(header_view())
        },
        exists|page: Page|
            {
                &&& elem == #[trigger] calendar_view(page, controls)
                &&& page.year == month.year
                &&& page.month == month.month
                &&& (month.year == today.year && month.month == today.month) ==> page.today == Some(
                    today.day as int,
                )
                &&& !(month.year == today.year && month.month == today.month)
                    ==> page.today is None
                &&& is_intro(
                    page.intro,
                    TextOpts { fg_color: Color::Green, ..TextOpts::usual() },
                )
            },
{
    let intro = choose|intro: Seq<char>| #[trigger]
        is_intro(intro, today_opts()) && elem == calendar_view(
            Page {
                year: month.year as int,
                month: month.month as int,
                today: today_in(month, today),
                intro,
            },
            controls,
        );
    let page = Page {
        year: month.year as int,
        month: month.month as int,
        today: today_in(month, today),
        intro,
    };
    assert(elem == calendar_view(page, controls));
}

} // verus!
