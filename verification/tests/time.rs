use chrono::Datelike;
use scratchbar::clock::{ClockAct, Pace, TimeModule};
use scratchbar::control::time::{mk_calendar, moves_calendar, CalendarControls};
use scratchbar::dates::{mk_clock_text, step_month, Date, MonthStep, MAX_YEAR, MIN_YEAR};
use scratchbar::tui::{Axis, CustomId, Elem, InteractKind, MouseButton};
use scratchbar::xtui::text::{Attrs, Color, TextOpts};
use scratchbar::xtui::StackBuilder;

fn show<T: std::fmt::Debug>(value: &T) -> String {
    format!("{value:?}")
}

fn date(year: i32, month: u32, day: u32) -> Date {
    Date { year, month, day }
}

#[test]
fn clock_shows_date_and_time() {
    let naive = chrono::NaiveDate::from_ymd_opt(2024, 3, 7).unwrap().and_hms_opt(9, 5, 0).unwrap();
    let text = mk_clock_text(date(2024, 3, 7), 9, 5);
    assert_eq!(text, naive.format("%H:%M %d/%m").to_string());
    assert_eq!(text, "09:05 07/03");
}

#[test]
fn months_go_forth_and_back() {
    let today = date(2024, 5, 17);
    assert_eq!(step_month(date(2023, 12, 1), MonthStep::Next, today), date(2024, 1, 1));
    assert_eq!(step_month(date(2024, 1, 1), MonthStep::Prev, today), date(2023, 12, 1));
    assert_eq!(step_month(date(2024, 1, 31), MonthStep::Next, today), date(2024, 2, 29));
    assert_eq!(step_month(date(2020, 1, 1), MonthStep::Reset, today), date(2024, 5, 1));
    assert_eq!(step_month(date(MAX_YEAR, 12, 1), MonthStep::Next, today), date(MAX_YEAR, 12, 1));
    assert_eq!(step_month(date(MIN_YEAR, 1, 1), MonthStep::Prev, today), date(MIN_YEAR, 1, 1));
    let mut shown = date(1999, 11, 1);
    for _ in 0..30 {
        shown = step_month(shown, MonthStep::Next, today);
    }
    assert_eq!(shown, date(2002, 5, 1));
    for _ in 0..30 {
        shown = step_month(shown, MonthStep::Prev, today);
    }
    assert_eq!(shown, date(1999, 11, 1));
}

fn plain(text: &str) -> Elem {
    TextOpts::default().render_line(text)
}

fn green(text: &str) -> Elem {
    TextOpts { fg_color: Color::Green, ..TextOpts::default() }.render_line(text)
}

fn header() -> Elem {
    let mut stack = StackBuilder::new(Axis::X);
    for name in ["Mo", "Tu", "We", "Th", "Fr", "Sa", "Su"] {
        stack.push(plain(name));
        stack.spacing(1);
    }
    stack.delete_last();
    stack.build()
}

/// The calendar of a month with the given offset and number of days.
fn calendar(title: Elem, offset: u16, days: u32, today: Option<u32>) -> Elem {
    let mut rows = StackBuilder::new(Axis::Y);
    rows.push(title);
    rows.push(header());
    let mut week = StackBuilder::new(Axis::X);
    week.spacing(3 * offset);
    let mut weekday = offset;
    for day in 1..=days {
        let text = format!("{day:>2}");
        week.push(if today == Some(day) { green(&text) } else { plain(&text) });
        weekday += 1;
        if weekday == 7 {
            weekday = 0;
            rows.push(week.build());
            week = StackBuilder::new(Axis::X);
        } else {
            week.spacing(1);
        }
    }
    if weekday != 0 {
        rows.push(week.build());
    }
    rows.build()
}

fn bold(text: &str) -> Elem {
    let mut attrs = Attrs::default();
    attrs.set_bold(true);
    TextOpts { attrs, ..TextOpts::default() }.render_line(text)
}

#[test]
fn calendar_of_a_leap_month() {
    // The first of February 2024 was a Thursday.
    let elem = mk_calendar(date(2024, 2, 1), date(2024, 2, 10), None).unwrap();
    let expected = calendar(bold("February 2024"), 3, 29, Some(10));
    assert_eq!(show(&elem), show(&expected));
}

#[test]
fn calendar_of_a_month_of_whole_weeks() {
    // February 2021 began on a Monday.
    let elem = mk_calendar(date(2021, 2, 5), date(2021, 3, 5), None).unwrap();
    assert_eq!(show(&elem), show(&calendar(bold("February 2021"), 0, 28, None)));
}

#[test]
fn weekdays_run_through_months_and_years() {
    for year in [-1, 0, 1, 4, 1600, 1899, 1900, 1999, 2000, 2023, 2024, 10000] {
        for month in 1..=12u32 {
            let first = chrono::NaiveDate::from_ymd_opt(year, month, 1).unwrap();
            let next = first.checked_add_months(chrono::Months::new(1)).unwrap();
            let days = next.signed_duration_since(first).num_days() as u32;
            let offset = first.weekday().num_days_from_monday() as u16;
            let title = bold(&first.format("%B %Y").to_string());
            let elem = mk_calendar(date(year, month, 1), date(2025, 1, 1), None).unwrap();
            assert_eq!(show(&elem), show(&calendar(title, offset, days, None)));
        }
    }
}

#[test]
fn calendar_with_controls() {
    let id = |n: u8| CustomId::from_bytes(vec![n]);
    let controls =
        CalendarControls { reset_now: id(1), next_month: id(2), prev_month: id(3) };
    let elem = mk_calendar(date(2024, 12, 1), date(2023, 12, 1), Some(&controls)).unwrap();
    let control = |text: &str, n: u8| {
        let mut attrs = Attrs::default();
        attrs.set_underlined(true);
        let hovered = TextOpts { attrs, ..TextOpts::default() }.render_line(text);
        plain(text).interactive_hover(id(n), hovered)
    };
    let mut title = StackBuilder::new(Axis::X);
    title.push(control("<<", 3));
    title.spacing(1);
    title.push(control("December 2024", 1));
    title.fill(1, Elem::empty());
    title.spacing(1);
    title.push(control(">>", 2));
    assert_eq!(show(&elem), show(&calendar(title.build(), 6, 31, None)));
    assert!(moves_calendar(InteractKind::Click(MouseButton::Left)));
    assert!(!moves_calendar(InteractKind::Hover));
}

#[test]
fn clock_sleeps_until_the_next_minute() {
    assert_eq!(Pace::calm().timeout_ms(0), 45_000);
    assert_eq!(Pace::calm().timeout_ms(59), 750);
    assert_eq!(Pace::calm().timeout_ms(60), 100);
    assert_eq!(Pace::eager().timeout_ms(0), 30_000);
    assert_eq!(Pace::eager().timeout_ms(60), 250);
    let mut module = TimeModule::new();
    assert!(matches!(module.look(5, 30, Pace::calm()), ClockAct::Show));
    assert!(matches!(module.look(5, 30, Pace::calm()), ClockAct::Sleep(22_500)));
    assert!(matches!(module.look(6, 0, Pace::calm()), ClockAct::Show));
    module.reload();
    assert!(matches!(module.look(6, 0, Pace::calm()), ClockAct::Show));
}
