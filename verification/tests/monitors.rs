use scratchbar::displays::Displays;
use scratchbar::floats::F64;
use scratchbar::monitors::{MonitorData, MonitorMode, State};

fn num(x: f64) -> F64 {
    F64 { bits: x.to_bits() }
}

fn output(name: &str, scale: f64, enabled: bool, modes: &[(u32, u32, bool)]) -> MonitorData {
    MonitorData {
        name: name.to_owned(),
        scale: num(scale),
        modes: modes
            .iter()
            .map(|&(width, height, current)| MonitorMode { width, height, current })
            .collect(),
        enabled,
    }
}

fn sorted(mut names: Vec<String>) -> Vec<String> {
    names.sort();
    names
}

#[test]
fn numbers_compare_like_floats() {
    for a in [0.0, -0.0, 1.5, f64::INFINITY, f64::NAN] {
        for b in [0.0, -0.0, 1.5, f64::INFINITY, f64::NEG_INFINITY, f64::NAN] {
            assert_eq!(num(a).same_number(num(b)), a == b, "{a} {b}");
        }
    }
}

#[test]
fn first_report_adds_the_enabled_monitors() {
    let mut state = State::new();
    let event = state
        .refresh(vec![
            output("A", 1.0, true, &[(10, 20, false), (30, 40, true), (50, 60, true)]),
            output("off", 1.0, false, &[(1, 1, true)]),
            output("modeless", 1.0, true, &[(1, 1, false)]),
        ])
        .unwrap();
    assert!(event.removed().is_empty());
    let added = event.added_or_changed();
    assert_eq!(added.len(), 1);
    assert_eq!((added[0].name.as_str(), added[0].width, added[0].height), ("A", 30, 40));
}

#[test]
fn same_report_gives_no_event() {
    let report = || vec![output("A", 1.25, true, &[(10, 20, true)])];
    let mut state = State::new();
    assert!(state.refresh(report()).is_some());
    assert!(state.refresh(report()).is_none());
    let nan = || vec![output("A", f64::NAN, true, &[(10, 20, true)])];
    assert!(state.refresh(nan()).is_some());
    assert!(state.refresh(nan()).is_some());
}

#[test]
fn event_tells_gone_new_and_changed() {
    let mut state = State::new();
    let _ = state.refresh(vec![
        output("kept", 1.0, true, &[(1, 1, true)]),
        output("changed", 1.0, true, &[(1, 1, true)]),
        output("gone", 1.0, true, &[(1, 1, true)]),
    ]);
    let event = state
        .refresh(vec![
            output("kept", 1.0, true, &[(1, 1, true)]),
            output("changed", 2.0, true, &[(1, 1, true)]),
            output("new", 1.0, true, &[(1, 1, true)]),
        ])
        .unwrap();
    assert_eq!(event.removed(), vec!["gone"]);
    let names = event.added_or_changed().into_iter().map(|it| it.name).collect();
    assert_eq!(sorted(names), vec!["changed", "new"]);
}

#[test]
fn later_output_of_a_name_counts() {
    let mut state = State::new();
    let event = state
        .refresh(vec![
            output("A", 1.0, true, &[(1, 1, true)]),
            output("A", 1.0, true, &[(2, 2, true)]),
        ])
        .unwrap();
    assert_eq!(event.added_or_changed()[0].width, 2);
    assert_eq!(state.data.entries.len(), 1);
}

#[test]
fn displays_come_and_go() {
    let names = |list: &[&str]| list.iter().map(|s| s.to_string()).collect::<Vec<_>>();
    let mut displays = Displays::new();
    assert!(displays.update(&names(&[])).is_none());
    let diff = displays.update(&names(&["a", "b", "a"])).unwrap();
    assert_eq!(sorted(diff.added), vec!["a", "b"]);
    assert!(diff.removed.is_empty());
    assert!(displays.update(&names(&["b", "a"])).is_none());
    let diff = displays.update(&names(&["b", "c"])).unwrap();
    assert_eq!(diff.added, vec!["c"]);
    assert_eq!(diff.removed, vec!["a"]);
}
