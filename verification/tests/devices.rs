use scratchbar::assoc::Assoc;
use scratchbar::floats::F64;
use scratchbar::ppd::{
    cycles_profile, mk_profile_symbol, mk_profile_text, next_profile, on_interact, PpdAct,
    PpdConfig, PpdInteract, PpdModule, Profile,
};
use scratchbar::pulse::{
    avg_volume, connect_step, device_elem, handle_iterate_result, interact_update, mk_pactl_args,
    mk_volume_text, ConnectStep, ContextState, Facility, Iterated, PulseAct, PulseDeviceKind,
    PulseEvent, PulseState, PulseUpdate, PulseUpdateKind,
};
use scratchbar::tui::{CustomId, Direction, Elem, InteractKind, MouseButton};
use scratchbar::upower::{
    duration_from_value, energy_elem, mk_battery_text, mk_energy_text, mk_plain_rate_sign,
    mk_rate_sign, BatteryLevel, BatteryState, EnergyAct, EnergyModule, EnergyReading, PropError,
    PropValue, UpowerState,
};

fn show<T: std::fmt::Debug>(value: &T) -> String {
    format!("{value:?}")
}

fn s(text: &str) -> String {
    text.to_owned()
}

const LEFT: InteractKind = InteractKind::Click(MouseButton::Left);
const RIGHT: InteractKind = InteractKind::Click(MouseButton::Right);
const MIDDLE: InteractKind = InteractKind::Click(MouseButton::Middle);

fn delta(direction: Direction) -> i32 {
    let update = interact_update(PulseDeviceKind::Sink, InteractKind::Scroll(direction)).unwrap();
    match update.kind {
        PulseUpdateKind::VolumeDelta(delta) => delta,
        other => panic!("{other:?}"),
    }
}

#[test]
fn scrolling_back_undoes() {
    assert_eq!((delta(Direction::Up), delta(Direction::Right)), (2, 2));
    assert_eq!(delta(Direction::Up) + delta(Direction::Down), 0);
    assert_eq!(delta(Direction::Right) + delta(Direction::Left), 0);
}

#[test]
fn buttons_mute_and_reset() {
    let update = |kind| interact_update(PulseDeviceKind::Source, kind).map(|it| it.kind);
    assert_eq!(update(LEFT), Some(PulseUpdateKind::ToggleMute));
    assert_eq!(update(RIGHT), Some(PulseUpdateKind::ResetVolume));
    assert_eq!(update(MIDDLE), None);
    assert_eq!(update(InteractKind::Hover), None);
}

#[test]
fn tool_is_told_what_was_asked() {
    let args = |kind, target| mk_pactl_args(PulseUpdate { kind, target });
    assert_eq!(
        args(PulseUpdateKind::VolumeDelta(2), PulseDeviceKind::Sink),
        vec!["set-sink-volume", "@DEFAULT_SINK@", "+2%"]
    );
    assert_eq!(
        args(PulseUpdateKind::VolumeDelta(i32::MIN), PulseDeviceKind::Source),
        vec!["set-source-volume", "@DEFAULT_SOURCE@", "-2147483648%"]
    );
    assert_eq!(
        args(PulseUpdateKind::ToggleMute, PulseDeviceKind::Source),
        vec!["set-source-mute", "@DEFAULT_SOURCE@", "toggle"]
    );
    assert_eq!(
        args(PulseUpdateKind::ResetVolume, PulseDeviceKind::Sink),
        vec!["set-sink-volume", "@DEFAULT_SINK@", "100%"]
    );
}

#[test]
fn volume_is_the_average_of_the_channels() {
    assert_eq!(avg_volume(&vec![10, 21], 0), 15);
    assert_eq!(avg_volume(&vec![10, 20], 4), 11);
    assert_eq!(avg_volume(&vec![3], 4), 0);
    assert_eq!(avg_volume(&vec![u32::MAX; 32], 0), u64::from(u32::MAX));
}

#[test]
fn new_names_lead_to_questions() {
    let mut state = PulseState::default();
    let info = PulseEvent::ServerInfo { sink: Some(s("out")), source: None };
    let acts = state.step(info);
    let query = || PulseAct::QueryDevice(PulseDeviceKind::Sink, s("out"));
    assert_eq!(show(&acts), show(&vec![query()]));
    assert_eq!(show(&state.step(PulseEvent::Changed(Facility::Sink))), show(&vec![query()]));
    assert!(state.step(PulseEvent::Changed(Facility::Source)).is_empty());
    assert!(state.step(PulseEvent::Changed(Facility::Other)).is_empty());
    let server = show(&vec![PulseAct::QueryServer]);
    assert_eq!(show(&state.step(PulseEvent::Changed(Facility::Server))), server);
    assert_eq!(show(&state.step(PulseEvent::Reload)), server);
}

#[test]
fn devices_are_kept_apart() {
    assert_eq!(PulseDeviceKind::default(), PulseDeviceKind::Source);
    let mut state = PulseState::default();
    assert!(!state.sink.muted && !state.source.muted);
    let kind = PulseDeviceKind::Source;
    let acts = state.step(PulseEvent::DeviceInfo { kind, percent: 42, muted: true });
    assert_eq!(show(&acts), show(&vec![PulseAct::Publish]));
    assert_eq!((state.source.percent, state.source.muted), (42, true));
    assert_eq!((state.sink.percent, state.sink.muted), (0, false));
}

#[test]
fn connection_is_waited_for() {
    assert!(matches!(connect_step(ContextState::Ready), ConnectStep::Done));
    assert!(matches!(connect_step(ContextState::Failed), ConnectStep::Failed));
    assert!(matches!(connect_step(ContextState::Terminated), ConnectStep::Terminated));
    assert!(matches!(connect_step(ContextState::Other), ConnectStep::Iterate));
    assert!(handle_iterate_result(Iterated::Success).is_ok());
    assert!(matches!(handle_iterate_result(Iterated::Quit), Err(Iterated::Quit)));
    assert!(matches!(handle_iterate_result(Iterated::Failed), Err(Iterated::Failed)));
}

#[test]
fn volume_is_shown_with_a_symbol() {
    for percent in [0, 7, 42, 100, 1000] {
        assert_eq!(mk_volume_text(percent), format!("{percent:>3}%"));
    }
    let tag = CustomId::from_bytes(vec![1]);
    let (muted, unmuted) = (Elem::plain("M"), Elem::plain("U"));
    let on = show(&device_elem(42, false, &muted, &unmuted, tag.clone()));
    let off = show(&device_elem(42, true, &muted, &unmuted, tag));
    assert!(on.contains("\"U\"") && !on.contains("\"M\"") && on.contains("\" 42%\""));
    assert!(off.contains("\"M\"") && !off.contains("\"U\""));
}

fn num(x: f64) -> F64 {
    F64 { bits: x.to_bits() }
}

fn update(state: &mut UpowerState, name: &str, value: PropValue) -> Result<bool, PropError> {
    state.update(&s(name), value)
}

#[test]
fn properties_are_kept() {
    let mut state = UpowerState::default();
    assert_eq!(update(&mut state, "State", PropValue::U32(2)), Ok(true));
    assert_eq!(update(&mut state, "BatteryLevel", PropValue::U32(8)), Ok(true));
    assert_eq!(update(&mut state, "IsPresent", PropValue::Bool(true)), Ok(true));
    assert_eq!(update(&mut state, "Percentage", PropValue::F64(num(55.5))), Ok(true));
    assert_eq!(update(&mut state, "EnergyRate", PropValue::F64(num(7.25))), Ok(true));
    assert_eq!(update(&mut state, "TimeToEmpty", PropValue::I64(90)), Ok(true));
    assert_eq!(update(&mut state, "TimeToFull", PropValue::I64(0)), Ok(false));
    assert_eq!(update(&mut state, "Voltage", PropValue::Other), Ok(false));
    let expected = UpowerState {
        battery_level: BatteryLevel::Full,
        battery_state: BatteryState::Discharging,
        is_present: true,
        percentage: num(55.5),
        energy_rate: num(7.25),
        time_to_empty: 90,
        time_to_full: 0,
    };
    assert_eq!(state, expected);
}

#[test]
fn second_update_makes_no_difference() {
    let mut state = UpowerState::default();
    assert_eq!(update(&mut state, "State", PropValue::U32(1)), Ok(true));
    assert_eq!(update(&mut state, "State", PropValue::U32(1)), Ok(false));
    assert_eq!(update(&mut state, "Percentage", PropValue::F64(num(1.0))), Ok(true));
    assert_eq!(update(&mut state, "Percentage", PropValue::F64(num(1.0))), Ok(false));
    assert_eq!(update(&mut state, "EnergyRate", PropValue::F64(num(f64::NAN))), Ok(true));
    assert_eq!(update(&mut state, "EnergyRate", PropValue::F64(num(f64::NAN))), Ok(true));
}

#[test]
fn values_of_other_types_are_refused() {
    let mut state = UpowerState::default();
    for name in [
        "BatteryLevel",
        "State",
        "IsPresent",
        "Percentage",
        "EnergyRate",
        "TimeToEmpty",
        "TimeToFull",
    ] {
        assert_eq!(update(&mut state, name, PropValue::Other), Err(PropError::WrongType));
    }
    assert_eq!(update(&mut state, "BatteryLevel", PropValue::U32(2)), Err(PropError::WrongType));
    assert_eq!(update(&mut state, "State", PropValue::U32(7)), Err(PropError::WrongType));
    let negative = PropValue::I64(-1);
    assert_eq!(update(&mut state, "TimeToFull", negative), Err(PropError::NegativeDuration));
    assert_eq!(duration_from_value(negative), Err(PropError::NegativeDuration));
    assert_eq!(duration_from_value(PropValue::I64(i64::MAX)), Ok(i64::MAX as u64));
    assert_eq!(state, UpowerState::default());
}

#[test]
fn numbers_stand_for_battery_states() {
    assert_eq!(BatteryState::from(4), BatteryState::FullyCharged);
    assert_eq!(BatteryState::from(5), BatteryState::PendingCharge);
    assert_eq!(BatteryState::from(6), BatteryState::PendingCharge);
    assert_eq!(BatteryState::from_number(6), Some(BatteryState::PendingDischarge));
    assert_eq!(BatteryState::from(99), BatteryState::Unknown);
    assert_eq!(BatteryState::from_number(99), None);
    assert_eq!(BatteryLevel::from_number(1), Some(BatteryLevel::NoLevel));
    assert_eq!(BatteryLevel::from_number(5), None);
}

#[test]
fn battery_is_shown_as_text() {
    assert_eq!(mk_energy_text(7, '-', "4.3"), "  7% -4.3W ");
    assert_eq!(mk_energy_text(100, '±', "0.0"), "100% ±0.0W ");
    assert_eq!(mk_energy_text(55, '+', "104.3"), " 55% +104.3W");
    assert_eq!(mk_energy_text(-1, '+', "0"), " -1% +0W   ");
    assert_eq!(mk_rate_sign(BatteryState::Charging), '+');
    assert_eq!(mk_rate_sign(BatteryState::PendingDischarge), '-');
    assert_eq!(mk_rate_sign(BatteryState::Empty), '±');
    assert_eq!(mk_plain_rate_sign(BatteryState::Empty), '+');
    assert_eq!(mk_plain_rate_sign(BatteryState::Discharging), '-');
}

#[test]
fn durations_are_whole_minutes() {
    let text = |state| mk_battery_text(state, 3600 * 3 + 60 * 25 + 59, 3599);
    assert_eq!(text(BatteryState::Discharging), "Battery empty in 3h 25min");
    assert_eq!(text(BatteryState::PendingDischarge), "Battery empty in 3h 25min");
    assert_eq!(text(BatteryState::Charging), "Battery full in 0h 59min");
    assert_eq!(text(BatteryState::PendingCharge), "Battery full in 0h 59min");
    assert_eq!(text(BatteryState::FullyCharged), "Battery full");
    assert_eq!(text(BatteryState::Empty), "Battery empty");
    assert_eq!(text(BatteryState::Unknown), "Battery state unknown");
}

#[test]
fn energy_module_shows_what_is_new() {
    let mut module = EnergyModule::new();
    let mut reading = EnergyReading {
        is_present: true,
        percentage: 50,
        rate: s("1.0"),
        battery_state: BatteryState::Charging,
        time_to_empty: 0,
        time_to_full: 60,
    };
    let text = || EnergyAct::Show(s(" 50% +1.0W "));
    let tip = |text: &str| EnergyAct::Tooltip(s(text));
    let both = vec![text(), tip("Battery full in 0h 1min")];
    assert_eq!(show(&module.step(&reading)), show(&both));
    assert!(module.step(&reading).is_empty());
    reading.time_to_full = 120;
    let one = vec![tip("Battery full in 0h 2min")];
    assert_eq!(show(&module.step(&reading)), show(&one));
    reading.is_present = false;
    assert_eq!(show(&module.step(&reading)), show(&vec![EnergyAct::Hide]));
    let tag = CustomId::from_bytes(vec![1]);
    let expected = Elem::plain("x").interactive(tag.clone());
    assert_eq!(show(&energy_elem("x", tag)), show(&expected));
}

fn profiles(names: &[&str]) -> Vec<Profile> {
    names
        .iter()
        .map(|name| Profile {
            profile: s(name),
            driver: s("driver"),
            platform_driver: None,
            cpu_driver: None,
        })
        .collect()
}

#[test]
fn profiles_go_round() {
    let list = profiles(&["power-saver", "balanced", "performance"]);
    assert_eq!(next_profile(&list, &s("balanced"), 1), Some(2));
    assert_eq!(next_profile(&list, &s("performance"), 1), Some(0));
    assert_eq!(next_profile(&list, &s("balanced"), 3), Some(1));
    assert_eq!(next_profile(&list, &s("unknown"), 1), Some(0));
    assert_eq!(next_profile(&vec![], &s("balanced"), 1), None);
    for first in 0..5 {
        for second in 0..5 {
            let middle = next_profile(&list, &s("balanced"), first).unwrap();
            assert_eq!(
                next_profile(&list, &list[middle].profile, second),
                next_profile(&list, &s("balanced"), first + second)
            );
        }
    }
}

#[test]
fn profiles_have_symbols() {
    assert_eq!(mk_profile_symbol(&s("balanced")), Some("\u{f24e}"));
    assert_eq!(mk_profile_symbol(&s("performance")), Some("\u{f0e7}"));
    assert_eq!(mk_profile_symbol(&s("power-saver")), Some("\u{f06c}"));
    assert_eq!(mk_profile_symbol(&s("other")), None);
    assert_eq!(mk_profile_text(&Some(s("balanced"))), "balanced");
    assert_eq!(mk_profile_text(&None), "No profile");
}

#[test]
fn profile_module_hides_once() {
    let tag = CustomId::from_bytes(vec![1]);
    let mut module = PpdModule { hidden: false };
    match module.step(&Some(s("balanced")), &tag) {
        PpdAct::Show(elem) => assert!(show(&elem).contains("Interactive")),
        other => panic!("{other:?}"),
    }
    assert!(matches!(module.step(&None, &tag), PpdAct::Hide));
    assert!(matches!(module.step(&Some(s("other")), &tag), PpdAct::Keep));
    assert!(module.hidden);
    assert!(cycles_profile(LEFT) && !cycles_profile(RIGHT));
}

#[test]
fn profile_icons_can_be_chosen() {
    let tag = || CustomId::from_bytes(vec![1]);
    let mut icons = Assoc::new();
    icons.insert(s("fast"), Elem::plain("F"));
    let mut config = PpdConfig { icons, fallback_icon: None };
    let shown = config.render(&Some(s("fast")), tag()).unwrap();
    assert_eq!(show(&shown), show(&Elem::plain("F").interactive(tag())));
    assert!(config.render(&Some(s("slow")), tag()).is_none());
    assert!(config.render(&None, tag()).is_none());
    config.fallback_icon = Some(Elem::plain("?"));
    let shown = config.render(&Some(s("slow")), tag()).unwrap();
    assert_eq!(show(&shown), show(&Elem::plain("?").interactive(tag())));
    assert!(PpdConfig::default().render(&Some(s("balanced")), tag()).is_none());
}

#[test]
fn profile_reacts_to_the_mouse() {
    assert!(matches!(on_interact(&None, LEFT), PpdInteract::HideModule));
    assert!(matches!(on_interact(&Some(s("x")), LEFT), PpdInteract::Cycle));
    match on_interact(&Some(s("x")), InteractKind::Hover) {
        PpdInteract::OpenTooltip(elem) => assert_eq!(show(&elem), show(&Elem::plain("x"))),
        other => panic!("{other:?}"),
    }
}
