//! The battery: what the power daemon says of it and what is shown.
use vstd::prelude::*;
use crate::floats::F64;
use crate::strs::{
    dec, dec_signed, is_text, joined, law_filling_keeps_the_text, pad_left, pad_right, padded_left,
    padded_right, push_dec, push_dec_signed,
};
use crate::tui::{interactive_view, plain_view, CustomId, Elem};

verus! {

#[derive(Clone, Copy, Debug, PartialEq, Eq, Structural)]
pub enum BatteryState {
    Unknown,
    Charging,
    Discharging,
    Empty,
    FullyCharged,
    PendingCharge,
    PendingDischarge,
}

impl Default for BatteryState {
    fn default() -> (r: Self)
        ensures
            r == BatteryState::Unknown,
    {
        BatteryState::Unknown
    }
}

#[derive(Clone, Copy, Debug, PartialEq, Eq, Structural)]
pub enum BatteryType {
    Unknown,
    LinePower,
    Battery,
    Ups,
    Monitor,
    Mouse,
    Keyboard,
    Pda,
    Phone,
}

impl Default for BatteryType {
    fn default() -> (r: Self)
        ensures
            r == BatteryType::Unknown,
    {
        BatteryType::Unknown
    }
}

#[derive(Clone, Copy, Debug, PartialEq, Eq, Structural)]
pub enum BatteryLevel {
    Unknown,
    NoLevel,
    Low,
    Critical,
    Normal,
    High,
    Full,
}

impl Default for BatteryLevel {
    fn default() -> (r: Self)
        ensures
            r == BatteryLevel::Unknown,
    {
        BatteryLevel::Unknown
    }
}

/// The state that a number of the power daemon stands for.
pub open spec fn state_of(number: u32) -> Option<BatteryState> {
    match number {
        0 => Some(BatteryState::Unknown),
        1 => Some(BatteryState::Charging),
        2 => Some(BatteryState::Discharging),
        3 => Some(BatteryState::Empty),
        4 => Some(BatteryState::FullyCharged),
        5 => Some(BatteryState::PendingCharge),
        6 => Some(BatteryState::PendingDischarge),
        _ => None,
    }
}

/// The level that a number of the power daemon stands for.
pub open spec fn level_of(number: u32) -> Option<BatteryLevel> {
    match number {
        0 => Some(BatteryLevel::Unknown),
        1 => Some(BatteryLevel::NoLevel),
        3 => Some(BatteryLevel::Low),
        4 => Some(BatteryLevel::Critical),
        6 => Some(BatteryLevel::Normal),
        7 => Some(BatteryLevel::High),
        8 => Some(BatteryLevel::Full),
        _ => None,
    }
}

impl BatteryState {
    /// The state that a number stands for.
    pub fn from_number(number: u32) -> (r: Option<Self>)
        ensures
            r == state_of(number),
    {
        match number {
            0 => Some(BatteryState::Unknown),
            1 => Some(BatteryState::Charging),
            2 => Some(BatteryState::Discharging),
            3 => Some(BatteryState::Empty),
            4 => Some(BatteryState::FullyCharged),
            5 => Some(BatteryState::PendingCharge),
            6 => Some(BatteryState::PendingDischarge),
            _ => None,
        }
    }
}

/// The state that a number is taken for: the unknown one where it stands for none, and
/// a pending charge also where it stands for a pending discharge.
pub open spec fn state_taken(number: u32) -> BatteryState {
    match number {
        1 => BatteryState::Charging,
        2 => BatteryState::Discharging,
        3 => BatteryState::Empty,
        4 => BatteryState::FullyCharged,
        5 => BatteryState::PendingCharge,
        6 => BatteryState::PendingCharge,
        _ => BatteryState::Unknown,
    }
}

/// Each state has one number, and each level has one. A number that stands for a
/// state is taken for it, but a pending discharge is taken for a pending charge;
/// one that stands for none is taken for the unknown state.
pub proof fn law_numbers_stand_for_one_thing(a: u32, b: u32)
    ensures
        state_of(a) is Some <==> a <= 6,
        state_of(a) is Some && state_of(a) == state_of(b) ==> a == b,
        level_of(a) is Some <==> a <= 8 && a != 2 && a != 5,
        level_of(a) is Some && level_of(a) == level_of(b) ==> a == b,
        a != 6 ==> (state_of(a) matches Some(state) ==> state_taken(a) == state),
        state_taken(6) == BatteryState::PendingCharge,
        state_of(a) is None ==> state_taken(a) == BatteryState::Unknown,
{
}

/// The numbers of the states and of the levels.
pub proof fn law_states_and_levels_by_number()
    ensures
        state_of(0) == Some(BatteryState::Unknown),
        state_of(1) == Some(BatteryState::Charging),
        state_of(2) == Some(BatteryState::Discharging),
        state_of(3) == Some(BatteryState::Empty),
        state_of(4) == Some(BatteryState::FullyCharged),
        state_of(5) == Some(BatteryState::PendingCharge),
        state_of(6) == Some(BatteryState::PendingDischarge),
        level_of(0) == Some(BatteryLevel::Unknown),
        level_of(1) == Some(BatteryLevel::NoLevel),
        level_of(3) == Some(BatteryLevel::Low),
        level_of(4) == Some(BatteryLevel::Critical),
        level_of(6) == Some(BatteryLevel::Normal),
        level_of(7) == Some(BatteryLevel::High),
        level_of(8) == Some(BatteryLevel::Full),
{
}

impl From<u32> for BatteryState {
    fn from(number: u32) -> (r: Self) {
        match number {
            1 => BatteryState::Charging,
            2 => BatteryState::Discharging,
            3 => BatteryState::Empty,
            4 => BatteryState::FullyCharged,
            5 => BatteryState::PendingCharge,
            6 => BatteryState::PendingCharge,
            _ => BatteryState::Unknown,
        }
    }
}

impl vstd::std_specs::convert::FromSpecImpl<u32> for BatteryState {
    open spec fn obeys_from_spec() -> bool {
        true
    }

    open spec fn from_spec(number: u32) -> Self {
        state_taken(number)
    }
}

impl BatteryLevel {
    /// The level that a number stands for.
    pub fn from_number(number: u32) -> (r: Option<Self>)
        ensures
            r == level_of(number),
    {
        match number {
            0 => Some(BatteryLevel::Unknown),
            1 => Some(BatteryLevel::NoLevel),
            3 => Some(BatteryLevel::Low),
            4 => Some(BatteryLevel::Critical),
            6 => Some(BatteryLevel::Normal),
            7 => Some(BatteryLevel::High),
            8 => Some(BatteryLevel::Full),
            _ => None,
        }
    }
}

/// The value of a property, as the power daemon hands it over.
#[derive(Clone, Copy, Debug, PartialEq, Eq, Structural)]
pub enum PropValue {
    U32(u32),
    Bool(bool),
    F64(F64),
    I64(i64),
    Other,
}

/// Why a value was not taken.
#[derive(Clone, Copy, Debug, PartialEq, Eq, Structural)]
pub enum PropError {
    /// The property holds something else.
    WrongType,
    /// A duration is below zero.
    NegativeDuration,
}

/// What is known of the battery. Durations are in seconds.
#[derive(Clone, Copy, Debug, PartialEq, Eq, Structural)]
pub struct UpowerState {
    pub battery_level: BatteryLevel,
    pub battery_state: BatteryState,
    pub is_present: bool,
    pub percentage: F64,
    pub energy_rate: F64,
    pub time_to_empty: u64,
    pub time_to_full: u64,
}

impl Default for UpowerState {
    fn default() -> (r: Self)
        ensures
            r == unknown_battery(),
    {
        UpowerState {
            battery_level: BatteryLevel::Unknown,
            battery_state: BatteryState::Unknown,
            is_present: false,
            percentage: F64 { bits: 0 },
            energy_rate: F64 { bits: 0 },
            time_to_empty: 0,
            time_to_full: 0,
        }
    }
}

/// A battery of which nothing is known.
pub open spec fn unknown_battery() -> UpowerState {
    UpowerState {
        battery_level: BatteryLevel::Unknown,
        battery_state: BatteryState::Unknown,
        is_present: false,
        percentage: F64 { bits: 0 },
        energy_rate: F64 { bits: 0 },
        time_to_empty: 0,
        time_to_full: 0,
    }
}

/// Nothing is known of a battery at first: it is not there, in no known state, and all
/// its numbers are zero.
pub proof fn law_unknown_battery_is_not_there()
    ensures
        !unknown_battery().is_present,
        unknown_battery().battery_state == BatteryState::Unknown,
        unknown_battery().battery_level == BatteryLevel::Unknown,
        unknown_battery().percentage.bits == 0,
        unknown_battery().energy_rate.bits == 0,
        unknown_battery().time_to_empty == 0,
        unknown_battery().time_to_full == 0,
{
}

/// The duration that a value is.
pub open spec fn duration_of(value: PropValue) -> Result<u64, PropError> {
    match value {
        PropValue::I64(secs) => if secs < 0 {
            Err(PropError::NegativeDuration)
        } else {
            Ok(secs as u64)
        },
        _ => Err(PropError::WrongType),
    }
}

pub fn duration_from_value(value: PropValue) -> (r: Result<u64, PropError>)
    ensures
        r == duration_of(value),
{
    match value {
        PropValue::I64(secs) => if secs < 0 {
            Err(PropError::NegativeDuration)
        } else {
            Ok(secs as u64)
        },
        _ => Err(PropError::WrongType),
    }
}

impl UpowerState {
    /// The state with a property set. A property that is not kept changes nothing.
    pub open spec fn with_property(self, name: Seq<char>, value: PropValue) -> Result<
        UpowerState,
        PropError,
    > {
        if name == "BatteryLevel"@ {
            match value {
                PropValue::U32(n) => match level_of(n) {
                    Some(level) => Ok(UpowerState { battery_level: level, ..self }),
                    None => Err(PropError::WrongType),
                },
                _ => Err(PropError::WrongType),
            }
        } else if name == "State"@ {
            match value {
                PropValue::U32(n) => match state_of(n) {
                    Some(state) => Ok(UpowerState { battery_state: state, ..self }),
                    None => Err(PropError::WrongType),
                },
                _ => Err(PropError::WrongType),
            }
        } else if name == "IsPresent"@ {
            match value {
                PropValue::Bool(present) => Ok(UpowerState { is_present: present, ..self }),
                _ => Err(PropError::WrongType),
            }
        } else if name == "Percentage"@ {
            match value {
                PropValue::F64(x) => Ok(
                    if self.percentage.equals(x) {
                        self
                    } else {
                        UpowerState { percentage: x, ..self }
                    },
                ),
                _ => Err(PropError::WrongType),
            }
        } else if name == "EnergyRate"@ {
            match value {
                PropValue::F64(x) => Ok(
                    if self.energy_rate.equals(x) {
                        self
                    } else {
                        UpowerState { energy_rate: x, ..self }
                    },
                ),
                _ => Err(PropError::WrongType),
            }
        } else if name == "TimeToEmpty"@ {
            match duration_of(value) {
                Ok(secs) => Ok(UpowerState { time_to_empty: secs, ..self }),
                Err(err) => Err(err),
            }
        } else if name == "TimeToFull"@ {
            match duration_of(value) {
                Ok(secs) => Ok(UpowerState { time_to_full: secs, ..self }),
                Err(err) => Err(err),
            }
        } else {
            Ok(self)
        }
    }

    /// Whether a state says the same of a property as another. A value that is
    /// not a number is never the same.
    pub open spec fn says_the_same(self, after: UpowerState, name: Seq<char>) -> bool {
        if name == "Percentage"@ {
            self.percentage.equals(after.percentage)
        } else if name == "EnergyRate"@ {
            self.energy_rate.equals(after.energy_rate)
        } else {
            self == after
        }
    }

    /// Sets a property. The result says whether that made a difference.
    pub fn update(&mut self, prop_name: &String, value: PropValue) -> (r: Result<bool, PropError>)
        ensures
            match old(self).with_property(prop_name@, value) {
                Ok(after) => {
                    &&& *final(self) == after
                    &&& r == Ok::<bool, PropError>(!old(self).says_the_same(after, prop_name@))
                },
                Err(err) => {
                    &&& *final(self) == *old(self)
                    &&& r == Err::<bool, PropError>(err)
                },
            },
    {
        proof {
            reveal_strlit("BatteryLevel");
            reveal_strlit("State");
            reveal_strlit("IsPresent");
            reveal_strlit("Percentage");
            reveal_strlit("EnergyRate");
            reveal_strlit("TimeToEmpty");
            reveal_strlit("TimeToFull");
            assert("Percentage"@[0] != "EnergyRate"@[0]);
        }
        let before = *self;
        if is_text(prop_name, "BatteryLevel") {
            let level = match value {
                PropValue::U32(n) => match BatteryLevel::from_number(n) {
                    Some(level) => level,
                    None => {
                        return Err(PropError::WrongType);
                    },
                },
                _ => {
                    return Err(PropError::WrongType);
                },
            };
            self.battery_level = level;
            Ok(before.battery_level != level)
        } else if is_text(prop_name, "State") {
            let state = match value {
                PropValue::U32(n) => match BatteryState::from_number(n) {
                    Some(state) => state,
                    None => {
                        return Err(PropError::WrongType);
                    },
                },
                _ => {
                    return Err(PropError::WrongType);
                },
            };
            self.battery_state = state;
            Ok(before.battery_state != state)
        } else if is_text(prop_name, "IsPresent") {
            match value {
                PropValue::Bool(present) => {
                    self.is_present = present;
                    Ok(before.is_present != present)
                },
                _ => Err(PropError::WrongType),
            }
        } else if is_text(prop_name, "Percentage") {
            match value {
                PropValue::F64(x) => {
                    if before.percentage.same_number(x) {
                        proof {
                            crate::floats::law_equals_symmetric(before.percentage, x);
                        }
                        Ok(false)
                    } else {
                        self.percentage = x;
                        Ok(true)
                    }
                },
                _ => Err(PropError::WrongType),
            }
        } else if is_text(prop_name, "EnergyRate") {
            match value {
                PropValue::F64(x) => {
                    if before.energy_rate.same_number(x) {
                        Ok(false)
                    } else {
                        self.energy_rate = x;
                        Ok(true)
                    }
                },
                _ => Err(PropError::WrongType),
            }
        } else if is_text(prop_name, "TimeToEmpty") {
            match duration_from_value(value) {
                Ok(secs) => {
                    self.time_to_empty = secs;
                    Ok(before.time_to_empty != secs)
                },
                Err(err) => Err(err),
            }
        } else if is_text(prop_name, "TimeToFull") {
            match duration_from_value(value) {
                Ok(secs) => {
                    self.time_to_full = secs;
                    Ok(before.time_to_full != secs)
                },
                Err(err) => Err(err),
            }
        } else {
            Ok(false)
        }
    }
}

/// Setting a property twice to the same value makes no difference the second
/// time, unless the value is not a number.
pub proof fn law_second_update_changes_nothing(
    state: UpowerState,
    name: Seq<char>,
    value: PropValue,
)
    requires
        value matches PropValue::F64(x) ==> !x.is_nan(),
        state.with_property(name, value) is Ok,
    ensures
        ({
            let once = state.with_property(name, value)->Ok_0;
            &&& once.with_property(name, value) == Ok::<UpowerState, PropError>(once)
            &&& once.says_the_same(once, name)
        }),
{
    reveal_strlit("BatteryLevel");
    reveal_strlit("State");
    reveal_strlit("IsPresent");
    reveal_strlit("Percentage");
    reveal_strlit("EnergyRate");
    assert("Percentage"@[0] == 'P' && "EnergyRate"@[0] == 'E' && "BatteryLevel"@[0] == 'B');
    assert("State"@[0] == 'S' && "IsPresent"@[0] == 'I');
}

/// What tells the names of the properties apart.
proof fn lemma_property_names()
    ensures
        "BatteryLevel"@.len() == 12,
        "State"@.len() == 5,
        "IsPresent"@.len() == 9,
        "Percentage"@.len() == 10 && "Percentage"@[0] == 'P',
        "EnergyRate"@.len() == 10 && "EnergyRate"@[0] == 'E',
        "TimeToEmpty"@.len() == 11,
        "TimeToFull"@.len() == 10 && "TimeToFull"@[0] == 'T',
{
    reveal_strlit("BatteryLevel");
    reveal_strlit("State");
    reveal_strlit("IsPresent");
    reveal_strlit("Percentage");
    reveal_strlit("EnergyRate");
    reveal_strlit("TimeToEmpty");
    reveal_strlit("TimeToFull");
}

/// A property that is taken is kept: its field then holds the value, every other
/// field is as it was, and it made a difference exactly if the field held another
/// value before. This is so of each property that is kept; a number with a fraction
/// that equals the one before stays as it was written before.
pub proof fn law_taken_property_is_kept(state: UpowerState, value: PropValue)
    ensures
        state.with_property("BatteryLevel"@, value) matches Ok(after) ==> {
            &&& value matches PropValue::U32(n) && level_of(n) == Some(after.battery_level)
            &&& after == (UpowerState { battery_level: after.battery_level, ..state })
            &&& state.says_the_same(after, "BatteryLevel"@) <==> state.battery_level
                == after.battery_level
        },
        state.with_property("State"@, value) matches Ok(after) ==> {
            &&& value matches PropValue::U32(n) && state_of(n) == Some(after.battery_state)
            &&& after == (UpowerState { battery_state: after.battery_state, ..state })
            &&& state.says_the_same(after, "State"@) <==> state.battery_state
                == after.battery_state
        },
        state.with_property("IsPresent"@, value) matches Ok(after) ==> {
            &&& value == PropValue::Bool(after.is_present)
            &&& after == (UpowerState { is_present: after.is_present, ..state })
            &&& state.says_the_same(after, "IsPresent"@) <==> state.is_present == after.is_present
        },
        state.with_property("Percentage"@, value) matches Ok(after) ==> {
            &&& value matches PropValue::F64(x) && {
                &&& state.percentage.equals(x) ==> after == state
                &&& !state.percentage.equals(x) ==> after.percentage == x
                &&& state.says_the_same(after, "Percentage"@) <==> state.percentage.equals(x)
            }
            &&& after == (UpowerState { percentage: after.percentage, ..state })
        },
        state.with_property("EnergyRate"@, value) matches Ok(after) ==> {
            &&& value matches PropValue::F64(x) && {
                &&& state.energy_rate.equals(x) ==> after == state
                &&& !state.energy_rate.equals(x) ==> after.energy_rate == x
                &&& state.says_the_same(after, "EnergyRate"@) <==> state.energy_rate.equals(x)
            }
            &&& after == (UpowerState { energy_rate: after.energy_rate, ..state })
        },
        state.with_property("TimeToEmpty"@, value) matches Ok(after) ==> {
            &&& value matches PropValue::I64(secs) && after.time_to_empty == secs
            &&& after == (UpowerState { time_to_empty: after.time_to_empty, ..state })
            &&& state.says_the_same(after, "TimeToEmpty"@) <==> state.time_to_empty
                == after.time_to_empty
        },
        state.with_property("TimeToFull"@, value) matches Ok(after) ==> {
            &&& value matches PropValue::I64(secs) && after.time_to_full == secs
            &&& after == (UpowerState { time_to_full: after.time_to_full, ..state })
            &&& state.says_the_same(after, "TimeToFull"@) <==> state.time_to_full
                == after.time_to_full
        },
{
    lemma_property_names();
    if let PropValue::F64(x) = value {
        assert(state.percentage.equals(x) ==> state.percentage.equals(state.percentage));
        assert(state.energy_rate.equals(x) ==> state.energy_rate.equals(state.energy_rate));
    }
}

/// Which values are taken: numbers that stand for a level or a state, a yes or no,
/// numbers with a fraction, and durations that are not below zero, each for the
/// properties that hold them. A duration below zero is refused as such, anything
/// else as being of the wrong type.
pub proof fn law_fitting_values_are_taken(state: UpowerState, value: PropValue)
    ensures
        state.with_property("BatteryLevel"@, value) is Ok <==> (value matches PropValue::U32(n)
            && level_of(n) is Some),
        state.with_property("State"@, value) is Ok <==> (value matches PropValue::U32(n)
            && state_of(n) is Some),
        state.with_property("IsPresent"@, value) is Ok <==> value is Bool,
        state.with_property("Percentage"@, value) is Ok <==> value is F64,
        state.with_property("EnergyRate"@, value) is Ok <==> value is F64,
        state.with_property("TimeToEmpty"@, value) is Ok <==> (value matches PropValue::I64(secs)
            && secs >= 0),
        state.with_property("TimeToFull"@, value) is Ok <==> (value matches PropValue::I64(secs)
            && secs >= 0),
        forall|name: Seq<char>|
            (#[trigger] state.with_property(name, value)) matches Err(err) ==> (err
                == PropError::NegativeDuration <==> ((name == "TimeToEmpty"@ || name
                == "TimeToFull"@) && value is I64)),
{
    lemma_property_names();
}

/// A property that is not kept changes nothing, whatever its value, and makes no
/// difference.
pub proof fn law_other_properties_change_nothing(
    state: UpowerState,
    name: Seq<char>,
    value: PropValue,
)
    requires
        name != "BatteryLevel"@,
        name != "State"@,
        name != "IsPresent"@,
        name != "Percentage"@,
        name != "EnergyRate"@,
        name != "TimeToEmpty"@,
        name != "TimeToFull"@,
    ensures
        state.with_property(name, value) == Ok::<UpowerState, PropError>(state),
        state.says_the_same(state, name),
{
}

/// What stands before the rate: whether the battery loses or gains energy.
pub open spec fn rate_sign(state: BatteryState) -> char {
    match state {
        BatteryState::Discharging => '-',
        BatteryState::PendingDischarge => '-',
        BatteryState::Charging => '+',
        BatteryState::PendingCharge => '+',
        BatteryState::FullyCharged => '±',
        BatteryState::Unknown => '±',
        BatteryState::Empty => '±',
    }
}

/// As [`rate_sign`], for bars that know two signs only.
pub open spec fn plain_rate_sign(state: BatteryState) -> char {
    match state {
        BatteryState::Discharging => '-',
        BatteryState::PendingDischarge => '-',
        _ => '+',
    }
}

/// What the bar says of the battery: how full it is, in percent, and its rate
/// in watts, which comes as text.
pub open spec fn energy_text(percentage: i64, sign: char, rate: Seq<char>) -> Seq<char> {
    pad_left(dec_signed(percentage as int), 3, ' ') + "% "@ + pad_right(
        seq![sign] + rate + "W"@,
        6,
        ' ',
    )
}

/// A battery that loses energy shows a minus, one that gains some a plus, and any
/// other both. Bars that know two signs only show a plus where there is no minus.
pub proof fn law_signs_follow_the_state(state: BatteryState)
    ensures
        (rate_sign(state) == '-') <==> (state == BatteryState::Discharging || state
            == BatteryState::PendingDischarge),
        (rate_sign(state) == '+') <==> (state == BatteryState::Charging || state
            == BatteryState::PendingCharge),
        rate_sign(state) == '-' || rate_sign(state) == '+' || rate_sign(state) == '±',
        (plain_rate_sign(state) == '-') <==> (rate_sign(state) == '-'),
        plain_rate_sign(state) == '-' || plain_rate_sign(state) == '+',
{
}

/// The text of the battery is made of its percentage, at the right of at least
/// three cells, a percent sign and a blank, and then the sign, the rate and the
/// unit, at the left of at least six cells.
pub proof fn law_battery_text_shows_its_numbers(percentage: i64, sign: char, rate: Seq<char>)
    ensures
        ({
            let text = energy_text(percentage, sign, rate);
            let number = dec_signed(percentage as int);
            let a = if number.len() < 3 {
                3
            } else {
                number.len() as int
            };
            let end = a + 4 + rate.len();
            &&& text.subrange(a - number.len(), a) == number
            &&& forall|i: int| 0 <= i < a - number.len() ==> #[trigger] text[i] == ' '
            &&& text[a] == '%'
            &&& text[a + 1] == ' '
            &&& text[a + 2] == sign
            &&& text.subrange(a + 3, a + 3 + rate.len()) == rate
            &&& text[end - 1] == 'W'
            &&& forall|i: int| end <= i < text.len() ==> #[trigger] text[i] == ' '
            &&& text.len() == if rate.len() < 4 {
                a + 8
            } else {
                end
            }
        }),
{
    let text = energy_text(percentage, sign, rate);
    let number = dec_signed(percentage as int);
    let watts = seq![sign] + rate + "W"@;
    reveal_strlit("% ");
    reveal_strlit("W");
    law_filling_keeps_the_text(number, 3, ' ');
    law_filling_keeps_the_text(watts, 6, ' ');
    let left = pad_left(number, 3, ' ');
    let right = pad_right(watts, 6, ' ');
    let a = left.len() as int;
    assert(text == left + "% "@ + right);
    assert(text.take(a) =~= left);
    assert(text.subrange(a - number.len(), a) =~= left.skip(a - number.len()));
    assert(text.skip(a + 2) =~= right);
    assert(right.take(watts.len() as int) == watts);
    assert forall|i: int| 0 <= i < watts.len() implies text[a + 2 + i] == watts[i] by {
        assert(text[a + 2 + i] == right[i]);
        assert(right.take(watts.len() as int)[i] == right[i]);
    }
    assert(watts[0] == sign);
    assert(watts[1 + rate.len() as int] == 'W');
    assert(text[a + 2 + 0] == watts[0]);
    assert(text[a + 2 + (1 + rate.len())] == watts[1 + rate.len() as int]);
    assert forall|i: int| 0 <= i < rate.len() implies text[a + 3 + i] == rate[i] by {
        assert(watts[1 + i] == rate[i]);
        assert(text[a + 2 + (1 + i)] == watts[1 + i]);
    }
    assert(text.subrange(a + 3, a + 3 + rate.len()) =~= rate);
    assert forall|i: int| a + 4 + rate.len() <= i < text.len() implies #[trigger] text[i] == ' ' by {
        assert(text[i] == right[i - a - 2]);
    }
    assert forall|i: int| 0 <= i < a - number.len() implies #[trigger] text[i] == ' ' by {
        assert(text[i] == left[i]);
    }
}

pub fn mk_energy_text(percentage: i64, sign: char, rate: &str) -> (r: String)
    ensures
        r@ == energy_text(percentage, sign, rate@),
{
    let mut number: String = String::new();
    push_dec_signed(&mut number, percentage);
    proof {
        assert(number@ =~= dec_signed(percentage as int));
    }
    let mut watts: String = String::new();
    watts.push(sign);
    watts.push_str(rate);
    watts.push_str("W");
    proof {
        assert(watts@ =~= seq![sign] + rate@ + "W"@);
    }
    let mut out = padded_left(&number, 3);
    out.push_str("% ");
    out.push_str(&padded_right(&watts, 6));
    out
}

pub fn mk_rate_sign(state: BatteryState) -> (r: char)
    ensures
        r == rate_sign(state),
{
    match state {
        BatteryState::Discharging | BatteryState::PendingDischarge => '-',
        BatteryState::Charging | BatteryState::PendingCharge => '+',
        BatteryState::FullyCharged | BatteryState::Unknown | BatteryState::Empty => '±',
    }
}

pub fn mk_plain_rate_sign(state: BatteryState) -> (r: char)
    ensures
        r == plain_rate_sign(state),
{
    match state {
        BatteryState::Discharging | BatteryState::PendingDischarge => '-',
        _ => '+',
    }
}

/// A duration in hours and minutes.
pub open spec fn time_text(secs: u64) -> Seq<char> {
    dec((secs / 3600) as nat) + "h "@ + dec(((secs / 60) % 60) as nat) + "min"@
}

/// What the tooltip says of the battery.
pub open spec fn battery_text(state: BatteryState, to_empty: u64, to_full: u64) -> Seq<char> {
    match state {
        BatteryState::Discharging => "Battery empty in "@ + time_text(to_empty),
        BatteryState::PendingDischarge => "Battery empty in "@ + time_text(to_empty),
        BatteryState::FullyCharged => "Battery full"@,
        BatteryState::Empty => "Battery empty"@,
        BatteryState::Unknown => "Battery state unknown"@,
        BatteryState::Charging => "Battery full in "@ + time_text(to_full),
        BatteryState::PendingCharge => "Battery full in "@ + time_text(to_full),
    }
}

fn mk_time_text(secs: u64) -> (r: String)
    ensures
        r@ == time_text(secs),
{
    let mut out: String = crate::strs::dec_string(secs / 3600);
    out.push_str("h ");
    push_dec(&mut out, (secs / 60) % 60);
    out.push_str("min");
    out
}

pub fn mk_battery_text(state: BatteryState, to_empty: u64, to_full: u64) -> (r: String)
    ensures
        r@ == battery_text(state, to_empty, to_full),
{
    match state {
        BatteryState::Discharging | BatteryState::PendingDischarge => joined(
            "Battery empty in ",
            &mk_time_text(to_empty),
        ),
        BatteryState::FullyCharged => "Battery full".to_owned(),
        BatteryState::Empty => "Battery empty".to_owned(),
        BatteryState::Unknown => "Battery state unknown".to_owned(),
        BatteryState::Charging | BatteryState::PendingCharge => joined(
            "Battery full in ",
            &mk_time_text(to_full),
        ),
    }
}

/// The hours and minutes that are shown are those of the duration, rounded down
/// to whole minutes.
pub proof fn law_time_is_whole_minutes(secs: u64)
    ensures
        60 * (secs / 3600) + (secs / 60) % 60 == secs / 60,
        (secs / 60) % 60 < 60,
{
}

/// So many hours and minutes are shown as these, whatever seconds come on top.
pub proof fn law_time_shows_hours_and_minutes(hours: u64, minutes: u64, seconds: u64)
    requires
        hours <= 1_000_000_000,
        minutes < 60,
        seconds < 60,
    ensures
        time_text((3600 * hours + 60 * minutes + seconds) as u64) == dec(hours as nat) + "h "@
            + dec(minutes as nat) + "min"@,
{
    let secs = (3600 * hours + 60 * minutes + seconds) as u64;
    assert(secs / 3600 == hours);
    assert(secs / 60 == 60 * hours + minutes);
}

/// The tooltip of a battery that loses energy says when it will be empty, that of
/// one that gains some when it will be full, whatever is known of the other time.
pub proof fn law_tooltip_says_what_comes(to_empty: u64, to_full: u64)
    ensures
        battery_text(BatteryState::Discharging, to_empty, to_full) == "Battery empty in "@
            + time_text(to_empty),
        battery_text(BatteryState::PendingDischarge, to_empty, to_full) == "Battery empty in "@
            + time_text(to_empty),
        battery_text(BatteryState::Charging, to_empty, to_full) == "Battery full in "@ + time_text(
            to_full,
        ),
        battery_text(BatteryState::PendingCharge, to_empty, to_full) == "Battery full in "@
            + time_text(to_full),
        battery_text(BatteryState::FullyCharged, to_empty, to_full) == "Battery full"@,
        battery_text(BatteryState::Empty, to_empty, to_full) == "Battery empty"@,
        battery_text(BatteryState::Unknown, to_empty, to_full) == "Battery state unknown"@,
{
}

/// What is shown of the battery, apart from the state of its own: numbers that
/// have been rounded and texts.
#[derive(Debug)]
pub struct EnergyReading {
    pub is_present: bool,
    pub percentage: i64,
    pub rate: String,
    pub battery_state: BatteryState,
    pub time_to_empty: u64,
    pub time_to_full: u64,
}

/// What a module does to its place in the bar.
#[derive(Debug)]
pub enum EnergyAct {
    Hide,
    /// The bar shows this text.
    Show(String),
    /// The tooltip says this.
    Tooltip(String),
}

/// The texts that were shown last.
#[derive(Debug)]
pub struct EnergyModule {
    pub last_text: String,
    pub last_tooltip: String,
}

/// What is done, with the texts spelled out.
#[verifier::ext_equal]
pub enum EnergyActView {
    Hide,
    Show(Seq<char>),
    Tooltip(Seq<char>),
}

impl View for EnergyAct {
    type V = EnergyActView;

    open spec fn view(&self) -> EnergyActView {
        match *self {
            EnergyAct::Hide => EnergyActView::Hide,
            EnergyAct::Show(text) => EnergyActView::Show(text@),
            EnergyAct::Tooltip(text) => EnergyActView::Tooltip(text@),
        }
    }
}

/// What a list of acts does.
pub open spec fn energy_act_views(acts: Seq<EnergyAct>) -> Seq<EnergyActView> {
    Seq::new(acts.len(), |i: int| acts[i]@)
}

impl EnergyReading {
    pub open spec fn text(self) -> Seq<char> {
        energy_text(self.percentage, rate_sign(self.battery_state), self.rate@)
    }

    pub open spec fn tooltip(self) -> Seq<char> {
        battery_text(self.battery_state, self.time_to_empty, self.time_to_full)
    }
}

impl EnergyModule {
    /// Where there is no battery the module is hidden. Otherwise each text is
    /// passed on if it is not the one that was passed on last.
    pub open spec fn acts(self, reading: EnergyReading) -> Seq<EnergyActView> {
        if !reading.is_present {
            seq![EnergyActView::Hide]
        } else {
            (if reading.text() != self.last_text@ {
                seq![EnergyActView::Show(reading.text())]
            } else {
                Seq::empty()
            }) + (if reading.tooltip() != self.last_tooltip@ {
                seq![EnergyActView::Tooltip(reading.tooltip())]
            } else {
                Seq::empty()
            })
        }
    }

    pub fn new() -> (r: Self)
        ensures
            r.last_text@.len() == 0,
            r.last_tooltip@.len() == 0,
    {
        EnergyModule { last_text: String::new(), last_tooltip: String::new() }
    }

    /// Takes in a reading.
    pub fn step(&mut self, reading: &EnergyReading) -> (r: Vec<EnergyAct>)
        ensures
            energy_act_views(r@) == old(self).acts(*reading),
            !reading.is_present ==> *final(self) == *old(self),
            reading.is_present ==> final(self).last_text@ == reading.text()
                && final(self).last_tooltip@ == reading.tooltip(),
    {
        let ghost start = *self;
        let mut acts: Vec<EnergyAct> = Vec::new();
        if !reading.is_present {
            acts.push(EnergyAct::Hide);
            proof {
                assert(energy_act_views(acts@) =~= start.acts(*reading));
            }
            return acts;
        }
        let text = mk_energy_text(
            reading.percentage,
            mk_rate_sign(reading.battery_state),
            &reading.rate,
        );
        if text != self.last_text {
            acts.push(EnergyAct::Show(text.clone()));
            self.last_text = text;
        }
        let tooltip = mk_battery_text(
            reading.battery_state,
            reading.time_to_empty,
            reading.time_to_full,
        );
        if tooltip != self.last_tooltip {
            acts.push(EnergyAct::Tooltip(tooltip.clone()));
            self.last_tooltip = tooltip;
        }
        proof {
            assert(energy_act_views(acts@) =~= start.acts(*reading));
        }
        acts
    }
}

/// A battery that is not there is hidden. Of one that is there a text is passed on
/// exactly when it is another than last time: first what the bar shows, then what
/// the tooltip says.
pub proof fn law_news_of_the_battery_are_passed_on(module: EnergyModule, reading: EnergyReading)
    ensures
        !reading.is_present ==> module.acts(reading) == seq![EnergyActView::Hide],
        reading.is_present ==> {
            let text = energy_text(
                reading.percentage,
                rate_sign(reading.battery_state),
                reading.rate@,
            );
            let tooltip = battery_text(
                reading.battery_state,
                reading.time_to_empty,
                reading.time_to_full,
            );
            let same_text = text == module.last_text@;
            let same_tooltip = tooltip == module.last_tooltip@;
            let acts = module.acts(reading);
            &&& same_text && same_tooltip ==> acts.len() == 0
            &&& !same_text && same_tooltip ==> acts == seq![EnergyActView::Show(text)]
            &&& same_text && !same_tooltip ==> acts == seq![EnergyActView::Tooltip(tooltip)]
            &&& !same_text && !same_tooltip ==> acts == seq![
                EnergyActView::Show(text),
                EnergyActView::Tooltip(tooltip),
            ]
        },
{
    if reading.is_present {
        let acts = module.acts(reading);
        if reading.text() != module.last_text@ && reading.tooltip() == module.last_tooltip@ {
            assert(acts =~= seq![EnergyActView::Show(reading.text())]);
        }
        if reading.text() == module.last_text@ && reading.tooltip() != module.last_tooltip@ {
            assert(acts =~= seq![EnergyActView::Tooltip(reading.tooltip())]);
        }
        if reading.text() != module.last_text@ && reading.tooltip() != module.last_tooltip@ {
            assert(acts =~= seq![
                EnergyActView::Show(reading.text()),
                EnergyActView::Tooltip(reading.tooltip()),
            ]);
        }
    }
}

/// What is done about the battery is said act by act, with its texts.
pub proof fn law_battery_acts_are_said(acts: Seq<EnergyAct>, i: int)
    ensures
        energy_act_views(acts).len() == acts.len(),
        0 <= i < acts.len() ==> match acts[i] {
            EnergyAct::Hide => energy_act_views(acts)[i] is Hide,
            EnergyAct::Show(text) => energy_act_views(acts)[i] == EnergyActView::Show(text@),
            EnergyAct::Tooltip(text) => energy_act_views(acts)[i] == EnergyActView::Tooltip(text@),
        },
{
}

/// The battery in the bar.
pub fn energy_elem(text: &str, tag: CustomId) -> (r: Elem)
    ensures
        r@ == interactive_view(plain_view(text@), tag@),
{
    Elem::plain(text).interactive(tag)
}

} // verus!
