//! The battery reading shown beside the process table.

use vstd::prelude::*;
use vstd::string::*;

verus! {

/// What the battery is doing.
#[derive(Clone, Copy, Debug, PartialEq, Eq, Structural)]
pub enum State {
    Unknown,
    Charging,
    Discharging,
    Empty,
    Full,
}

/// One reading of the battery. Times are in seconds, the charge in percent,
/// the energy rate in hundredths of a watt.
#[derive(Clone, Copy, Debug, PartialEq, Eq)]
pub struct BatteryState {
    pub state_of_charge: i32,
    pub time_to_empty: Option<i64>,
    pub time_to_full: Option<i64>,
    pub state: State,
    pub energy_rate: u64,
}

/// Holds the latest battery reading.
#[derive(Clone, Copy, Debug, PartialEq, Eq)]
pub struct BatteryWidget {
    pub state: BatteryState,
}

/// The symbol that stands for a battery state.
pub open spec fn state_symbol(state: State) -> Seq<char> {
    match state {
        State::Charging => "▲"@,
        State::Discharging => "▼"@,
        State::Full => "●"@,
        State::Empty => "○"@,
        State::Unknown => "?"@,
    }
}

/// The quotient of `a` by a positive `b`, rounded toward zero.
pub open spec fn quotient_toward_zero(a: int, b: int) -> int
    recommends
        b > 0,
{
    if a >= 0 {
        a / b
    } else {
        -((-a) / b)
    }
}

/// The full hours in a number of seconds, and the full minutes beyond them.
/// A negative number of seconds gives the negated parts of its magnitude.
pub open spec fn hours_minutes(seconds: int) -> (int, int) {
    (
        quotient_toward_zero(seconds, 3600),
        quotient_toward_zero(seconds - 3600 * quotient_toward_zero(seconds, 3600), 60),
    )
}

impl BatteryWidget {
    /// A widget that has not seen a reading yet.
    pub fn new() -> (widget: BatteryWidget)
        ensures
            widget.state == (BatteryState {
                state_of_charge: 0,
                time_to_empty: None,
                time_to_full: None,
                state: State::Unknown,
                energy_rate: 0,
            }),
    {
        BatteryWidget {
            state: BatteryState {
                state_of_charge: 0,
                time_to_empty: None,
                time_to_full: None,
                state: State::Unknown,
                energy_rate: 0,
            },
        }
    }

    /// Replaces the held reading by a new one.
    pub fn on_load(&mut self, battery_state: &BatteryState)
        ensures
            final(self).state == *battery_state,
    {
        self.state = *battery_state;
    }

    /// The widget has a single line, so scrolling down changes nothing.
    pub fn scroll_down(&self) {
    }

    /// The widget has a single line, so scrolling up changes nothing.
    pub fn scroll_up(&self) {
    }
}

/// The symbol that stands for a battery state.
pub fn get_state_symbol(s: State) -> (symbol: String)
    ensures
        symbol@ == state_symbol(s),
{
    match s {
        State::Charging => String::from_str("▲"),
        State::Discharging => String::from_str("▼"),
        State::Full => String::from_str("●"),
        State::Empty => String::from_str("○"),
        State::Unknown => String::from_str("?"),
    }
}

/// Splits a number of seconds into full hours and the full minutes beyond
/// them.
pub fn seconds_to_hours_minutes(seconds: i64) -> (parts: (i64, i64))
    ensures
        (parts.0 as int, parts.1 as int) == hours_minutes(seconds as int),
{
    let hours = seconds / 3600;
    let remaining_seconds = seconds % 3600;
    let minutes = remaining_seconds / 60;
    (hours, minutes)
}

} // verus!
