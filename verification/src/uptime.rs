//! The system uptime in words.

use crate::text::decimal_digits;
use crate::text::format_u64;
use vstd::prelude::*;
use vstd::string::*;

verus! {

pub const MINUTE: u64 = 60;

pub const HOUR: u64 = 3600;

pub const DAY: u64 = 86400;

pub const WEEK: u64 = 604800;

/// A month counts as four weeks.
pub const MONTH: u64 = 2419200;

/// The amount of one unit in a number of seconds. Unit 0 is the second, 1
/// the minute, 2 the hour, 3 the day, 4 the week, and 5 the month. Every
/// unit but the month counts up to the next larger one and starts again.
pub open spec fn unit_amount(seconds: nat, unit: nat) -> nat {
    if unit == 0 {
        seconds % 60
    } else if unit == 1 {
        (seconds / (MINUTE as nat)) % 60
    } else if unit == 2 {
        (seconds / (HOUR as nat)) % 24
    } else if unit == 3 {
        (seconds / (DAY as nat)) % 7
    } else if unit == 4 {
        (seconds / (WEEK as nat)) % 4
    } else {
        seconds / (MONTH as nat)
    }
}

/// The name of a unit, in the singular for an amount of one and in the
/// plural otherwise.
pub open spec fn unit_name(unit: nat, amount: nat) -> Seq<char> {
    if unit == 0 {
        if amount == 1 {
            "second"@
        } else {
            "seconds"@
        }
    } else if unit == 1 {
        if amount == 1 {
            "minute"@
        } else {
            "minutes"@
        }
    } else if unit == 2 {
        if amount == 1 {
            "hour"@
        } else {
            "hours"@
        }
    } else if unit == 3 {
        if amount == 1 {
            "day"@
        } else {
            "days"@
        }
    } else if unit == 4 {
        if amount == 1 {
            "week"@
        } else {
            "weeks"@
        }
    } else {
        if amount == 1 {
            "month"@
        } else {
            "months"@
        }
    }
}

/// One unit in words: the amount, a space, and the name of the unit.
pub open spec fn unit_text(seconds: nat, unit: nat) -> Seq<char> {
    decimal_digits(unit_amount(seconds, unit)) + seq![' '] + unit_name(
        unit,
        unit_amount(seconds, unit),
    )
}

/// The units from `unit` down to the second, separated by a comma and a
/// space.
pub open spec fn units_text(seconds: nat, unit: nat) -> Seq<char>
    decreases unit,
{
    if unit == 0 {
        unit_text(seconds, 0)
    } else {
        unit_text(seconds, unit) + seq![',', ' '] + units_text(seconds, (unit - 1) as nat)
    }
}

/// The largest unit of which the uptime has at least one, or the second
/// where it has none of any.
pub open spec fn leading_unit(seconds: nat) -> nat {
    if unit_amount(seconds, 5) != 0 {
        5
    } else if unit_amount(seconds, 4) != 0 {
        4
    } else if unit_amount(seconds, 3) != 0 {
        3
    } else if unit_amount(seconds, 2) != 0 {
        2
    } else if unit_amount(seconds, 1) != 0 {
        1
    } else {
        0
    }
}

/// An uptime in words: every unit from the largest that is not zero down to
/// the second, as in `3 hours, 0 minutes, 10 seconds`.
pub open spec fn pretty_uptime(seconds: nat) -> Seq<char> {
    units_text(seconds, leading_unit(seconds))
}

/// The uptime line: the word `up` and the uptime in words.
pub open spec fn uptime_message(seconds: nat) -> Seq<char> {
    seq!['u', 'p', ' '] + pretty_uptime(seconds)
}

/// Holds the uptime last read, in seconds.
#[derive(Debug, Clone, Copy, PartialEq, Eq)]
pub struct UptimeWidget {
    pub duration: u64,
}

impl UptimeWidget {
    /// A widget for a machine that has just started.
    pub fn new() -> (widget: UptimeWidget)
        ensures
            widget.duration == 0,
    {
        UptimeWidget { duration: 0 }
    }

    /// Records the uptime, in seconds.
    pub fn on_load(&mut self, seconds: u64)
        ensures
            final(self).duration == seconds,
    {
        self.duration = seconds;
    }

    /// The line to show.
    pub fn message(&self) -> (text: String)
        ensures
            text@ == uptime_message(self.duration as nat),
    {
        let mut text = String::from_str("up ");
        let words = as_pretty_uptime(self.duration);
        text.append(words.as_str());
        proof {
            reveal_strlit("up ");
            assert(text@ =~= uptime_message(self.duration as nat));
        }
        text
    }
}

/// Computes the amount of one unit.
pub fn amount_of(seconds: u64, unit: u8) -> (amount: u64)
    ensures
        amount == unit_amount(seconds as nat, unit as nat),
{
    if unit == 0 {
        seconds % 60
    } else if unit == 1 {
        (seconds / MINUTE) % 60
    } else if unit == 2 {
        (seconds / HOUR) % 24
    } else if unit == 3 {
        (seconds / DAY) % 7
    } else if unit == 4 {
        (seconds / WEEK) % 4
    } else {
        seconds / MONTH
    }
}

/// The name of a unit for a given amount.
pub fn name_of(unit: u8, amount: u64) -> (name: &'static str)
    ensures
        name@ == unit_name(unit as nat, amount as nat),
{
    if unit == 0 {
        if amount == 1 {
            "second"
        } else {
            "seconds"
        }
    } else if unit == 1 {
        if amount == 1 {
            "minute"
        } else {
            "minutes"
        }
    } else if unit == 2 {
        if amount == 1 {
            "hour"
        } else {
            "hours"
        }
    } else if unit == 3 {
        if amount == 1 {
            "day"
        } else {
            "days"
        }
    } else if unit == 4 {
        if amount == 1 {
            "week"
        } else {
            "weeks"
        }
    } else {
        if amount == 1 {
            "month"
        } else {
            "months"
        }
    }
}

/// Renders an uptime, given in seconds, in words.
pub fn as_pretty_uptime(seconds: u64) -> (text: String)
    ensures
        text@ == pretty_uptime(seconds as nat),
{
    let mut leading: u8 = 5;
    while leading > 0 && amount_of(seconds, leading) == 0
        invariant
            leading <= 5,
            forall|unit: nat| leading < unit <= 5 ==> unit_amount(seconds as nat, unit) == 0,
        decreases leading,
    {
        leading = leading - 1;
    }
    assert(leading == leading_unit(seconds as nat));
    let mut text = String::new();
    let mut unit: u8 = leading;
    loop
        invariant_except_break
            unit <= leading <= 5,
            text@ + units_text(seconds as nat, unit as nat) == units_text(
                seconds as nat,
                leading as nat,
            ),
        ensures
            text@ == units_text(seconds as nat, leading as nat),
        decreases unit,
    {
        let amount = amount_of(seconds, unit);
        let digits = format_u64(amount);
        let ghost before = text@;
        text.append(digits.as_str());
        text.append(" ");
        text.append(name_of(unit, amount));
        proof {
            reveal_strlit(" ");
            assert(text@ =~= before + unit_text(seconds as nat, unit as nat));
        }
        if unit == 0 {
            proof {
                assert(text@ =~= before + units_text(seconds as nat, 0));
            }
            break ;
        }
        text.append(", ");
        proof {
            reveal_strlit(", ");
            assert(text@ + units_text(seconds as nat, (unit - 1) as nat) =~= before + units_text(
                seconds as nat,
                unit as nat,
            ));
        }
        unit = unit - 1;
    }
    text
}

} // verus!
