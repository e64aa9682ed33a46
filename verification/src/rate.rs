//! Turning a byte count into bits, and choosing the unit in which a bit
//! rate is shown.

use vstd::prelude::*;

verus! {

/// Factor between one unit and the next.
pub const STEP: u64 = 1024;

/// The unit in which a bit rate is shown.
#[derive(Clone, Copy, Debug, PartialEq, Eq, Structural)]
pub enum Unit {
    /// bit/s
    Bit,
    /// kbit/s
    Kilobit,
    /// Mbit/s
    Megabit,
    /// Gbit/s
    Gigabit,
    /// Tbit/s
    Terabit,
}

/// The bits in a number of bytes: eight for each. No count of bytes is too
/// large for the result.
pub fn bits(bytes: u64) -> (n: u128)
    ensures
        n == bytes * 8,
{
    let wide: u128 = bytes as u128;
    wide * 8
}

/// How many bits per second one of a unit is: 1024 for each step from
/// bit/s.
pub open spec fn spec_divisor(unit: Unit) -> nat {
    match unit {
        Unit::Bit => 1,
        Unit::Kilobit => 1024,
        Unit::Megabit => 1024 * 1024,
        Unit::Gigabit => 1024 * 1024 * 1024,
        Unit::Terabit => 1024 * 1024 * 1024 * 1024,
    }
}

/// How often a rate is divided by 1024 to be shown in a unit.
pub open spec fn spec_steps(unit: Unit) -> nat {
    match unit {
        Unit::Bit => 0,
        Unit::Kilobit => 1,
        Unit::Megabit => 2,
        Unit::Gigabit => 3,
        Unit::Terabit => 4,
    }
}

/// The unit after this one, and the largest one for itself.
pub open spec fn spec_next(unit: Unit) -> Unit {
    match unit {
        Unit::Bit => Unit::Kilobit,
        Unit::Kilobit => Unit::Megabit,
        Unit::Megabit => Unit::Gigabit,
        _ => Unit::Terabit,
    }
}

/// The unit in which a rate is shown. The rate is divided by 1024 for as
/// long as what is left exceeds 1024, four times at most: so the unit is
/// the smallest in which the rate is 1024 or less, and Tbit/s where there
/// is none.
pub open spec fn spec_unit_for(rate: nat) -> Unit {
    if rate <= 1024 * spec_divisor(Unit::Bit) {
        Unit::Bit
    } else if rate <= 1024 * spec_divisor(Unit::Kilobit) {
        Unit::Kilobit
    } else if rate <= 1024 * spec_divisor(Unit::Megabit) {
        Unit::Megabit
    } else if rate <= 1024 * spec_divisor(Unit::Gigabit) {
        Unit::Gigabit
    } else {
        Unit::Terabit
    }
}

impl Unit {
    /// The unit after this one; the largest one stays.
    pub fn next(self) -> (u: Unit)
        ensures
            u == spec_next(self),
    {
        match self {
            Unit::Bit => Unit::Kilobit,
            Unit::Kilobit => Unit::Megabit,
            Unit::Megabit => Unit::Gigabit,
            _ => Unit::Terabit,
        }
    }

    /// How many bits per second one of this unit is.
    pub fn divisor(self) -> (d: u64)
        ensures
            d == spec_divisor(self),
    {
        match self {
            Unit::Bit => 1,
            Unit::Kilobit => 1024,
            Unit::Megabit => 1024 * 1024,
            Unit::Gigabit => 1024 * 1024 * 1024,
            Unit::Terabit => 1024 * 1024 * 1024 * 1024,
        }
    }

    /// How often a rate is divided by 1024 to be shown in this unit.
    pub fn steps(self) -> (k: usize)
        ensures
            k == spec_steps(self),
    {
        match self {
            Unit::Bit => 0,
            Unit::Kilobit => 1,
            Unit::Megabit => 2,
            Unit::Gigabit => 3,
            Unit::Terabit => 4,
        }
    }

    /// The name of this unit as it is printed.
    pub fn label(self) -> (s: &'static str)
        ensures
            s@ == spec_label(self),
    {
        match self {
            Unit::Bit => "bit/s",
            Unit::Kilobit => "kbit/s",
            Unit::Megabit => "Mbit/s",
            Unit::Gigabit => "Gbit/s",
            Unit::Terabit => "Tbit/s",
        }
    }
}

/// The name of a unit as it is printed.
pub open spec fn spec_label(unit: Unit) -> Seq<char> {
    match unit {
        Unit::Bit => "bit/s"@,
        Unit::Kilobit => "kbit/s"@,
        Unit::Megabit => "Mbit/s"@,
        Unit::Gigabit => "Gbit/s"@,
        Unit::Terabit => "Tbit/s"@,
    }
}

/// Chooses the unit in which a rate of `rate` bits per second is shown. For
/// a rate that is no whole number, pass it rounded up: it exceeds a whole
/// number exactly when its ceiling does.
pub fn unit_for(rate: u64) -> (unit: Unit)
    ensures
        unit == spec_unit_for(rate as nat),
        rate <= 1024 * spec_divisor(unit) || unit == Unit::Terabit,
        unit != Unit::Bit ==> rate > spec_divisor(unit),
{
    let mut unit: Unit = Unit::Bit;
    let mut ceiling: u64 = STEP;
    let mut k: usize = 0;
    while k < 4 && rate > ceiling
        invariant
            k <= 4,
            ceiling == 1024 * spec_divisor(unit),
            k == spec_steps(unit),
            unit != Unit::Bit ==> rate > spec_divisor(unit),
            spec_unit_for(rate as nat) == unit || rate > ceiling,
            unit == Unit::Terabit ==> spec_unit_for(rate as nat) == unit,
        decreases 4 - k,
    {
        unit = unit.next();
        ceiling = ceiling * STEP;
        k = k + 1;
    }
    unit
}

} // verus!
