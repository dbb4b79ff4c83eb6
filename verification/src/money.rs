//! Money as a whole number of pence, an exact fractional-pence amount,
//! and the payment policy that converts a worked duration into money.

use vstd::prelude::*;
use vstd::string::StringExecFns;

verus! {

/// How many `MoneyExact` units make up one penny.
///
/// An hourly rate of `r` pence over `d` milliseconds earns
/// `r * d / 3_600_000` pence, so with units of 1/3,600,000 of a penny
/// every hourly accrual is an exact integer: `r * d` units.
pub const UNITS_PER_PENCE: u128 = 3_600_000;

/// A non-negative whole number of pence.
/// For fractional amounts, see [`MoneyExact`].
#[derive(Clone, Copy, Debug, PartialEq, Eq, Structural, Hash)]
pub struct Money(pub u32);

impl Money {
    /// Returns `money` pence.
    pub fn new(money: u32) -> (r: Self)
        ensures
            r.0 == money,
    {
        Money(money)
    }

    /// Returns the number of pence that `self` represents.
    pub fn as_pence(&self) -> (r: u32)
        ensures
            r == self.0,
    {
        self.0
    }

    /// Adds two amounts of whole pence.
    pub fn plus(self, rhs: Money) -> (r: Money)
        requires
            self.0 + rhs.0 <= u32::MAX,
        ensures
            r.0 == self.0 + rhs.0,
    {
        Money(self.0 + rhs.0)
    }
}

/// The character for a single decimal digit.
pub open spec fn spec_digit_char(d: int) -> char {
    if d == 0 {
        '0'
    } else if d == 1 {
        '1'
    } else if d == 2 {
        '2'
    } else if d == 3 {
        '3'
    } else if d == 4 {
        '4'
    } else if d == 5 {
        '5'
    } else if d == 6 {
        '6'
    } else if d == 7 {
        '7'
    } else if d == 8 {
        '8'
    } else {
        '9'
    }
}

/// The usual decimal rendering of a non-negative integer, with no
/// leading zeroes (a single `'0'` for zero itself).
pub open spec fn spec_dec_digits(n: int) -> Seq<char>
    decreases n,
{
    if n < 10 {
        seq![spec_digit_char(n)]
    } else {
        spec_dec_digits(n / 10) + seq![spec_digit_char(n % 10)]
    }
}

/// How `p` pence are displayed: a pound sign, the whole pounds in
/// decimal, a dot, and the remaining pence padded to two digits.
pub open spec fn spec_money_display(p: int) -> Seq<char> {
    seq!['£'] + spec_dec_digits(p / 100) + seq!['.', spec_digit_char((p % 100) / 10), spec_digit_char(
        p % 10,
    )]
}

/// The one-character string for a decimal digit.
fn digit_str(d: u32) -> (r: &'static str)
    requires
        d < 10,
    ensures
        r@ == seq![spec_digit_char(d as int)],
{
    if d == 0 {
        proof {
            reveal_strlit("0");
            assert("0"@ =~= seq![spec_digit_char(0)]);
        }
        "0"
    } else if d == 1 {
        proof {
            reveal_strlit("1");
            assert("1"@ =~= seq![spec_digit_char(1)]);
        }
        "1"
    } else if d == 2 {
        proof {
            reveal_strlit("2");
            assert("2"@ =~= seq![spec_digit_char(2)]);
        }
        "2"
    } else if d == 3 {
        proof {
            reveal_strlit("3");
            assert("3"@ =~= seq![spec_digit_char(3)]);
        }
        "3"
    } else if d == 4 {
        proof {
            reveal_strlit("4");
            assert("4"@ =~= seq![spec_digit_char(4)]);
        }
        "4"
    } else if d == 5 {
        proof {
            reveal_strlit("5");
            assert("5"@ =~= seq![spec_digit_char(5)]);
        }
        "5"
    } else if d == 6 {
        proof {
            reveal_strlit("6");
            assert("6"@ =~= seq![spec_digit_char(6)]);
        }
        "6"
    } else if d == 7 {
        proof {
            reveal_strlit("7");
            assert("7"@ =~= seq![spec_digit_char(7)]);
        }
        "7"
    } else if d == 8 {
        proof {
            reveal_strlit("8");
            assert("8"@ =~= seq![spec_digit_char(8)]);
        }
        "8"
    } else {
        proof {
            reveal_strlit("9");
            assert("9"@ =~= seq![spec_digit_char(9)]);
        }
        "9"
    }
}

/// Renders a non-negative integer in decimal, without leading zeroes.
fn dec_digits_string(n: u32) -> (r: String)
    ensures
        r@ == spec_dec_digits(n as int),
    decreases n,
{
    if n < 10 {
        String::from_str(digit_str(n))
    } else {
        let mut r = dec_digits_string(n / 10);
        r.append(digit_str(n % 10));
        r
    }
}

impl Money {
    /// Renders the amount as pounds: `£` followed by the whole pounds,
    /// a dot, and the remaining pence padded to two digits, for example
    /// `£0.23` for 23 pence.
    pub fn display_string(&self) -> (r: String)
        ensures
            r@ == spec_money_display(self.0 as int),
    {
        let mut r = String::from_str("£");
        proof {
            reveal_strlit("£");
            assert(r@ =~= seq!['£']);
        }
        let pounds: u32 = self.0 / 100;
        let pence: u32 = self.0 % 100;
        let pounds_str = dec_digits_string(pounds);
        r.append(pounds_str.as_str());
        r.append(".");
        r.append(digit_str(pence / 10));
        r.append(digit_str(pence % 10));
        proof {
            reveal_strlit(".");
            assert(".".view() =~= seq!['.']);
            assert(r@ =~= spec_money_display(self.0 as int));
        }
        r
    }
}

/// An exact, non-negative amount of money that may include fractional
/// pence, held as an integer count of 1/3,600,000-penny units
/// (see [`UNITS_PER_PENCE`]), so hourly accrual over a whole number of
/// milliseconds is represented without error.
#[derive(Clone, Copy, Debug, PartialEq, Eq, Structural)]
pub struct MoneyExact {
    pub units: u128,
}

impl MoneyExact {
    /// Accepts a signed count of units and fails on a negative amount.
    pub fn new(units: i128) -> (r: Option<MoneyExact>)
        ensures
            units >= 0 <==> r is Some,
            r matches Some(m) ==> m.units == units,
    {
        if units >= 0 {
            Some(MoneyExact { units: units as u128 })
        } else {
            None
        }
    }

    /// The amount in 1/3,600,000-penny units; divide by
    /// [`UNITS_PER_PENCE`] for the amount in pence.
    pub fn as_units(&self) -> (r: u128)
        ensures
            r == self.units,
    {
        self.units
    }

    /// The amount rounded down to whole pence.
    pub fn whole_pence(&self) -> (r: u128)
        ensures
            r == self.units / UNITS_PER_PENCE,
    {
        self.units / UNITS_PER_PENCE
    }

    /// Adds two exact amounts.
    pub fn plus(self, rhs: MoneyExact) -> (r: MoneyExact)
        requires
            self.units + rhs.units <= u128::MAX,
        ensures
            r.units == self.units + rhs.units,
    {
        MoneyExact { units: self.units + rhs.units }
    }

    /// Adds a whole-pence amount, promoting it to an exact amount.
    pub fn plus_money(self, rhs: Money) -> (r: MoneyExact)
        requires
            self.units + rhs.0 * UNITS_PER_PENCE <= u128::MAX,
        ensures
            r.units == self.units + rhs.0 * UNITS_PER_PENCE,
    {
        MoneyExact { units: self.units + (rhs.0 as u128) * UNITS_PER_PENCE }
    }
}

impl From<Money> for MoneyExact {
    /// Promotes whole pence to an exact amount of the same value.
    fn from(value: Money) -> (r: MoneyExact) {
        MoneyExact { units: (value.0 as u128) * UNITS_PER_PENCE }
    }
}

impl vstd::std_specs::convert::FromSpecImpl<Money> for MoneyExact {
    open spec fn obeys_from_spec() -> bool {
        true
    }

    open spec fn from_spec(value: Money) -> MoneyExact {
        MoneyExact { units: ((value.0 as int) * (UNITS_PER_PENCE as int)) as u128 }
    }
}

/// How a work slice's duration is converted into money owed.
#[derive(Clone, Copy, Debug, PartialEq, Eq, Structural, Hash)]
pub enum Payment {
    /// A rate in pence per hour, accrued continuously: every
    /// millisecond is paid for, with no rounding.
    Hourly(Money),
    /// A fixed fee in pence, regardless of how long the work takes.
    Fixed(Money),
}

impl Payment {
    /// The exact amount owed, in [`MoneyExact`] units, for a duration of
    /// `duration_ms` milliseconds: `rate * duration_ms` units (that is,
    /// `rate * duration_ms / 3_600_000` pence) for an hourly policy, and
    /// the fee itself for a fixed one.
    pub open spec fn calc_units(self, duration_ms: int) -> int {
        match self {
            Payment::Hourly(rate) => (rate.0 as int) * duration_ms,
            Payment::Fixed(fee) => (fee.0 as int) * (UNITS_PER_PENCE as int),
        }
    }

    /// Calculates how much this payment policy pays for a work slice of
    /// the given duration.
    pub fn calculate(&self, duration_ms: u64) -> (r: MoneyExact)
        ensures
            r.units == self.calc_units(duration_ms as int),
    {
        match *self {
            Payment::Hourly(rate) => {
                proof {
                    assert((rate.0 as int) * (duration_ms as int) <= u128::MAX) by (nonlinear_arith)
                        requires
                            rate.0 <= u32::MAX,
                            duration_ms <= u64::MAX,
                    ;
                }
                let units: u128 = (rate.0 as u128) * (duration_ms as u128);
                MoneyExact { units }
            },
            Payment::Fixed(fee) => MoneyExact { units: (fee.0 as u128) * UNITS_PER_PENCE },
        }
    }
}

/// A fixed fee pays the fee itself whatever the duration: the amount is
/// independent of the duration and equals the fee in exact units.
pub proof fn lemma_fixed_payment_ignores_duration(fee: Money, d1: u64, d2: u64)
    ensures
        Payment::Fixed(fee).calc_units(d1 as int) == Payment::Fixed(fee).calc_units(d2 as int),
        Payment::Fixed(fee).calc_units(d1 as int) == (fee.0 as int) * (UNITS_PER_PENCE as int),
{
}

/// An hourly rate of `rate` pence over `d` milliseconds pays exactly
/// `rate * d` units, which is `rate * (d / 1000) / 3600` pence:
/// continuous accrual with no rounding.
pub proof fn lemma_hourly_payment(rate: Money, d: u64)
    ensures
        Payment::Hourly(rate).calc_units(d as int) == (rate.0 as int) * (d as int),
{
}

} // verus!
