//! Quantities known in one of two units, with the conversion to the other.

use crate::text::{lemma_pow10_max, lemma_pow10_mono, pow10, Decimal, MAX_DIGITS};
use vstd::prelude::*;

verus! {

/// `n / d` rounded to the nearest integer, halves away from zero.
pub open spec fn round_div(n: int, d: int) -> int {
    if n >= 0 {
        (2 * n + d) / (2 * d)
    } else {
        -((-2 * n + d) / (2 * d))
    }
}

/// `F = C * 1.8 + 32`, exactly: one more decimal place than the input.
pub open spec fn celsius_to_fahrenheit(c: Decimal) -> Decimal {
    Decimal {
        mantissa: (18 * c.mantissa + 320 * pow10(c.scale as nat)) as i64,
        scale: (c.scale + 1) as u32,
    }
}

/// `floor(kt * 1.15078 * 100) / 100`: miles per hour in hundredths.
pub open spec fn knots_to_mph(k: Decimal) -> Decimal {
    Decimal {
        mantissa: ((k.mantissa * 115078) / pow10((k.scale + 3) as nat)) as i64,
        scale: 2,
    }
}

/// `round(m * 3.28084)`: whole feet.
pub open spec fn meters_to_feet(m: Decimal) -> Decimal {
    Decimal {
        mantissa: round_div(m.mantissa * 328084, pow10((m.scale + 5) as nat)) as i64,
        scale: 0,
    }
}

/// `10^n` as a machine integer.
fn pow10_wide(n: u32) -> (r: i128)
    requires
        n <= 20,
    ensures
        r == pow10(n as nat),
{
    let mut r: i128 = 1;
    let mut i: u32 = 0;
    while i < n
        invariant
            i <= n <= 20,
            r == pow10(i as nat),
        decreases n - i,
    {
        proof {
            lemma_pow10_mono((i + 1) as nat, 20);
            reveal_with_fuel(pow10, 21);
        }
        r = r * 10;
        i += 1;
    }
    r
}

/// Bounds under which the conversions compute without overflow.
pub open spec fn small(n: int) -> bool {
    -1_000_000_000_000_000_000_000 < n < 1_000_000_000_000_000_000_000
}

/// `n / d` rounded down.
fn floor_div_exec(n: i128, d: i128) -> (r: i128)
    requires
        d > 0,
        small(n as int),
        small(d as int),
    ensures
        r == (n as int) / (d as int),
{
    if n >= 0 {
        ((n as u128) / (d as u128)) as i128
    } else {
        let q = ((-n + d - 1) as u128) / (d as u128);
        proof {
            let ni = n as int;
            let di = d as int;
            let qi = q as int;
            assert(-qi == ni / di) by (nonlinear_arith)
                requires
                    ni < 0,
                    di > 0,
                    qi == (-ni + di - 1) / di,
            ;
        }
        -(q as i128)
    }
}

/// Rounds `n / d` to the nearest integer, halves away from zero.
pub(crate) fn round_div_exec(n: i128, d: i128) -> (r: i128)
    requires
        d > 0,
        small(n as int),
        small(d as int),
    ensures
        r == round_div(n as int, d as int),
{
    let dd: i128 = 2 * d;
    if n >= 0 {
        let nn: i128 = 2 * n + d;
        (nn as u128 / dd as u128) as i128
    } else {
        let nn: i128 = d - 2 * n;
        let q = nn as u128 / dd as u128;
        proof {
            assert(q <= nn) by (nonlinear_arith)
                requires
                    q == nn as int / dd as int,
                    dd >= 1,
                    nn >= 0,
            ;
        }
        -(q as i128)
    }
}

#[derive(Debug)]
pub enum Temperature {
    Celsius(Option<Decimal>),
    Fahrenheit(Option<Decimal>),
}

impl Temperature {
    /// A reading in degrees Celsius is one that a cell could give.
    pub open spec fn wf(&self) -> bool {
        match self {
            Temperature::Celsius(Some(c)) => c.fits(),
            _ => true,
        }
    }

    pub open spec fn spec_fahrenheit(&self) -> Option<Decimal> {
        match self {
            Temperature::Celsius(Some(c)) => Some(celsius_to_fahrenheit(*c)),
            Temperature::Celsius(None) => None,
            Temperature::Fahrenheit(f) => *f,
        }
    }

    /// The temperature in degrees Fahrenheit; absent when the reading is.
    pub fn to_fahrenheit(&self) -> (r: Option<Decimal>)
        requires
            self.wf(),
        ensures
            r == self.spec_fahrenheit(),
    {
        match self {
            Temperature::Celsius(Some(c)) => {
                proof {
                    lemma_pow10_mono(c.scale as nat, MAX_DIGITS as nat);
                    lemma_pow10_max();
                }
                let p = pow10_wide(c.scale);
                let m = 18 * (c.mantissa as i128) + 320 * p;
                Some(Decimal { mantissa: m as i64, scale: c.scale + 1 })
            },
            Temperature::Celsius(None) => None,
            Temperature::Fahrenheit(f) => *f,
        }
    }
}

#[derive(Debug)]
pub enum Wind {
    Knots(Option<Decimal>),
    Mph(Option<Decimal>),
}

impl Wind {
    /// A speed in knots is one that a cell could give.
    pub open spec fn wf(&self) -> bool {
        match self {
            Wind::Knots(Some(k)) => k.fits(),
            _ => true,
        }
    }

    pub open spec fn spec_mph(&self) -> Option<Decimal> {
        match self {
            Wind::Knots(Some(k)) => Some(knots_to_mph(*k)),
            Wind::Knots(None) => None,
            Wind::Mph(v) => *v,
        }
    }

    /// The speed in miles per hour, cut down to hundredths; absent when the
    /// reading is.
    pub fn to_mph(&self) -> (r: Option<Decimal>)
        requires
            self.wf(),
        ensures
            r == self.spec_mph(),
    {
        match self {
            Wind::Knots(Some(k)) => {
                proof {
                    lemma_pow10_mono(k.scale as nat, MAX_DIGITS as nat);
                    lemma_pow10_max();
                }
                let p = pow10_wide(k.scale + 3);
                proof {
                    lemma_pow10_mono((k.scale + 3) as nat, 18);
                    reveal_with_fuel(pow10, 19);
                    assert(-1_000_000_000_000_000 * 115078 <= k.mantissa * 115078
                        <= 1_000_000_000_000_000 * 115078) by (nonlinear_arith)
                        requires
                            -1_000_000_000_000_000 < k.mantissa < 1_000_000_000_000_000,
                    ;
                }
                let q = floor_div_exec((k.mantissa as i128) * 115078, p);
                proof {
                    let ni = k.mantissa * 115078;
                    let pi = p as int;
                    assert(pi >= 1000);
                    assert(-1_000_000_000_000_000 * 116 <= ni / pi <= 1_000_000_000_000_000 * 116)
                        by (nonlinear_arith)
                        requires
                            -1_000_000_000_000_000 * 115078 <= ni <= 1_000_000_000_000_000 * 115078,
                            pi >= 1000,
                    ;
                }
                Some(Decimal { mantissa: q as i64, scale: 2 })
            },
            Wind::Knots(None) => None,
            Wind::Mph(v) => *v,
        }
    }
}

#[derive(Debug)]
pub enum Elevation {
    Meters(Option<Decimal>),
    Feet(Option<Decimal>),
}

impl Elevation {
    /// A height in meters is one that a cell could give.
    pub open spec fn wf(&self) -> bool {
        match self {
            Elevation::Meters(Some(m)) => m.fits(),
            _ => true,
        }
    }

    pub open spec fn spec_feet(&self) -> Option<Decimal> {
        match self {
            Elevation::Meters(Some(m)) => Some(meters_to_feet(*m)),
            Elevation::Meters(None) => None,
            Elevation::Feet(v) => *v,
        }
    }

    /// The height in whole feet; absent when the reading is.
    pub fn to_feet(&self) -> (r: Option<Decimal>)
        requires
            self.wf(),
        ensures
            r == self.spec_feet(),
    {
        match self {
            Elevation::Meters(Some(m)) => {
                proof {
                    lemma_pow10_mono(m.scale as nat, MAX_DIGITS as nat);
                    lemma_pow10_max();
                }
                let p = pow10_wide(m.scale + 5);
                proof {
                    lemma_pow10_mono((m.scale + 5) as nat, 20);
                    reveal_with_fuel(pow10, 21);
                    assert(-1_000_000_000_000_000 * 328084 <= m.mantissa * 328084
                        <= 1_000_000_000_000_000 * 328084) by (nonlinear_arith)
                        requires
                            -1_000_000_000_000_000 < m.mantissa < 1_000_000_000_000_000,
                    ;
                }
                let f = round_div_exec((m.mantissa as i128) * 328084, p);
                Some(Decimal { mantissa: f as i64, scale: 0 })
            },
            Elevation::Meters(None) => None,
            Elevation::Feet(v) => *v,
        }
    }
}

} // verus!
