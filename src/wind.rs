//! Wind direction: a heading in degrees, a variable wind, or nothing; and the
//! compass point a heading falls on.

use crate::text::{parse_int, text_eq, int_of};
use crate::units::{round_div, round_div_exec};
use vstd::prelude::*;
use vstd::string::*;

verus! {

#[derive(Debug)]
pub enum WindDirection {
    Degrees(Option<i32>),
    Variable(Option<String>),
}

/// `round(h / 22.5)`: the position of a heading in the compass table.
pub open spec fn compass_index(h: int) -> int {
    round_div(2 * h, 45)
}

/// The compass table: sixteen points from north, then north again.
pub open spec fn compass_point(i: int) -> Seq<char> {
    if i == 0 || i == 16 {
        "N"@
    } else if i == 1 {
        "NNE"@
    } else if i == 2 {
        "NE"@
    } else if i == 3 {
        "ENE"@
    } else if i == 4 {
        "E"@
    } else if i == 5 {
        "ESE"@
    } else if i == 6 {
        "SE"@
    } else if i == 7 {
        "SSE"@
    } else if i == 8 {
        "S"@
    } else if i == 9 {
        "SSW"@
    } else if i == 10 {
        "SW"@
    } else if i == 11 {
        "WSW"@
    } else if i == 12 {
        "W"@
    } else if i == 13 {
        "WNW"@
    } else if i == 14 {
        "NW"@
    } else {
        "NNW"@
    }
}

/// The compass point of a heading. A heading of 0 means calm and has none;
/// nor has a heading whose position falls outside the table.
pub open spec fn cardinal_of(h: int) -> Option<Seq<char>> {
    if h == 0 || compass_index(h) < 0 || compass_index(h) > 16 {
        None
    } else {
        Some(compass_point(compass_index(h)))
    }
}

/// How a heading cell decodes: absent, the token "VRB", or an integer.
pub open spec fn heading_of(cell: Option<Seq<char>>, w: WindDirection) -> bool {
    match cell {
        None => w == WindDirection::Degrees(None),
        Some(s) => if s == "VRB"@ {
            w matches WindDirection::Variable(Some(t)) && t@ == "VRB"@
        } else {
            w == WindDirection::Degrees(int_of(s))
        },
    }
}

fn compass_point_exec(i: i128) -> (r: String)
    requires
        0 <= i <= 16,
    ensures
        r@ == compass_point(i as int),
{
    let s = if i == 0 || i == 16 {
        "N"
    } else if i == 1 {
        "NNE"
    } else if i == 2 {
        "NE"
    } else if i == 3 {
        "ENE"
    } else if i == 4 {
        "E"
    } else if i == 5 {
        "ESE"
    } else if i == 6 {
        "SE"
    } else if i == 7 {
        "SSE"
    } else if i == 8 {
        "S"
    } else if i == 9 {
        "SSW"
    } else if i == 10 {
        "SW"
    } else if i == 11 {
        "WSW"
    } else if i == 12 {
        "W"
    } else if i == 13 {
        "WNW"
    } else if i == 14 {
        "NW"
    } else {
        "NNW"
    };
    String::from_str(s)
}

impl WindDirection {
    pub open spec fn spec_cardinal(&self) -> Option<Seq<char>> {
        match self {
            WindDirection::Degrees(Some(h)) => cardinal_of(*h as int),
            WindDirection::Degrees(None) => None,
            WindDirection::Variable(_) => Some("Variable"@),
        }
    }

    /// Decodes a heading cell.
    pub fn from_cell(cell: &Option<String>) -> (r: WindDirection)
        ensures
            heading_of(cell.deep_view(), r),
    {
        match cell {
            None => WindDirection::Degrees(None),
            Some(s) => {
                if text_eq(s.as_str(), "VRB") {
                    WindDirection::Variable(Some(String::from_str("VRB")))
                } else {
                    WindDirection::Degrees(parse_int(s.as_str()))
                }
            },
        }
    }

    /// The compass point the wind comes from, "Variable" for a variable
    /// wind, absent for calm or no heading.
    pub fn to_cardinal_direction(&self) -> (r: Option<String>)
        ensures
            r.deep_view() == self.spec_cardinal(),
    {
        match self {
            WindDirection::Degrees(Some(h)) => {
                if *h == 0 {
                    None
                } else {
                    let i = round_div_exec(2 * (*h as i128), 45);
                    if i < 0 || i > 16 {
                        None
                    } else {
                        Some(compass_point_exec(i))
                    }
                }
            },
            WindDirection::Degrees(None) => None,
            WindDirection::Variable(_) => Some(String::from_str("Variable")),
        }
    }
}

} // verus!
