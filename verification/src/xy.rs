//! Terminal coordinates.

use crate::text::{decimal, decimal_string};
use core::cmp::Ordering;
use vstd::prelude::*;
use vstd::std_specs::cmp::PartialOrdSpecImpl;
use vstd::std_specs::convert::FromSpecImpl;
use vstd::std_specs::convert::TryFromSpecImpl;
use vstd::std_specs::ops::AddSpecImpl;
use vstd::std_specs::ops::SubSpecImpl;

verus! {

/// A terminal cell offset or extent.
///
/// Sums and differences saturate at the ends of the range, so a coordinate
/// never wraps around the screen.
#[derive(Debug, Copy, Clone, PartialEq, Eq, Structural, Ord, Hash)]
pub struct XY(pub u16);

impl XY {
    /// The coordinate `n`.
    pub fn new(n: u16) -> (r: XY)
        ensures
            r == XY(n),
    {
        XY(n)
    }

    /// The number of cells this coordinate stands for.
    pub fn cells(self) -> (n: u16)
        ensures
            n == self.0,
    {
        self.0
    }

    /// The coordinate nearest to `n`: `n` itself where it fits, the largest
    /// coordinate otherwise.
    pub fn clamped(n: usize) -> (r: XY)
        ensures
            r.0 == if n > u16::MAX { u16::MAX as int } else { n as int },
    {
        if n > u16::MAX as usize {
            XY(u16::MAX)
        } else {
            XY(n as u16)
        }
    }

    /// The coordinate written as a decimal number.
    pub fn to_text(&self) -> (text: String)
        ensures
            text@ == decimal(self.0 as nat),
    {
        decimal_string(self.0 as u128)
    }

    /// The sum of two coordinates, held at the largest coordinate.
    pub open spec fn plus(self, rhs: XY) -> XY {
        XY(self.0.saturating_add(rhs.0))
    }

    /// The difference of two coordinates, held at zero.
    pub open spec fn minus(self, rhs: XY) -> XY {
        XY(self.0.saturating_sub(rhs.0))
    }
}

impl PartialOrd for XY {
    /// Coordinates are ordered as their numbers are.
    fn partial_cmp(&self, other: &XY) -> (r: Option<Ordering>) {
        if self.0 < other.0 {
            Some(Ordering::Less)
        } else if self.0 == other.0 {
            Some(Ordering::Equal)
        } else {
            Some(Ordering::Greater)
        }
    }
}

impl PartialOrdSpecImpl for XY {
    open spec fn obeys_partial_cmp_spec() -> bool {
        true
    }

    open spec fn partial_cmp_spec(&self, other: &XY) -> Option<Ordering> {
        if self.0 < other.0 {
            Some(Ordering::Less)
        } else if self.0 == other.0 {
            Some(Ordering::Equal)
        } else {
            Some(Ordering::Greater)
        }
    }
}

impl Default for XY {
    fn default() -> (r: XY)
        ensures
            r == XY(0),
    {
        XY(0)
    }
}

impl From<u16> for XY {
    fn from(n: u16) -> (r: XY) {
        XY(n)
    }
}

impl FromSpecImpl<u16> for XY {
    open spec fn obeys_from_spec() -> bool {
        true
    }

    open spec fn from_spec(n: u16) -> XY {
        XY(n)
    }
}

impl From<XY> for usize {
    fn from(c: XY) -> (r: usize) {
        c.0 as usize
    }
}

impl FromSpecImpl<XY> for usize {
    open spec fn obeys_from_spec() -> bool {
        true
    }

    open spec fn from_spec(c: XY) -> usize {
        c.0 as usize
    }
}

impl TryFrom<usize> for XY {
    type Error = core::num::TryFromIntError;

    fn try_from(n: usize) -> (r: Result<XY, core::num::TryFromIntError>) {
        match u16::try_from(n) {
            Ok(v) => Ok(XY(v)),
            Err(e) => Err(e),
        }
    }
}

impl TryFromSpecImpl<usize> for XY {
    open spec fn obeys_try_from_spec() -> bool {
        true
    }

    open spec fn try_from_spec(n: usize) -> Result<XY, core::num::TryFromIntError> {
        if n <= u16::MAX {
            Ok(XY(n as u16))
        } else {
            Err(arbitrary())
        }
    }
}

impl core::ops::Add for XY {
    type Output = XY;

    fn add(self, rhs: XY) -> (r: XY) {
        XY(self.0.saturating_add(rhs.0))
    }
}

impl AddSpecImpl for XY {
    open spec fn obeys_add_spec() -> bool {
        true
    }

    open spec fn add_req(self, rhs: XY) -> bool {
        true
    }

    open spec fn add_spec(self, rhs: XY) -> XY {
        self.plus(rhs)
    }
}

impl core::ops::Sub for XY {
    type Output = XY;

    fn sub(self, rhs: XY) -> (r: XY) {
        XY(self.0.saturating_sub(rhs.0))
    }
}

impl SubSpecImpl for XY {
    open spec fn obeys_sub_spec() -> bool {
        true
    }

    open spec fn sub_req(self, rhs: XY) -> bool {
        true
    }

    open spec fn sub_spec(self, rhs: XY) -> XY {
        self.minus(rhs)
    }
}

} // verus!
