//! Box constraints: the bounds a parent offers a child during layout.
//!
//! A constraint holds an optional minimum and maximum per axis. `None` on
//! both bounds of an axis means the child is free to pick any extent there.
//! "Tight" constraints set minimum equal to maximum and force an exact size.
//! Values are kept inside `[0, MAX_DIM]` and `min <= max` on each axis;
//! the builder methods below preserve that shape.

use vstd::prelude::*;

use crate::geometry::{clamp_dim, clamp_dim_exec, dim_sub, valid_dim, Size};

verus! {

#[derive(Clone, Copy, Debug, PartialEq, Eq, Structural)]
pub struct BoxConstraints {
    pub min_width: Option<i64>,
    pub max_width: Option<i64>,
    pub min_height: Option<i64>,
    pub max_height: Option<i64>,
}

/// One optional bound is valid when present values are dimensions.
pub open spec fn bound_wf(b: Option<i64>) -> bool {
    b is Some ==> valid_dim(b->0 as int)
}

/// `min <= max` whenever both bounds of an axis are present.
pub open spec fn axis_ordered(min: Option<i64>, max: Option<i64>) -> bool {
    min is Some && max is Some ==> min->0 <= max->0
}

impl BoxConstraints {
    /// Every present bound is a valid dimension and each axis is ordered.
    pub open spec fn wf(self) -> bool {
        &&& bound_wf(self.min_width)
        &&& bound_wf(self.max_width)
        &&& bound_wf(self.min_height)
        &&& bound_wf(self.max_height)
        &&& axis_ordered(self.min_width, self.max_width)
        &&& axis_ordered(self.min_height, self.max_height)
    }

    /// Both axes carry a maximum.
    pub open spec fn spec_has_max(self) -> bool {
        self.max_width is Some && self.max_height is Some
    }

    /// A size obeys the constraints when it lies inside every present bound.
    pub open spec fn satisfied_by(self, size: Size) -> bool {
        &&& self.min_width is Some ==> self.min_width->0 <= size.width
        &&& self.max_width is Some ==> size.width <= self.max_width->0
        &&& self.min_height is Some ==> self.min_height->0 <= size.height
        &&& self.max_height is Some ==> size.height <= self.max_height->0
    }

    /// The unconstrained constraints: no bound on either axis.
    pub fn new() -> (r: BoxConstraints)
        ensures
            r == (BoxConstraints {
                min_width: None,
                max_width: None,
                min_height: None,
                max_height: None,
            }),
    {
        BoxConstraints { min_width: None, max_width: None, min_height: None, max_height: None }
    }

    pub fn max_width(&self) -> (r: Option<i64>)
        ensures
            r == self.max_width,
    {
        self.max_width
    }

    pub fn max_height(&self) -> (r: Option<i64>)
        ensures
            r == self.max_height,
    {
        self.max_height
    }

    pub fn min_width(&self) -> (r: Option<i64>)
        ensures
            r == self.min_width,
    {
        self.min_width
    }

    pub fn min_height(&self) -> (r: Option<i64>)
        ensures
            r == self.min_height,
    {
        self.min_height
    }

    /// Set the maximum width, clamped into range and raised to any present
    /// minimum so the axis stays ordered.
    pub fn with_max_width(self, max_width: i64) -> (r: BoxConstraints)
        requires
            self.wf(),
        ensures
            r.wf(),
            r.max_width == Some(spec_ordered_max(self.min_width, max_width as int)),
            r.min_width == self.min_width,
            r.min_height == self.min_height,
            r.max_height == self.max_height,
    {
        let clamped = ordered_max_exec(self.min_width, max_width);
        BoxConstraints { max_width: Some(clamped), ..self }
    }

    /// Set the maximum height, clamped into range and raised to any present
    /// minimum so the axis stays ordered.
    pub fn with_max_height(self, max_height: i64) -> (r: BoxConstraints)
        requires
            self.wf(),
        ensures
            r.wf(),
            r.max_height == Some(spec_ordered_max(self.min_height, max_height as int)),
            r.min_height == self.min_height,
            r.min_width == self.min_width,
            r.max_width == self.max_width,
    {
        let clamped = ordered_max_exec(self.min_height, max_height);
        BoxConstraints { max_height: Some(clamped), ..self }
    }

    /// Set the minimum width, clamped into range and lowered to any present
    /// maximum so the axis stays ordered.
    pub fn with_min_width(self, min_width: i64) -> (r: BoxConstraints)
        requires
            self.wf(),
        ensures
            r.wf(),
            r.min_width == Some(spec_ordered_min(self.max_width, min_width as int)),
            r.max_width == self.max_width,
            r.min_height == self.min_height,
            r.max_height == self.max_height,
    {
        let clamped = ordered_min_exec(self.max_width, min_width);
        BoxConstraints { min_width: Some(clamped), ..self }
    }

    /// Set the minimum height, clamped into range and lowered to any present
    /// maximum so the axis stays ordered.
    pub fn with_min_height(self, min_height: i64) -> (r: BoxConstraints)
        requires
            self.wf(),
        ensures
            r.wf(),
            r.min_height == Some(spec_ordered_min(self.max_height, min_height as int)),
            r.max_height == self.max_height,
            r.min_width == self.min_width,
            r.max_width == self.max_width,
    {
        let clamped = ordered_min_exec(self.max_height, min_height);
        BoxConstraints { min_height: Some(clamped), ..self }
    }

    /// Tight constraints: minimum and maximum equal on both axes, forcing
    /// the exact size `(width, height)` (clamped into range).
    pub fn with_tight_constraints(self, width: i64, height: i64) -> (r: BoxConstraints)
        ensures
            r.wf(),
            r.min_width == Some(clamp_dim(width as int) as i64),
            r.max_width == Some(clamp_dim(width as int) as i64),
            r.min_height == Some(clamp_dim(height as int) as i64),
            r.max_height == Some(clamp_dim(height as int) as i64),
            r.spec_has_max(),
    {
        let w = clamp_dim_exec(width);
        let h = clamp_dim_exec(height);
        BoxConstraints {
            min_width: Some(w),
            max_width: Some(w),
            min_height: Some(h),
            max_height: Some(h),
        }
    }

    /// Shrink the maxima by `(dw, dh)`, flooring at zero; present minima are
    /// capped at the reduced maxima so each axis stays ordered. Used by
    /// containers to reserve space for padding, margin and border.
    pub fn shrunk(self, dw: i64, dh: i64) -> (r: BoxConstraints)
        requires
            self.wf(),
            valid_dim(dw as int),
            valid_dim(dh as int),
        ensures
            r.wf(),
            r == spec_shrunk(self, dw as int, dh as int),
    {
        let max_width = match self.max_width {
            Some(m) => Some(dim_sub(m, dw)),
            None => None,
        };
        let max_height = match self.max_height {
            Some(m) => Some(dim_sub(m, dh)),
            None => None,
        };
        let min_width = match (self.min_width, max_width) {
            (Some(mn), Some(mx)) => Some(if mn <= mx { mn } else { mx }),
            (mn, _) => mn,
        };
        let min_height = match (self.min_height, max_height) {
            (Some(mn), Some(mx)) => Some(if mn <= mx { mn } else { mx }),
            (mn, _) => mn,
        };
        BoxConstraints { min_width, max_width, min_height, max_height }
    }

    /// Whether both axes are bounded from above. Flex containers and other
    /// viewport-filling widgets demand this before distributing space.
    pub fn has_max(&self) -> (r: bool)
        ensures
            r == self.spec_has_max(),
    {
        self.max_width.is_some() && self.max_height.is_some()
    }
}

/// The maximum bound that `with_max_width`/`with_max_height` store: the
/// requested value clamped into range, then raised to the present minimum.
pub open spec fn spec_ordered_max(min: Option<i64>, requested: int) -> i64 {
    let clamped = clamp_dim(requested);
    if min is Some && min->0 > clamped {
        min->0
    } else {
        clamped as i64
    }
}

/// The minimum bound that `with_min_width`/`with_min_height` store: the
/// requested value clamped into range, then lowered to the present maximum.
pub open spec fn spec_ordered_min(max: Option<i64>, requested: int) -> i64 {
    let clamped = clamp_dim(requested);
    if max is Some && max->0 < clamped {
        max->0
    } else {
        clamped as i64
    }
}

/// What `shrunk` returns: maxima reduced and floored at zero, minima capped
/// at the new maxima.
pub open spec fn spec_shrunk(c: BoxConstraints, dw: int, dh: int) -> BoxConstraints {
    let max_width = match c.max_width {
        Some(m) => Some(clamp_dim(m - dw) as i64),
        None => None,
    };
    let max_height = match c.max_height {
        Some(m) => Some(clamp_dim(m - dh) as i64),
        None => None,
    };
    let min_width = match (c.min_width, max_width) {
        (Some(mn), Some(mx)) => Some(if mn <= mx { mn } else { mx }),
        (mn, _) => mn,
    };
    let min_height = match (c.min_height, max_height) {
        (Some(mn), Some(mx)) => Some(if mn <= mx { mn } else { mx }),
        (mn, _) => mn,
    };
    BoxConstraints { min_width, max_width, min_height, max_height }
}

fn ordered_max_exec(min: Option<i64>, requested: i64) -> (r: i64)
    requires
        bound_wf(min),
    ensures
        r == spec_ordered_max(min, requested as int),
        valid_dim(r as int),
        min is Some ==> min->0 <= r,
{
    let clamped = clamp_dim_exec(requested);
    match min {
        Some(mn) => if mn > clamped {
            mn
        } else {
            clamped
        },
        None => clamped,
    }
}

fn ordered_min_exec(max: Option<i64>, requested: i64) -> (r: i64)
    requires
        bound_wf(max),
    ensures
        r == spec_ordered_min(max, requested as int),
        valid_dim(r as int),
        max is Some ==> r <= max->0,
{
    let clamped = clamp_dim_exec(requested);
    match max {
        Some(mx) => if mx < clamped {
            mx
        } else {
            clamped
        },
        None => clamped,
    }
}

} // verus!
