//! Turning a body so that its underside faces a point.

use vstd::prelude::*;
use crate::vector::{lemma_cross_bound, Vec3, V3, UNIT};

verus! {

/// Three directions at right angles, up to rounding: where the three axes of
/// a body point.
#[derive(Clone, Copy, PartialEq, Eq, Structural, Debug)]
pub struct Basis {
    pub x_axis: Vec3,
    pub y_axis: Vec3,
    pub z_axis: Vec3,
}

/// The axes of a body at `translation` whose underside faces `target` and
/// whose back faces along `forward`: to the right, up and ahead. `None` where
/// there are no such axes: with the body at the target, or with `forward` on
/// the line through both.
pub open spec fn down_axes(translation: V3, target: V3, forward: V3) -> Option<(V3, V3, V3)> {
    match translation.minus(target).normalize() {
        Some(up) => match up.cross(forward).normalize() {
            Some(right) => match right.cross(up).normalize() {
                Some(ahead) => Some((right, up, ahead)),
                None => None,
            },
            None => None,
        },
        None => None,
    }
}

/// The axes of a body at `translation` whose underside faces `target` and
/// whose back faces along `forward`.
pub fn set_down(translation: &Vec3, target: &Vec3, forward: &Vec3) -> (basis: Option<Basis>)
    requires
        translation.in_world(),
        target.in_world(),
        forward@.within(UNIT as int),
    ensures
        match basis {
            Some(b) => down_axes(translation@, target@, forward@) == Some(
                (b.x_axis@, b.y_axis@, b.z_axis@),
            ) && b.x_axis@.is_unit() && b.y_axis@.is_unit() && b.z_axis@.is_unit(),
            None => down_axes(translation@, target@, forward@) is None,
        },
{
    let up: Vec3 = match translation.minus(target).normalized() {
        Some(v) => v,
        None => { return None; },
    };
    proof {
        lemma_cross_bound(up@, forward@, UNIT as int, UNIT as int);
    }
    let right: Vec3 = match up.cross(forward).normalized() {
        Some(v) => v,
        None => { return None; },
    };
    proof {
        lemma_cross_bound(right@, up@, UNIT as int, UNIT as int);
    }
    match right.cross(&up).normalized() {
        Some(ahead) => Some(Basis { x_axis: right, y_axis: up, z_axis: ahead }),
        None => None,
    }
}

} // verus!
