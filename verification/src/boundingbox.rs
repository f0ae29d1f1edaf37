//! Axis-aligned boxes.

use vstd::prelude::*;
use crate::scalar::Vec3;

verus! {

/// The box between two corners.
#[derive(Debug, Copy, Clone)]
pub struct BoundingBox {
    min_point: Vec3,
    max_point: Vec3,
}

impl BoundingBox {
    /// The corner with the smallest coordinates.
    pub closed spec fn low(self) -> Vec3 {
        self.min_point
    }

    /// The corner with the largest coordinates.
    pub closed spec fn high(self) -> Vec3 {
        self.max_point
    }

    /// A point lies in the box: each of its coordinates lies between those
    /// of the two corners, the ends included.
    pub open spec fn holds(self, point: Vec3) -> bool {
        &&& self.low().0.at_most(point.0)
        &&& point.0.at_most(self.high().0)
        &&& self.low().1.at_most(point.1)
        &&& point.1.at_most(self.high().1)
        &&& self.low().2.at_most(point.2)
        &&& point.2.at_most(self.high().2)
    }

    /// The box between two corners.
    pub fn new(min_point: Vec3, max_point: Vec3) -> (r: Self)
        ensures
            r.low() == min_point,
            r.high() == max_point,
    {
        BoundingBox { min_point, max_point }
    }

    /// The corner with the smallest coordinates.
    pub fn min_point(&self) -> (r: Vec3)
        ensures
            r == self.low(),
    {
        self.min_point
    }

    /// The corner with the largest coordinates.
    pub fn max_point(&self) -> (r: Vec3)
        ensures
            r == self.high(),
    {
        self.max_point
    }

    /// The eight corners: the corner `4 * k + 2 * j + i` takes x from the
    /// high corner where `i` is 1, y where `j` is 1, z where `k` is 1.
    pub open spec fn corners(self) -> Seq<Vec3> {
        seq![
            Vec3(self.low().0, self.low().1, self.low().2),
            Vec3(self.high().0, self.low().1, self.low().2),
            Vec3(self.low().0, self.high().1, self.low().2),
            Vec3(self.high().0, self.high().1, self.low().2),
            Vec3(self.low().0, self.low().1, self.high().2),
            Vec3(self.high().0, self.low().1, self.high().2),
            Vec3(self.low().0, self.high().1, self.high().2),
            Vec3(self.high().0, self.high().1, self.high().2),
        ]
    }

    /// The eight corners of the box.
    pub fn get_vertices(&self) -> (r: [Vec3; 8])
        ensures
            r@ == self.corners(),
    {
        let r = [
            Vec3(self.min_point.0, self.min_point.1, self.min_point.2),
            Vec3(self.max_point.0, self.min_point.1, self.min_point.2),
            Vec3(self.min_point.0, self.max_point.1, self.min_point.2),
            Vec3(self.max_point.0, self.max_point.1, self.min_point.2),
            Vec3(self.min_point.0, self.min_point.1, self.max_point.2),
            Vec3(self.max_point.0, self.min_point.1, self.max_point.2),
            Vec3(self.min_point.0, self.max_point.1, self.max_point.2),
            Vec3(self.max_point.0, self.max_point.1, self.max_point.2),
        ];
        assert(r@ =~= self.corners());
        r
    }

    /// Whether a point lies in the box.
    pub fn contains(&self, point: Vec3) -> (r: bool)
        ensures
            r == self.holds(point),
    {
        self.min_point.0.le(point.0) && point.0.le(self.max_point.0) && self.min_point.1.le(
            point.1,
        ) && point.1.le(self.max_point.1) && self.min_point.2.le(point.2) && point.2.le(
            self.max_point.2,
        )
    }
}

} // verus!
