//! Rectangles with whole-number sides.

use vstd::prelude::*;

verus! {

/// A rectangle, by its width and its height.
#[derive(Clone, Copy, Debug, PartialEq, Eq)]
pub struct Rectangle {
    pub width: u32,
    pub height: u32,
}

impl Rectangle {
    /// The area as a number without bound.
    pub open spec fn spec_area(self) -> nat {
        (self.width * self.height) as nat
    }

    /// Whether a rectangle of the size of `other` fits in `self`: it is
    /// neither wider nor higher. A rectangle holds its like.
    pub open spec fn spec_can_hold(self, other: Rectangle) -> bool {
        self.width >= other.width && self.height >= other.height
    }

    /// The area, which must fit in `u32`.
    pub fn area(&self) -> (area: u32)
        requires
            self.spec_area() <= u32::MAX,
        ensures
            area == self.spec_area(),
    {
        self.width * self.height
    }

    /// Whether a rectangle of the size of `other` fits in `self`.
    pub fn can_hold(&self, other: &Rectangle) -> (fits: bool)
        ensures
            fits == self.spec_can_hold(*other),
    {
        self.width >= other.width && self.height >= other.height
    }

    /// The square with sides of length `size`.
    pub fn square(size: u32) -> (square: Rectangle)
        ensures
            square == (Rectangle { width: size, height: size }),
    {
        Rectangle { width: size, height: size }
    }

    /// The area of a rectangle that can hold another is no smaller than the
    /// area of the other.
    pub proof fn lemma_holder_is_no_smaller(self, other: Rectangle)
        requires
            self.spec_can_hold(other),
        ensures
            self.spec_area() >= other.spec_area(),
    {
        assert(self.width * self.height >= other.width * other.height) by (nonlinear_arith)
            requires
                self.width >= other.width >= 0,
                self.height >= other.height >= 0,
        ;
    }
}

} // verus!
