use vstd::prelude::*;

verus! {

/// A generic two-dimensional coordinate.
#[derive(Copy, Clone, Debug, PartialEq, Eq, Structural)]
pub struct Point<T> {
    pub x: T,
    pub y: T,
}

impl<T> Point<T> {
    pub fn new(x: T, y: T) -> (p: Point<T>)
        ensures
            p.x == x,
            p.y == y,
    {
        Point::<T> { x, y }
    }
}

impl Point<i32> {
    pub fn to_i32(&self) -> (p: Point<i32>)
        ensures
            p == *self,
    {
        Point::new(self.x, self.y)
    }
}

impl Point<u32> {
    pub fn to_i32(&self) -> (p: Point<i32>)
        requires
            self.x <= i32::MAX,
            self.y <= i32::MAX,
        ensures
            p.x == self.x,
            p.y == self.y,
    {
        Point::new(self.x as i32, self.y as i32)
    }
}

impl Point<i64> {
    pub fn to_i32(&self) -> (p: Point<i32>)
        requires
            i32::MIN <= self.x <= i32::MAX,
            i32::MIN <= self.y <= i32::MAX,
        ensures
            p.x == self.x,
            p.y == self.y,
    {
        Point::new(self.x as i32, self.y as i32)
    }
}

} // verus!
