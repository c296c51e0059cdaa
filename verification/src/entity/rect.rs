use vstd::prelude::*;

verus! {

/// A region of the plane that can answer membership queries.
pub trait Region<T> {
    /// What membership means for this region.
    spec fn contains_spec(&self, x: T, y: T) -> bool;

    fn contains(&self, x: T, y: T) -> (r: bool)
        ensures
            r == self.contains_spec(x, y),
    ;
}

/// An axis-aligned rectangle given by its top-left corner and its strictly
/// positive width and height. `right` and `bottom` are inclusive bounds.
#[derive(Copy, Clone, Debug, PartialEq, Eq, Structural)]
pub struct Rect {
    left: i32,
    top: i32,
    width: u32,
    height: u32,
}

/// A top-left corner awaiting a size; `Rect::at(x, y).of_size(w, h)` builds
/// the rectangle.
#[derive(Copy, Clone, Debug, PartialEq, Eq, Structural)]
pub struct RectPosition {
    left: i32,
    top: i32,
}

impl Rect {
    /// Both dimensions are strictly positive and small enough that the
    /// inclusive right and bottom bounds still fit in `i32`.
    #[verifier::type_invariant]
    pub closed spec fn wf(&self) -> bool {
        &&& 1 <= self.width <= i32::MAX
        &&& 1 <= self.height <= i32::MAX
        &&& self.left + self.width - 1 <= i32::MAX
        &&& self.top + self.height - 1 <= i32::MAX
    }

    pub closed spec fn left_spec(&self) -> int {
        self.left as int
    }

    pub closed spec fn top_spec(&self) -> int {
        self.top as int
    }

    pub closed spec fn width_spec(&self) -> int {
        self.width as int
    }

    pub closed spec fn height_spec(&self) -> int {
        self.height as int
    }

    pub open spec fn right_spec(&self) -> int {
        self.left_spec() + self.width_spec() - 1
    }

    pub open spec fn bottom_spec(&self) -> int {
        self.top_spec() + self.height_spec() - 1
    }

    /// The overlap of two rectangles: the largest rectangle contained in
    /// both, or `None` when the bounds leave no shared area.
    pub closed spec fn intersect_spec(a: Rect, b: Rect) -> Option<Rect> {
        let left = vstd::math::max(a.left_spec(), b.left_spec());
        let top = vstd::math::max(a.top_spec(), b.top_spec());
        let right = vstd::math::min(a.right_spec(), b.right_spec());
        let bottom = vstd::math::min(a.bottom_spec(), b.bottom_spec());
        if right < left || bottom < top {
            None
        } else {
            Some(
                Rect {
                    left: left as i32,
                    top: top as i32,
                    width: (right - left + 1) as u32,
                    height: (bottom - top + 1) as u32,
                },
            )
        }
    }

    pub fn at(x: i32, y: i32) -> (r: RectPosition)
        ensures
            r.left_spec() == x,
            r.top_spec() == y,
    {
        RectPosition { left: x, top: y }
    }

    pub fn top(&self) -> (r: i32)
        ensures
            r == self.top_spec(),
    {
        self.top
    }

    pub fn left(&self) -> (r: i32)
        ensures
            r == self.left_spec(),
    {
        self.left
    }

    pub fn bottom(&self) -> (r: i32)
        ensures
            r == self.bottom_spec(),
    {
        proof {
            use_type_invariant(self);
        }
        self.top + (self.height as i32 - 1)
    }

    pub fn right(&self) -> (r: i32)
        ensures
            r == self.right_spec(),
    {
        proof {
            use_type_invariant(self);
        }
        self.left + (self.width as i32 - 1)
    }

    pub fn width(&self) -> (r: u32)
        ensures
            r == self.width_spec(),
            1 <= r <= i32::MAX,
    {
        proof {
            use_type_invariant(self);
        }
        self.width
    }

    pub fn height(&self) -> (r: u32)
        ensures
            r == self.height_spec(),
            1 <= r <= i32::MAX,
    {
        proof {
            use_type_invariant(self);
        }
        self.height
    }

    pub fn intersect(&self, other: Rect) -> (r: Option<Rect>)
        ensures
            r == Rect::intersect_spec(*self, other),
            r matches Some(c) ==> {
                &&& c.wf()
                &&& c.left_spec() == vstd::math::max(self.left_spec(), other.left_spec())
                &&& c.top_spec() == vstd::math::max(self.top_spec(), other.top_spec())
                &&& c.right_spec() == vstd::math::min(self.right_spec(), other.right_spec())
                &&& c.bottom_spec() == vstd::math::min(self.bottom_spec(), other.bottom_spec())
            },
            r is None <==> (vstd::math::min(self.right_spec(), other.right_spec()) < vstd::math::max(
                self.left_spec(),
                other.left_spec(),
            ) || vstd::math::min(self.bottom_spec(), other.bottom_spec()) < vstd::math::max(
                self.top_spec(),
                other.top_spec(),
            )),
    {
        proof {
            use_type_invariant(self);
            use_type_invariant(&other);
        }
        let left = if self.left >= other.left {
            self.left
        } else {
            other.left
        };
        let top = if self.top >= other.top {
            self.top
        } else {
            other.top
        };
        let self_right = self.right();
        let other_right = other.right();
        let right = if self_right <= other_right {
            self_right
        } else {
            other_right
        };
        let self_bottom = self.bottom();
        let other_bottom = other.bottom();
        let bottom = if self_bottom <= other_bottom {
            self_bottom
        } else {
            other_bottom
        };
        if right < left || bottom < top {
            return None;
        }
        Some(
            Rect {
                left,
                top,
                width: (right - left) as u32 + 1,
                height: (bottom - top) as u32 + 1,
            },
        )
    }

    /// A point lies in the rectangle when it lies within all four inclusive
    /// bounds.
    pub open spec fn covers(&self, x: int, y: int) -> bool {
        self.left_spec() <= x <= self.right_spec() && self.top_spec() <= y <= self.bottom_spec()
    }
}

impl RectPosition {
    pub closed spec fn left_spec(&self) -> int {
        self.left as int
    }

    pub closed spec fn top_spec(&self) -> int {
        self.top as int
    }

    pub fn of_size(self, width: u32, height: u32) -> (r: Rect)
        requires
            1 <= width <= i32::MAX,
            1 <= height <= i32::MAX,
            self.left_spec() + width - 1 <= i32::MAX,
            self.top_spec() + height - 1 <= i32::MAX,
        ensures
            r.wf(),
            r.left_spec() == self.left_spec(),
            r.top_spec() == self.top_spec(),
            r.width_spec() == width,
            r.height_spec() == height,
    {
        Rect { left: self.left, top: self.top, width, height }
    }
}

impl Region<i32> for Rect {
    open spec fn contains_spec(&self, x: i32, y: i32) -> bool {
        self.covers(x as int, y as int)
    }

    fn contains(&self, x: i32, y: i32) -> (r: bool) {
        proof {
            use_type_invariant(self);
        }
        self.left <= x && x <= self.right() && self.top <= y && y <= self.bottom()
    }
}

/// Intersection does not depend on the order of its arguments.
pub proof fn lemma_intersect_commutative(a: Rect, b: Rect)
    ensures
        Rect::intersect_spec(a, b) == Rect::intersect_spec(b, a),
{
}

/// A rectangle overlapped with itself is itself.
pub proof fn lemma_intersect_self(a: Rect)
    requires
        a.wf(),
    ensures
        Rect::intersect_spec(a, a) == Some(a),
{
}

/// Two rectangles that share no point have no overlap.
pub proof fn lemma_intersect_disjoint(a: Rect, b: Rect)
    requires
        forall|x: int, y: int| !(a.covers(x, y) && b.covers(x, y)),
    ensures
        Rect::intersect_spec(a, b) is None,
{
    let left = vstd::math::max(a.left_spec(), b.left_spec());
    let top = vstd::math::max(a.top_spec(), b.top_spec());
    let right = vstd::math::min(a.right_spec(), b.right_spec());
    let bottom = vstd::math::min(a.bottom_spec(), b.bottom_spec());
    if left <= right && top <= bottom {
        assert(a.covers(left, top) && b.covers(left, top));
    }
}

/// The overlap, when it exists, holds exactly the points the two rectangles
/// share.
pub proof fn lemma_intersect_covers(a: Rect, b: Rect, x: int, y: int)
    requires
        Rect::intersect_spec(a, b) matches Some(c),
    ensures
        Rect::intersect_spec(a, b).unwrap().covers(x, y) <==> a.covers(x, y) && b.covers(x, y),
{
}

} // verus!
