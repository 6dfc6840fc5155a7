//! Generic points, and borrowing two entries of a slice at once.
use vstd::prelude::*;

verus! {

/// A point whose coordinates may have different types.
pub struct Point<T, U> {
    pub x: T,
    pub y: U,
}

impl<X, Y> Point<X, Y> {
    /// A reference to the first coordinate.
    pub fn get_x(&self) -> (r: &X)
        ensures
            *r == self.x,
    {
        &self.x
    }

    /// The point with the first coordinate of `other` and the second of
    /// this one.
    pub fn mixup<V, W>(self, other: Point<V, W>) -> (r: Point<V, Y>)
        ensures
            r.x == other.x,
            r.y == self.y,
    {
        Point { x: other.x, y: self.y }
    }
}

/// Mutable references to the entries at `i` and `j` when `i < j` and both
/// are in bounds.
pub fn get_two_1<T>(v: &mut [T], i: usize, j: usize) -> (r: Option<(&mut T, &mut T)>)
    ensures
        (i < j < old(v)@.len()) <==> r.is_some(),
        r matches Some(p) ==> {
            &&& *p.0 == old(v)@[i as int]
            &&& *p.1 == old(v)@[j as int]
            &&& final(v)@ == old(v)@.update(i as int, *final(p.0)).update(j as int, *final(p.1))
        },
        r.is_none() ==> final(v)@ == old(v)@,
{
    if i < j && j < v.len() {
        let (a, b) = v.split_at_mut(j);
        Some((&mut a[i], &mut b[0]))
    } else {
        None
    }
}

/// Mutable references to the entries at `i` and `j`, in that order, when
/// both are in bounds and distinct.
pub fn get_two_2<T>(v: &mut [T], i: usize, j: usize) -> (r: Option<(&mut T, &mut T)>)
    ensures
        (i < j < old(v)@.len() || j < i < old(v)@.len()) <==> r.is_some(),
        r matches Some(p) ==> {
            &&& *p.0 == old(v)@[i as int]
            &&& *p.1 == old(v)@[j as int]
            &&& final(v)@ == old(v)@.update(i as int, *final(p.0)).update(j as int, *final(p.1))
        },
        r.is_none() ==> final(v)@ == old(v)@,
{
    if i < j && j < v.len() {
        let (a, b) = v.split_at_mut(j);
        Some((&mut a[i], &mut b[0]))
    } else if j < i && i < v.len() {
        let (a, b) = v.split_at_mut(i);
        Some((&mut b[0], &mut a[j]))
    } else {
        None
    }
}

} // verus!
