//! Small exercises on values, strings, vectors and operators.
use vstd::prelude::*;
use vstd::string::StringExecFns;
use vstd::string::StringSliceAdditionalSpecFns;

verus! {

/// The largest number of a non-empty list.
pub fn get_largest(number_list: Vec<i32>) -> (r: i32)
    requires
        number_list@.len() > 0,
    ensures
        number_list@.contains(r),
        forall|i: int| 0 <= i < number_list@.len() ==> number_list@[i] <= r,
{
    let mut largest = number_list[0];
    let mut i: usize = 1;
    while i < number_list.len()
        invariant
            1 <= i <= number_list@.len(),
            number_list@.contains(largest),
            forall|j: int| 0 <= j < i ==> number_list@[j] <= largest,
        decreases number_list@.len() - i,
    {
        if number_list[i] > largest {
            largest = number_list[i];
        }
        i = i + 1;
    }
    largest
}

/// The longer of two strings by byte length; `y` on a tie.
pub fn longer_str<'a>(x: &'a str, y: &'a str) -> (r: &'a str)
    ensures
        r == if x.len() > y.len() {
            x
        } else {
            y
        },
{
    if x.len() > y.len() {
        x
    } else {
        y
    }
}

/// The byte length of a string.
pub fn calculate_length_with_ref(some_string: &String) -> (r: usize)
    ensures
        r == vstd::utf8::encode_utf8(some_string@).len() as usize,
{
    some_string.as_str().len()
}

/// The byte index of the first space in `bytes`, or its length if it has none.
pub open spec fn first_space(bytes: Seq<u8>) -> int
    decreases bytes.len(),
{
    if bytes.len() == 0 {
        0
    } else if bytes[0] == 32u8 {
        0
    } else {
        1 + first_space(bytes.drop_first())
    }
}

/// The byte index where the first word of `s` ends.
pub fn first_word_without_slice(s: &String) -> (r: usize)
    ensures
        r == first_space(vstd::utf8::encode_utf8(s@)),
{
    let bytes = s.as_str().as_bytes();
    assert(bytes@ == vstd::utf8::encode_utf8(s@));
    let mut i: usize = 0;
    while i < bytes.len()
        invariant
            i <= bytes@.len(),
            bytes@ == vstd::utf8::encode_utf8(s@),
            forall|j: int| 0 <= j < i ==> bytes@[j] != 32u8,
        decreases bytes@.len() - i,
    {
        if bytes[i] == 32u8 {
            assert(bytes@[i as int] == 32u8);
            proof {
                lemma_first_space_at(bytes@, i as int);
            }
            return i;
        }
        i = i + 1;
    }
    proof {
        lemma_first_space_at(bytes@, i as int);
    }
    i
}

proof fn lemma_first_space_at(bytes: Seq<u8>, i: int)
    requires
        0 <= i <= bytes.len(),
        forall|j: int| 0 <= j < i ==> bytes[j] != 32u8,
        i == bytes.len() || bytes[i] == 32u8,
    ensures
        first_space(bytes) == i,
    decreases i,
{
    if i > 0 {
        assert forall|j: int| 0 <= j < i - 1 implies bytes.drop_first()[j] != 32u8 by {
            assert(bytes.drop_first()[j] == bytes[j + 1]);
        }
        lemma_first_space_at(bytes.drop_first(), i - 1);
    }
}

/// One more than the number inside, if there is one.
pub fn demo_match(some_int: Option<i32>) -> (r: Option<i32>)
    requires
        some_int matches Some(i) ==> i < i32::MAX,
    ensures
        r == match some_int {
            Some(i) => Some((i + 1) as i32),
            None => None::<i32>,
        },
{
    match some_int {
        Some(i) => Some(i + 1),
        None => None,
    }
}

/// Builds strings by pushing and by joining.
pub fn demo_string_append() {
    let mut s = String::from_str("foo");
    s.append("bar");
    s.append("!");
    proof {
        reveal_strlit("foo");
        reveal_strlit("bar");
        reveal_strlit("!");
        reveal_strlit("foobar!");
    }
    assert(s@ =~= "foobar!"@);
    let s1 = String::from_str("hello, ");
    let s2 = String::from_str("world");
    let s4 = s1.concat(s2.as_str());
    proof {
        reveal_strlit("hello, ");
        reveal_strlit("world");
        reveal_strlit("hello, world");
    }
    assert(s4@ =~= "hello, world"@);
}

/// Makes owned strings in three ways.
pub fn demo_string_basics() {
    let s1 = String::new();
    let s2 = "initial contents";
    let s3 = s2.to_owned();
    let s4 = String::from_str("initial contents");
    assert(s1@.len() == 0);
    assert(s3@ == s4@);
}

/// Fills a vector by pushing.
pub fn demo_vectors() {
    let mut v1: Vec<i32> = Vec::new();
    v1.push(1);
    v1.push(2);
    v1.push(3);
    let v2: Vec<i32> = vec![1, 2, 3];
    assert(v1@ =~= v2@);
}

/// Assigns through references to the parts of a tuple.
pub fn demo_destructing_assignment() {
    let mut val: (bool, i32, &str) = (true, 2, "three");
    let (a, b, c) = &mut val;
    *a = false;
    *b = 0;
    *c = "zero";
    assert(val.0 == false && val.1 == 0);
    assert(val.2@ == "zero"@);
}

/// A point in the plane.
#[derive(Debug, Clone, Copy, PartialEq, Eq, Structural)]
pub struct Point {
    pub x: i32,
    pub y: i32,
}

impl Point {
    /// The sum, coordinate by coordinate.
    pub fn plus(self, other: Point) -> (r: Point)
        requires
            i32::MIN <= self.x + other.x <= i32::MAX,
            i32::MIN <= self.y + other.y <= i32::MAX,
        ensures
            r.x == self.x + other.x,
            r.y == self.y + other.y,
    {
        Point { x: self.x + other.x, y: self.y + other.y }
    }
}

/// Adds two points coordinate by coordinate.
pub fn demo_operator_overloading() {
    let p = Point { x: 1, y: 0 }.plus(Point { x: 2, y: 3 });
    assert(p == Point { x: 3, y: 3 });
}

/// A length in millimetres.
#[derive(Debug, Clone, Copy, PartialEq, Eq, Structural)]
pub struct Millimeters(pub u32);

/// A length in metres.
#[derive(Debug, Clone, Copy, PartialEq, Eq, Structural)]
pub struct Meters(pub u32);

impl Millimeters {
    /// This length plus `other`, in millimetres.
    pub fn plus_meters(self, other: Meters) -> (r: Millimeters)
        requires
            self.0 + other.0 * 1000 <= u32::MAX,
        ensures
            r.0 == self.0 + other.0 * 1000,
    {
        Millimeters(self.0 + other.0 * 1000)
    }
}

/// Adds metres to millimetres.
pub fn demo_default_type_parameter() {
    let r = Millimeters(1000).plus_meters(Meters(1));
    assert(r == Millimeters(2000));
}

/// A box that hands out a reference to what it holds.
pub struct MyBox<T>(T);

impl<T> MyBox<T> {
    /// The held value.
    pub closed spec fn inner(&self) -> T {
        self.0
    }

    /// Boxes `x`.
    pub fn new(x: T) -> (r: MyBox<T>)
        ensures
            r.inner() == x,
    {
        MyBox(x)
    }

    /// A reference to the held value.
    pub fn get(&self) -> (r: &T)
        ensures
            *r == self.inner(),
    {
        &self.0
    }
}

/// Reaches a boxed value through a reference.
pub fn demo_deref() {
    let x: i32 = 5;
    let y = MyBox::new(x);
    assert(x == 5);
    let inside = y.get();
    assert(*inside == 5);
}

} // verus!
