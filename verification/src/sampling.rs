//! Random value generation, an external collaborator producing values on
//! demand. Nothing can be promised of an individual draw; what can be said
//! of every outcome — the range a bounded draw lies in, the alphabet and
//! length of a generated password — is stated and proved.

use vstd::prelude::*;
use rand::Rng;

verus! {

pub assume_specification<T>[ rand::random::<T> ]() -> (r: T)
    where
        rand::distributions::Standard: rand::distributions::Distribution<T>,
;

/// A point in the plane.
#[derive(PartialEq, Eq, Structural, Clone, Copy, Debug)]
pub struct Point {
    pub x: i32,
    pub y: i32,
}

/// A point with both coordinates drawn at random.
pub fn rand_point() -> (r: Point) {
    let x = rand::random::<i32>();
    let y = rand::random::<i32>();
    Point { x, y }
}

/// One random value of each unsigned width.
pub fn gen_random() -> (r: (u8, u16, u32, u64)) {
    (rand::random::<u8>(), rand::random::<u16>(), rand::random::<u32>(), rand::random::<u64>())
}

/// Relies on rand::Rng::gen_range over `lo..hi`: the sample lies in the
/// half-open range; the empty range is excluded because it panics.
#[verifier::external_body]
fn random_in_range(lo: u64, hi: u64) -> (r: u64)
    requires
        lo < hi,
    ensures
        lo <= r < hi,
{
    rand::thread_rng().gen_range(lo..hi)
}

/// A random value in the half-open range `[0, 10)`.
pub fn gen_random_in_range() -> (r: u64)
    ensures
        r < 10,
{
    random_in_range(0, 10)
}

/// An ASCII letter or digit.
pub open spec fn is_alnum(b: u8) -> bool {
    (48 <= b <= 57) || (65 <= b <= 90) || (97 <= b <= 122)
}

/// Relies on rand::distributions::Alphanumeric: every sampled byte is one
/// of the 62 ASCII letters and digits.
#[verifier::external_body]
fn random_alnum_byte() -> (r: u8)
    ensures
        is_alnum(r),
{
    rand::thread_rng().sample(rand::distributions::Alphanumeric)
}

/// A random password: exactly `len` bytes, every one an ASCII letter or
/// digit.
pub fn rand_passwd(len: usize) -> (r: Vec<u8>)
    ensures
        r@.len() == len,
        forall|i: int| 0 <= i < r@.len() ==> is_alnum(#[trigger] r@[i]),
{
    let mut r: Vec<u8> = Vec::new();
    let mut i: usize = 0;
    while i < len
        invariant
            0 <= i <= len,
            r@.len() == i,
            forall|t: int| 0 <= t < r@.len() ==> is_alnum(#[trigger] r@[t]),
        decreases len - i,
    {
        r.push(random_alnum_byte());
        i += 1;
    }
    r
}

} // verus!
