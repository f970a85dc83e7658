//! The calls this library makes into other crates and into the parts of std
//! that have no specification of their own, each with the contract that
//! the rest of the library relies on.

use vstd::prelude::*;
use bytes::BufMut;
use rand::seq::SliceRandom;
use std::time::{Duration, Instant};
use crate::types::GossipSeed;

verus! {

// ---------------------------------------------------------------------------
// vec1: the non-empty list of gossip seeds.
// ---------------------------------------------------------------------------

/// `vec1::Vec1`, a `Vec` that always holds at least one element.
#[verifier::external_type_specification]
#[verifier::external_body]
#[verifier::reject_recursive_types(T)]
pub struct ExVec1<T>(vec1::Vec1<T>);

/// `vec1::Size0Error`, returned when a `Vec1` would be empty.
#[verifier::external_type_specification]
#[verifier::external_body]
pub struct ExSize0Error(vec1::Size0Error);

/// The seeds a `Vec1<GossipSeed>` holds, in order.
pub uninterp spec fn seed_list(v: vec1::Vec1<GossipSeed>) -> Seq<GossipSeed>;

/// Calls `vec1::Vec1::try_from_vec`. Its source returns `Err(Size0Error)`
/// exactly when the given vector is empty, and otherwise wraps the vector
/// unchanged.
#[verifier::external_body]
pub fn seeds_from_vec(v: Vec<GossipSeed>) -> (r: Result<vec1::Vec1<GossipSeed>, vec1::Size0Error>)
    ensures
        r is Ok <==> v@.len() > 0,
        r matches Ok(s) ==> seed_list(s) == v@,
{
    vec1::Vec1::try_from_vec(v)
}

/// Calls `vec1::Vec1::as_vec` and clones the vector it borrows. The clone
/// of a vector of `Copy` seeds holds the same seeds, and a `Vec1` is never
/// empty.
#[verifier::external_body]
pub fn seeds_to_vec(v: &vec1::Vec1<GossipSeed>) -> (r: Vec<GossipSeed>)
    ensures
        r@ == seed_list(*v),
        r@.len() > 0,
{
    v.as_vec().clone()
}

// ---------------------------------------------------------------------------
// rand: shuffling.
// ---------------------------------------------------------------------------

/// Calls `rand::seq::SliceRandom::shuffle` with `rand::thread_rng()`. The
/// order that comes out is random; its source only swaps elements, so the
/// vector keeps the same elements, each as often as before.
#[verifier::external_body]
pub fn shuffle<T>(v: &mut Vec<T>)
    ensures
        final(v)@.to_multiset() == old(v)@.to_multiset(),
        final(v)@.len() == old(v)@.len(),
{
    let mut rng = rand::thread_rng();
    v.as_mut_slice().shuffle(&mut rng);
}

// ---------------------------------------------------------------------------
// uuid: identifiers, as their 128-bit values.
// ---------------------------------------------------------------------------

/// The value of the UUID that `uuid::Uuid::parse_str` reads from a text, if
/// it accepts the text.
pub uninterp spec fn uuid_parse(s: Seq<char>) -> Option<u128>;

/// Calls `uuid::Uuid::parse_str` and takes the parsed UUID as its 128-bit
/// value (`as_u128`). What the parser accepts is not restated here: the
/// result is the name `uuid_parse` applied to the text.
#[verifier::external_body]
pub fn parse_uuid(s: &str) -> (r: Option<u128>)
    ensures
        r == uuid_parse(s@),
{
    match uuid::Uuid::parse_str(s) {
        Ok(u) => Some(u.as_u128()),
        Err(_) => None,
    }
}

/// Calls `uuid::Uuid::new_v4` and takes the new UUID as its 128-bit value.
/// The value is random: nothing is promised of it.
#[verifier::external_body]
pub fn fresh_uuid() -> u128 {
    uuid::Uuid::new_v4().as_u128()
}

// ---------------------------------------------------------------------------
// bytes: the output buffer.
// ---------------------------------------------------------------------------

/// `bytes::BytesMut`, a growable byte buffer.
#[verifier::external_type_specification]
#[verifier::external_body]
pub struct ExBytesMut(bytes::BytesMut);

/// The bytes a `BytesMut` holds, in order.
pub uninterp spec fn buffer_contents(b: bytes::BytesMut) -> Seq<u8>;

/// Calls `bytes::BytesMut::new`, which makes an empty buffer.
#[verifier::external_body]
pub fn buffer_new() -> (r: bytes::BytesMut)
    ensures
        buffer_contents(r) == Seq::<u8>::empty(),
{
    bytes::BytesMut::new()
}

/// Calls `bytes::BufMut::put_u8` on a `BytesMut`, which appends the byte,
/// growing the buffer as needed (the growth panics only past `isize::MAX`
/// bytes, which `requires` leaves out).
#[verifier::external_body]
pub fn put_u8(b: &mut bytes::BytesMut, n: u8)
    requires
        buffer_contents(*old(b)).len() < isize::MAX,
    ensures
        buffer_contents(*final(b)) == buffer_contents(*old(b)).push(n),
{
    b.put_u8(n)
}

/// Calls `bytes::BufMut::put_slice` on a `BytesMut`, which appends the
/// bytes in order, growing the buffer as needed.
#[verifier::external_body]
pub fn put_slice(b: &mut bytes::BytesMut, s: &[u8])
    requires
        buffer_contents(*old(b)).len() + s@.len() <= isize::MAX,
    ensures
        buffer_contents(*final(b)) == buffer_contents(*old(b)) + s@,
{
    b.put_slice(s)
}

/// Calls `<bytes::BytesMut as AsRef<[u8]>>::as_ref`, which gives the bytes
/// the buffer holds, in order.
#[verifier::external_body]
pub fn buffer_bytes(b: &bytes::BytesMut) -> (r: &[u8])
    ensures
        r@ == buffer_contents(*b),
{
    b.as_ref()
}

// ---------------------------------------------------------------------------
// serde_json: custom metadata values.
// ---------------------------------------------------------------------------

/// `serde_json::Value`, a JSON value, carried as it is.
#[verifier::external_type_specification]
#[verifier::external_body]
pub struct ExJsonValue(serde_json::Value);

// ---------------------------------------------------------------------------
// std::time: durations and the clock.
// ---------------------------------------------------------------------------

/// `std::time::Instant`, a reading of the monotonic clock.
#[verifier::external_type_specification]
#[verifier::external_body]
pub struct ExInstant(Instant);

/// The length of a `Duration` in nanoseconds, as `Duration::as_nanos`
/// gives it.
pub uninterp spec fn duration_nanos(d: Duration) -> nat;

/// Calls `std::time::Duration::from_millis`; as documented, the duration is
/// that many milliseconds long.
#[verifier::external_body]
pub fn duration_from_millis(ms: u64) -> (d: Duration)
    ensures
        duration_nanos(d) == ms as nat * 1_000_000,
{
    Duration::from_millis(ms)
}

/// Calls `std::time::Duration::from_secs`; as documented, the duration is
/// that many seconds long.
#[verifier::external_body]
pub fn duration_from_secs(s: u64) -> (d: Duration)
    ensures
        duration_nanos(d) == s as nat * 1_000_000_000,
{
    Duration::from_secs(s)
}

/// Calls `std::time::Duration::as_nanos`.
#[verifier::external_body]
pub fn duration_as_nanos(d: &Duration) -> (n: u128)
    ensures
        n == duration_nanos(*d),
{
    d.as_nanos()
}

/// `Clone` of `std::time::Duration`, a `Copy` type: the clone is the same
/// duration.
pub assume_specification[ <Duration as Clone>::clone ](d: &Duration) -> (r: Duration)
    ensures
        r == *d,
;

/// Calls `std::time::Instant::now`. The reading depends on the clock:
/// nothing is promised of it.
#[verifier::external_body]
pub fn now() -> Instant {
    Instant::now()
}

/// Calls `std::time::Instant::elapsed`. How long has passed depends on the
/// clock: nothing is promised of the result.
#[verifier::external_body]
pub fn elapsed(i: &Instant) -> Duration {
    i.elapsed()
}

} // verus!
