//! Fixed-capacity storage from the `heapless` crate.
//!
//! The transport accumulates incoming frame bytes in a bounded vector so
//! that the per-word fast path never allocates: a push either appends or
//! hands the item back when the capacity is reached, and that refusal is the
//! transport's recovery trigger. The same storage carries an outbound
//! serialized frame. `heapless::Vec` is opaque to the verifier, so this
//! module names what each vector holds (`buf_bytes`, `raw_words`) and gives
//! every method the transport calls a contract over those names.

use vstd::prelude::*;

verus! {

#[verifier::external_type_specification]
#[verifier::external_body]
#[verifier::reject_recursive_types(T)]
pub struct ExHeaplessVec<T, const N: usize>(heapless::Vec<T, N>);

/// The accumulation buffer: room for one maximal frame with headroom.
pub type DataBuffer = heapless::Vec<u8, 512>;

/// A serialized outbound frame: address word, length word, up to 254
/// payload words and two checksum words.
pub type RawDataFrame = heapless::Vec<u16, 260>;

/// The bytes a `DataBuffer` holds, in order.
pub uninterp spec fn buf_bytes(v: DataBuffer) -> Seq<u8>;

/// The words a `RawDataFrame` holds, in order.
pub uninterp spec fn raw_words(v: RawDataFrame) -> Seq<u16>;

/// Relies on heapless::Vec::new: a freshly constructed vector holds nothing.
#[verifier::external_body]
pub(crate) fn buf_new() -> (v: DataBuffer)
    ensures
        buf_bytes(v) == Seq::<u8>::empty(),
{
    heapless::Vec::new()
}

/// Relies on heapless::Vec::push: appends while the length is below the
/// capacity of 512, and hands the item back unchanged once it is reached.
#[verifier::external_body]
pub(crate) fn buf_push(v: &mut DataBuffer, b: u8) -> (r: Result<(), u8>)
    ensures
        r == (if buf_bytes(*old(v)).len() < 512 { Ok::<(), u8>(()) } else { Err::<(), u8>(b) }),
        buf_bytes(*final(v)) == (if buf_bytes(*old(v)).len() < 512 {
            buf_bytes(*old(v)).push(b)
        } else {
            buf_bytes(*old(v))
        }),
{
    v.push(b)
}

/// Relies on heapless::Vec::clear: removes every element.
#[verifier::external_body]
pub(crate) fn buf_clear(v: &mut DataBuffer)
    ensures
        buf_bytes(*final(v)) == Seq::<u8>::empty(),
{
    v.clear()
}

/// Relies on heapless::Vec::as_slice: the stored bytes, in order.
#[verifier::external_body]
pub(crate) fn buf_as_slice(v: &DataBuffer) -> (r: &[u8])
    ensures
        r@ == buf_bytes(*v),
{
    v.as_slice()
}

/// Relies on heapless::Vec::new: a freshly constructed vector holds nothing.
#[verifier::external_body]
pub(crate) fn raw_new() -> (v: RawDataFrame)
    ensures
        raw_words(v) == Seq::<u16>::empty(),
{
    heapless::Vec::new()
}

/// Relies on heapless::Vec::push: appends while the length is below the
/// capacity of 260, and hands the item back unchanged once it is reached.
#[verifier::external_body]
pub(crate) fn raw_push(v: &mut RawDataFrame, w: u16) -> (r: Result<(), u16>)
    ensures
        r == (if raw_words(*old(v)).len() < 260 { Ok::<(), u16>(()) } else { Err::<(), u16>(w) }),
        raw_words(*final(v)) == (if raw_words(*old(v)).len() < 260 {
            raw_words(*old(v)).push(w)
        } else {
            raw_words(*old(v))
        }),
{
    v.push(w)
}

} // verus!
