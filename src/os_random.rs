//! Random integers of every width, cut from a fixed-size buffer of entropy
//! bytes that the caller refills from the platform's entropy source.
use vstd::prelude::*;
use crate::error::SysError;

verus! {

/// The number of bytes that one refill supplies.
pub const BUFFER_LENGTH: usize = 1024;

/// The value of bytes read least significant first.
pub open spec fn le_value(s: Seq<u8>) -> nat
    decreases s.len(),
{
    if s.len() == 0 {
        0
    } else {
        (s[0] + 256 * le_value(s.drop_first())) as nat
    }
}

/// The value of bytes read most significant first.
pub open spec fn be_value(s: Seq<u8>) -> nat {
    le_value(s.reverse())
}

/// `v` is the value of the bytes `s` in one of the two byte orders that a
/// platform may have as its native one.
pub open spec fn native_value(s: Seq<u8>, v: int) -> bool {
    v == le_value(s) || v == be_value(s)
}

/// Relies on `u16::from_ne_bytes`: the bytes read in the platform's byte order.
#[verifier::external_body]
fn u16_from_ne(bytes: [u8; 2]) -> (r: u16)
    ensures
        native_value(bytes@, r as int),
{
    u16::from_ne_bytes(bytes)
}

/// Relies on `u32::from_ne_bytes`: the bytes read in the platform's byte order.
#[verifier::external_body]
fn u32_from_ne(bytes: [u8; 4]) -> (r: u32)
    ensures
        native_value(bytes@, r as int),
{
    u32::from_ne_bytes(bytes)
}

/// Relies on `u64::from_ne_bytes`: the bytes read in the platform's byte order.
#[verifier::external_body]
fn u64_from_ne(bytes: [u8; 8]) -> (r: u64)
    ensures
        native_value(bytes@, r as int),
{
    u64::from_ne_bytes(bytes)
}

/// Relies on `u128::from_ne_bytes`: the bytes read in the platform's byte order.
#[verifier::external_body]
fn u128_from_ne(bytes: [u8; 16]) -> (r: u128)
    ensures
        native_value(bytes@, r as int),
{
    u128::from_ne_bytes(bytes)
}

/// Whether a buffer that is ready and at `cursor` can serve `width` bytes
/// without a refill.
pub open spec fn can_serve(ready: bool, cursor: nat, width: nat) -> bool {
    ready && cursor + width < BUFFER_LENGTH
}

/// Whether the slice `[start_index, start_index + slice_len)` ends before
/// the last byte of the buffer.
pub fn check_slice_bounds(start_index: usize, slice_len: usize) -> (r: bool)
    ensures
        r == (start_index + slice_len < BUFFER_LENGTH),
{
    slice_len < BUFFER_LENGTH && start_index < BUFFER_LENGTH - slice_len
}

/// The `width` bytes that a buffer serves next.
pub open spec fn next_bytes(b: EntropyBuffer, width: nat) -> Seq<u8> {
    b.bytes().subrange(b.cursor() as int, (b.cursor() + width) as int)
}

/// `after` is `before` once a request for `width` bytes has been answered:
/// served, and passed by the cursor, exactly when the buffer can serve it,
/// else left as it was.
pub open spec fn served(before: EntropyBuffer, after: EntropyBuffer, width: nat, some: bool) -> bool {
    &&& after.wf()
    &&& some == can_serve(before.ready(), before.cursor(), width)
    &&& if some {
        &&& after.ready()
        &&& after.bytes() == before.bytes()
        &&& after.cursor() == before.cursor() + width
    } else {
        after == before
    }
}

/// `after` holds the bytes `fresh`, ready, with its cursor at the start.
pub open spec fn refilled(after: EntropyBuffer, fresh: Seq<u8>) -> bool {
    &&& after.wf()
    &&& after.ready()
    &&& after.cursor() == 0
    &&& after.bytes() == fresh
}

/// A request that would cross the end of the buffer is served once the
/// buffer is refilled: from the first fresh bytes, with the cursor left at
/// the request's width, not past the old cursor.
pub proof fn lemma_refill_then_serve(
    before: EntropyBuffer,
    fresh: Seq<u8>,
    mid: EntropyBuffer,
    after: EntropyBuffer,
    width: nat,
    some: bool,
)
    requires
        0 < width < BUFFER_LENGTH,
        !can_serve(before.ready(), before.cursor(), width),
        refilled(mid, fresh),
        served(mid, after, width, some),
    ensures
        some,
        next_bytes(mid, width) == fresh.subrange(0, width as int),
        after.cursor() == width,
        before.ready() ==> after.cursor() < before.cursor() + width,
{
}

/// A buffer of `BUFFER_LENGTH` entropy bytes and a cursor at the next unread
/// byte. Bytes before the cursor have been handed out since the last refill.
pub struct EntropyBuffer {
    buffer: Vec<u8>,
    buffer_index: usize,
    initialized: bool,
}

impl EntropyBuffer {
    /// The buffer holds `BUFFER_LENGTH` bytes and the cursor lies within it.
    pub closed spec fn wf(self) -> bool {
        &&& self.buffer@.len() == BUFFER_LENGTH
        &&& self.buffer_index <= BUFFER_LENGTH
    }

    /// The buffered bytes.
    pub closed spec fn bytes(self) -> Seq<u8> {
        self.buffer@
    }

    /// The offset of the next unread byte.
    pub closed spec fn cursor(self) -> nat {
        self.buffer_index as nat
    }

    /// Whether the buffer has been filled from the entropy source.
    pub closed spec fn ready(self) -> bool {
        self.initialized
    }

    /// A buffer that has not been filled yet.
    pub fn new() -> (r: Self)
        ensures
            r.wf(),
            !r.ready(),
            r.cursor() == 0,
    {
        let mut buffer: Vec<u8> = Vec::new();
        while buffer.len() < BUFFER_LENGTH
            invariant
                buffer.len() <= BUFFER_LENGTH,
            decreases BUFFER_LENGTH - buffer.len(),
        {
            buffer.push(0);
        }
        EntropyBuffer { buffer, buffer_index: 0, initialized: false }
    }

    /// The offset of the next unread byte.
    pub fn buffer_index(&self) -> (r: usize)
        ensures
            r == self.cursor(),
    {
        self.buffer_index
    }

    /// Whether `width` bytes can only be served after a refill: the buffer
    /// has never been filled, or the slice would reach its last byte.
    pub fn needs_refill(&self, width: usize) -> (r: bool)
        ensures
            r == !can_serve(self.ready(), self.cursor(), width as nat),
    {
        !self.initialized || !check_slice_bounds(self.buffer_index, width)
    }

    /// Replaces the whole buffer with `fresh` entropy bytes and moves the
    /// cursor back to the start; unread bytes are discarded.
    pub fn refill(&mut self, fresh: Vec<u8>)
        requires
            fresh@.len() == BUFFER_LENGTH,
        ensures
            refilled(*final(self), fresh@),
    {
        self.buffer = fresh;
        self.buffer_index = 0;
        self.initialized = true;
    }

    /// The next `slice_size` unread bytes, which the cursor then passes;
    /// `None`, with the buffer unchanged, where a refill must come first.
    pub fn get_buffer_slice(&mut self, slice_size: usize) -> (r: Option<Vec<u8>>)
        requires
            old(self).wf(),
        ensures
            served(*old(self), *final(self), slice_size as nat, r is Some),
            r matches Some(s) ==> s@ == next_bytes(*old(self), slice_size as nat),
    {
        if self.needs_refill(slice_size) {
            return None;
        }
        let start_index = self.buffer_index;
        let mut slice: Vec<u8> = Vec::new();
        let mut i: usize = 0;
        while i < slice_size
            invariant
                self.wf(),
                start_index + slice_size < BUFFER_LENGTH,
                i <= slice_size,
                slice@ == self.buffer@.subrange(start_index as int, start_index + i),
            decreases slice_size - i,
        {
            slice.push(self.buffer[start_index + i]);
            i = i + 1;
            assert(slice@ =~= self.buffer@.subrange(start_index as int, start_index + i));
        }
        self.buffer_index = start_index + slice_size;
        Some(slice)
    }
}

/// The next unread byte; `None`, with the buffer unchanged, where a refill must come
/// first.
pub fn get_random_u8(buffer: &mut EntropyBuffer) -> (r: Option<u8>)
    requires
        old(buffer).wf(),
    ensures
        served(*old(buffer), *final(buffer), 1, r is Some),
        r matches Some(v) ==> v == next_bytes(*old(buffer), 1)[0],
{
    let got = buffer.get_buffer_slice(1);
    if let Some(s) = got {
            Some(s[0])
    } else {
        None
    }
}

/// The next unread byte, as a signed byte; `None`, with the buffer unchanged, where a refill must come
/// first.
pub fn get_random_i8(buffer: &mut EntropyBuffer) -> (r: Option<i8>)
    requires
        old(buffer).wf(),
    ensures
        served(*old(buffer), *final(buffer), 1, r is Some),
        r matches Some(v) ==> v as u8 == next_bytes(*old(buffer), 1)[0],
{
    let got = buffer.get_buffer_slice(1);
    if let Some(s) = got {
            proof {
                let b = s[0];
                assert((b as i8) as u8 == b) by (bit_vector);
            }
            Some(s[0] as i8)
    } else {
        None
    }
}

/// The next 2 unread bytes read in the platform's byte order; `None`, with the buffer unchanged, where a refill must come
/// first.
pub fn get_random_u16(buffer: &mut EntropyBuffer) -> (r: Option<u16>)
    requires
        old(buffer).wf(),
    ensures
        served(*old(buffer), *final(buffer), 2, r is Some),
        r matches Some(v) ==> native_value(next_bytes(*old(buffer), 2), v as int),
{
    let got = buffer.get_buffer_slice(2);
    if let Some(s) = got {
            let bytes: [u8; 2] = [s[0], s[1]];
            assert(bytes@ =~= s@);
            Some(u16_from_ne(bytes))
    } else {
        None
    }
}

/// The next 2 unread bytes read in the platform's byte order, as a two's complement value; `None`, with the buffer unchanged, where a refill must come
/// first.
pub fn get_random_i16(buffer: &mut EntropyBuffer) -> (r: Option<i16>)
    requires
        old(buffer).wf(),
    ensures
        served(*old(buffer), *final(buffer), 2, r is Some),
        r matches Some(v) ==> native_value(next_bytes(*old(buffer), 2), v as u16 as int),
{
    let got = buffer.get_buffer_slice(2);
    if let Some(s) = got {
            let bytes: [u8; 2] = [s[0], s[1]];
            assert(bytes@ =~= s@);
            let u = u16_from_ne(bytes);
            let v = u as i16;
            assert((u as i16) as u16 == u) by (bit_vector);
            Some(v)
    } else {
        None
    }
}

/// The next 4 unread bytes read in the platform's byte order; `None`, with the buffer unchanged, where a refill must come
/// first.
pub fn get_random_u32(buffer: &mut EntropyBuffer) -> (r: Option<u32>)
    requires
        old(buffer).wf(),
    ensures
        served(*old(buffer), *final(buffer), 4, r is Some),
        r matches Some(v) ==> native_value(next_bytes(*old(buffer), 4), v as int),
{
    let got = buffer.get_buffer_slice(4);
    if let Some(s) = got {
            let bytes: [u8; 4] = [s[0], s[1], s[2], s[3]];
            assert(bytes@ =~= s@);
            Some(u32_from_ne(bytes))
    } else {
        None
    }
}

/// The next 4 unread bytes read in the platform's byte order, as a two's complement value; `None`, with the buffer unchanged, where a refill must come
/// first.
pub fn get_random_i32(buffer: &mut EntropyBuffer) -> (r: Option<i32>)
    requires
        old(buffer).wf(),
    ensures
        served(*old(buffer), *final(buffer), 4, r is Some),
        r matches Some(v) ==> native_value(next_bytes(*old(buffer), 4), v as u32 as int),
{
    let got = buffer.get_buffer_slice(4);
    if let Some(s) = got {
            let bytes: [u8; 4] = [s[0], s[1], s[2], s[3]];
            assert(bytes@ =~= s@);
            let u = u32_from_ne(bytes);
            let v = u as i32;
            assert((u as i32) as u32 == u) by (bit_vector);
            Some(v)
    } else {
        None
    }
}

/// The next 8 unread bytes read in the platform's byte order; `None`, with the buffer unchanged, where a refill must come
/// first.
pub fn get_random_u64(buffer: &mut EntropyBuffer) -> (r: Option<u64>)
    requires
        old(buffer).wf(),
    ensures
        served(*old(buffer), *final(buffer), 8, r is Some),
        r matches Some(v) ==> native_value(next_bytes(*old(buffer), 8), v as int),
{
    let got = buffer.get_buffer_slice(8);
    if let Some(s) = got {
            let bytes: [u8; 8] = [s[0], s[1], s[2], s[3], s[4], s[5], s[6], s[7]];
            assert(bytes@ =~= s@);
            Some(u64_from_ne(bytes))
    } else {
        None
    }
}

/// The next 8 unread bytes read in the platform's byte order, as a two's complement value; `None`, with the buffer unchanged, where a refill must come
/// first.
pub fn get_random_i64(buffer: &mut EntropyBuffer) -> (r: Option<i64>)
    requires
        old(buffer).wf(),
    ensures
        served(*old(buffer), *final(buffer), 8, r is Some),
        r matches Some(v) ==> native_value(next_bytes(*old(buffer), 8), v as u64 as int),
{
    let got = buffer.get_buffer_slice(8);
    if let Some(s) = got {
            let bytes: [u8; 8] = [s[0], s[1], s[2], s[3], s[4], s[5], s[6], s[7]];
            assert(bytes@ =~= s@);
            let u = u64_from_ne(bytes);
            let v = u as i64;
            assert((u as i64) as u64 == u) by (bit_vector);
            Some(v)
    } else {
        None
    }
}

/// The next 16 unread bytes read in the platform's byte order; `None`, with the buffer unchanged, where a refill must come
/// first.
pub fn get_random_u128(buffer: &mut EntropyBuffer) -> (r: Option<u128>)
    requires
        old(buffer).wf(),
    ensures
        served(*old(buffer), *final(buffer), 16, r is Some),
        r matches Some(v) ==> native_value(next_bytes(*old(buffer), 16), v as int),
{
    let got = buffer.get_buffer_slice(16);
    if let Some(s) = got {
            let bytes: [u8; 16] = [s[0], s[1], s[2], s[3], s[4], s[5], s[6], s[7], s[8], s[9], s[10], s[11], s[12], s[13], s[14], s[15]];
            assert(bytes@ =~= s@);
            Some(u128_from_ne(bytes))
    } else {
        None
    }
}

/// The next 16 unread bytes read in the platform's byte order, as a two's complement value; `None`, with the buffer unchanged, where a refill must come
/// first.
pub fn get_random_i128(buffer: &mut EntropyBuffer) -> (r: Option<i128>)
    requires
        old(buffer).wf(),
    ensures
        served(*old(buffer), *final(buffer), 16, r is Some),
        r matches Some(v) ==> native_value(next_bytes(*old(buffer), 16), v as u128 as int),
{
    let got = buffer.get_buffer_slice(16);
    if let Some(s) = got {
            let bytes: [u8; 16] = [s[0], s[1], s[2], s[3], s[4], s[5], s[6], s[7], s[8], s[9], s[10], s[11], s[12], s[13], s[14], s[15]];
            assert(bytes@ =~= s@);
            let u = u128_from_ne(bytes);
            let v = u as i128;
            assert((u as i128) as u128 == u) by (bit_vector);
            Some(v)
    } else {
        None
    }
}

/// Whether a status returned by the Windows random-number function is an
/// error: its top two bits are both set.
pub fn extern_error(extern_return: u32) -> (r: bool)
    ensures
        r == (extern_return >> 30u32 == 3),
{
    extern_return >> 30 == 0b11
}

/// The error that a status of the Windows random-number function reports,
/// with its top bit cleared; `None` where the status is no error.
pub fn status_error(extern_return: u32) -> (r: Option<SysError>)
    ensures
        r.is_some() == (extern_return >> 30u32 == 3),
        r matches Some(e) ==> e.spec_code() == extern_return ^ 0x8000_0000u32,
{
    if !extern_error(extern_return) {
        return None;
    }
    let code = extern_return ^ (1u32 << 31);
    assert(extern_return >> 30u32 == 3 ==> extern_return ^ (1u32 << 31) != 0 && 1u32 << 31
        == 0x8000_0000u32) by (bit_vector);
    SysError::from_code(code)
}

} // verus!
