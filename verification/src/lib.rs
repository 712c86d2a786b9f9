//! Receiver side of a chunked blob transfer: a large binary object is
//! rebuilt from fixed-size chunks that may arrive out of order or more than
//! once, and the receiver reports its progress through compact
//! acknowledgments.

use vstd::prelude::*;

mod bits;
pub mod in_logic;
pub mod in_logic_front;
pub mod octets;
pub mod protocol;
pub mod protocol_front;

use bit_array_rs::BitArray;

verus! {

use crate::bits::{
    bit_array_all_set, bit_array_count, bit_array_get, bit_array_new, bit_array_set, bits_of,
};
use vstd::arithmetic::div_mod::{lemma_fundamental_div_mod, lemma_mod_bound};
use vstd::arithmetic::mul::lemma_mul_inequality;

/// Everything that can go wrong when a chunk is stored.
#[derive(Debug, Clone, Copy, PartialEq, Eq, Structural)]
pub enum BlobError {
    /// The chunk index is at or past the chunk count; the second field is the
    /// chunk count.
    InvalidChunkIndex(usize, usize),
    /// The payload length differs from the expected size for that index:
    /// expected, found, chunk index.
    UnexpectedChunkSize(usize, usize, usize),
    /// The computed byte range would leave the buffer; unreachable when the
    /// two checks above pass, kept as a defensive guard.
    OutOfBounds,
    /// The chunk was already stored with byte-identical contents.
    RedundantSameContents(usize),
    /// The chunk was already stored with different contents; the stored bytes
    /// are kept.
    RedundantContentDiffers(usize),
}

/// Mathematical model of one reassembly buffer: the chunk geometry, the bytes
/// gathered so far and which chunks have been stored.
#[verifier::ext_equal]
pub struct BlobState {
    pub fixed_chunk_size: nat,
    pub total_octet_count: nat,
    pub data: Seq<u8>,
    pub received: Seq<bool>,
}

/// Number of chunks a blob of `total` bytes has when cut into pieces of
/// `size` bytes: `total / size` rounded up.
pub open spec fn spec_chunk_count(total: nat, size: nat) -> nat
    recommends
        size > 0,
{
    if total % size == 0 {
        total / size
    } else {
        total / size + 1
    }
}

impl BlobState {
    pub open spec fn chunk_count(self) -> nat {
        spec_chunk_count(self.total_octet_count, self.fixed_chunk_size)
    }

    /// Every chunk is `fixed_chunk_size` bytes long except the last, which
    /// holds whatever remains.
    pub open spec fn expected_size(self, index: int) -> int {
        if index == self.chunk_count() - 1 {
            self.total_octet_count - self.fixed_chunk_size * (self.chunk_count() - 1)
        } else {
            self.fixed_chunk_size as int
        }
    }

    /// Byte offset where the chunk at `index` starts.
    pub open spec fn offset(self, index: int) -> int {
        index * self.fixed_chunk_size
    }

    /// The bytes stored for the chunk at `index`.
    pub open spec fn chunk_data(self, index: int) -> Seq<u8> {
        self.data.subrange(self.offset(index), self.offset(index) + self.expected_size(index))
    }

    pub open spec fn wf(self) -> bool {
        &&& self.fixed_chunk_size > 0
        &&& self.total_octet_count > 0
        &&& self.total_octet_count <= usize::MAX
        &&& self.data.len() == self.total_octet_count
        &&& self.received.len() == self.chunk_count()
    }

    /// True once every chunk has been stored.
    pub open spec fn is_complete(self) -> bool {
        forall|i: int| 0 <= i < self.received.len() ==> self.received[i]
    }
}

/// A blob of `total` bytes in chunks of `size` bytes, with nothing received:
/// the buffer is zeroed and every chunk is still missing.
pub open spec fn fresh_blob_state(total: nat, size: nat) -> BlobState {
    BlobState {
        fixed_chunk_size: size,
        total_octet_count: total,
        data: Seq::new(total, |i: int| 0u8),
        received: Seq::new(spec_chunk_count(total, size), |i: int| false),
    }
}

/// `data` with `payload` written at `offset` and all other bytes kept.
pub open spec fn write_range(data: Seq<u8>, offset: int, payload: Seq<u8>) -> Seq<u8> {
    Seq::new(
        data.len(),
        |k: int|
            if offset <= k < offset + payload.len() {
                payload[k - offset]
            } else {
                data[k]
            },
    )
}

/// What storing one chunk does: the result reported to the caller and the
/// state afterwards. Checks run in this order: the index must be in range,
/// the payload must have the expected size for that index, the byte range
/// must lie inside the buffer, and a chunk stored earlier is reported as
/// redundant, with the buffer left as it was. Only a first write to a chunk
/// changes the state.
pub open spec fn spec_set_chunk(st: BlobState, index: usize, payload: Seq<u8>) -> (Result<
    (),
    BlobError,
>, BlobState)
    recommends
        st.wf(),
{
    let cc = st.chunk_count();
    if index >= cc {
        (Err(BlobError::InvalidChunkIndex(index, cc as usize)), st)
    } else {
        let expected = st.expected_size(index as int);
        if payload.len() != expected {
            (
                Err(
                    BlobError::UnexpectedChunkSize(
                        expected as usize,
                        payload.len() as usize,
                        index,
                    ),
                ),
                st,
            )
        } else if st.offset(index as int) + expected > st.data.len() {
            (Err(BlobError::OutOfBounds), st)
        } else if st.received[index as int] {
            if st.chunk_data(index as int) == payload {
                (Err(BlobError::RedundantSameContents(index)), st)
            } else {
                (Err(BlobError::RedundantContentDiffers(index)), st)
            }
        } else {
            (
                Ok(()),
                BlobState {
                    data: write_range(st.data, st.offset(index as int), payload),
                    received: st.received.update(index as int, true),
                    ..st
                },
            )
        }
    }
}

/// The chunk count is the exact ceiling of `total / size`: it covers the
/// whole blob, the last chunk is not empty, and there are no more chunks
/// than bytes.
pub proof fn lemma_chunk_count_facts(total: nat, size: nat)
    requires
        total >= 1,
        size >= 1,
    ensures
        ({
            let cc = spec_chunk_count(total, size) as int;
            &&& 1 <= cc <= total
            &&& cc * (size as int) >= total
            &&& (cc - 1) * (size as int) < total
        }),
{
    let t = total as int;
    let s = size as int;
    lemma_fundamental_div_mod(t, s);
    lemma_mod_bound(t, s);
    let q = t / s;
    let r = t % s;
    assert(q * s == s * q) by (nonlinear_arith);
    assert(t == q * s + r);
    assert(q >= 1 ==> q <= q * s) by (nonlinear_arith)
        requires
            s >= 1,
    ;
    assert(q >= 0) by (nonlinear_arith)
        requires
            t >= 1,
            s >= 1,
            t == q * s + r,
            0 <= r < s,
    ;
    assert((q + 1) * s == q * s + s) by (nonlinear_arith);
    assert((q - 1) * s == q * s - s) by (nonlinear_arith);
    if r == 0 {
        assert(q >= 1) by (nonlinear_arith)
            requires
                t >= 1,
                s >= 1,
                t == q * s,
                q >= 0,
        ;
    }
}

/// After a chunk is first stored, offering the same payload again reports a
/// harmless duplicate and changes nothing.
pub proof fn lemma_set_chunk_same_payload_redundant(st: BlobState, index: usize, payload: Seq<u8>)
    requires
        st.wf(),
        spec_set_chunk(st, index, payload).0 is Ok,
    ensures
        ({
            let st1 = spec_set_chunk(st, index, payload).1;
            spec_set_chunk(st1, index, payload) == (
                Err::<(), BlobError>(BlobError::RedundantSameContents(index)),
                st1,
            )
        }),
{
    let st1 = spec_set_chunk(st, index, payload).1;
    assert(st1.chunk_data(index as int) =~= payload);
}

/// After a chunk is first stored, offering a different payload of the same
/// length reports a content conflict and the stored bytes are kept.
pub proof fn lemma_set_chunk_other_payload_rejected(
    st: BlobState,
    index: usize,
    payload: Seq<u8>,
    other: Seq<u8>,
)
    requires
        st.wf(),
        spec_set_chunk(st, index, payload).0 is Ok,
        other.len() == payload.len(),
        other != payload,
    ensures
        ({
            let st1 = spec_set_chunk(st, index, payload).1;
            spec_set_chunk(st1, index, other) == (
                Err::<(), BlobError>(BlobError::RedundantContentDiffers(index)),
                st1,
            )
        }),
{
    let st1 = spec_set_chunk(st, index, payload).1;
    assert(st1.chunk_data(index as int) =~= payload);
}

/// The chunks laid end to end, for the first `n` chunk indices.
pub open spec fn concat_chunks(st: BlobState, n: int) -> Seq<u8>
    decreases n,
{
    if n <= 0 {
        Seq::empty()
    } else {
        concat_chunks(st, n - 1) + st.chunk_data(n - 1)
    }
}

proof fn lemma_concat_chunks_prefix(st: BlobState, n: int)
    requires
        st.wf(),
        0 <= n <= st.chunk_count(),
    ensures
        concat_chunks(st, n) == st.data.take(
            if n == st.chunk_count() {
                st.total_octet_count as int
            } else {
                n * st.fixed_chunk_size as int
            },
        ),
    decreases n,
{
    let s = st.fixed_chunk_size as int;
    let t = st.total_octet_count as int;
    let cc = st.chunk_count() as int;
    lemma_chunk_count_facts(st.total_octet_count, st.fixed_chunk_size);
    if n == 0 {
        assert(0 * s == 0) by (nonlinear_arith);
        assert(concat_chunks(st, 0) =~= st.data.take(0));
    } else {
        lemma_concat_chunks_prefix(st, n - 1);
        lemma_mul_inequality(n - 1, cc - 1, s);
        assert((n - 1) * s == n * s - s) by (nonlinear_arith);
        if n == cc {
            assert(concat_chunks(st, n) =~= st.data.take(t));
        } else {
            lemma_mul_inequality(n, cc - 1, s);
            assert(concat_chunks(st, n) =~= st.data.take(n * s));
        }
    }
}

/// The buffer of a well-formed state is exactly its chunks concatenated in
/// index order: once complete, the blob equals the chunks laid end to end.
pub proof fn lemma_blob_is_chunk_concat(st: BlobState)
    requires
        st.wf(),
    ensures
        concat_chunks(st, st.chunk_count() as int) == st.data,
{
    lemma_concat_chunks_prefix(st, st.chunk_count() as int);
    assert(st.data.take(st.total_octet_count as int) =~= st.data);
}

/// Compares the stored bytes at `offset` with `payload`.
fn range_eq(data: &Vec<u8>, offset: usize, payload: &[u8]) -> (r: bool)
    requires
        offset + payload@.len() <= data@.len(),
    ensures
        r == (data@.subrange(offset as int, offset + payload@.len()) == payload@),
{
    let data_len = data.len();
    let n = payload.len();
    let mut j: usize = 0;
    while j < n
        invariant
            j <= n,
            n == payload@.len(),
            data_len == data@.len(),
            offset + n <= data@.len(),
            forall|k: int| 0 <= k < j ==> data@[offset + k] == payload@[k],
        decreases n - j,
    {
        if data[offset + j] != payload[j] {
            proof {
                assert(data@.subrange(offset as int, offset + payload@.len())[j as int]
                    != payload@[j as int]);
            }
            return false;
        }
        j += 1;
    }
    proof {
        assert(data@.subrange(offset as int, offset + payload@.len()) =~= payload@);
    }
    true
}

/// Fixed-capacity reassembly buffer for one blob. The byte buffer is exactly
/// `total_octet_count` long, and one bit per chunk records whether that
/// chunk's bytes have been written at their offset.
pub struct BlobStreamIn {
    bit_array: BitArray,
    fixed_chunk_size: usize,
    octet_count: usize,
    blob: Vec<u8>,
}

impl View for BlobStreamIn {
    type V = BlobState;

    closed spec fn view(&self) -> BlobState {
        BlobState {
            fixed_chunk_size: self.fixed_chunk_size as nat,
            total_octet_count: self.octet_count as nat,
            data: self.blob@,
            received: bits_of(self.bit_array),
        }
    }
}

impl BlobStreamIn {
    pub open spec fn wf(&self) -> bool {
        self@.wf()
    }

    /// Creates a buffer for a blob of `octet_count` bytes cut into chunks of
    /// `fixed_chunk_size` bytes.
    pub fn new(octet_count: usize, fixed_chunk_size: usize) -> (r: Self)
        requires
            octet_count > 0,
            fixed_chunk_size > 0,
        ensures
            r.wf(),
            r@ == fresh_blob_state(octet_count as nat, fixed_chunk_size as nat),
    {
        proof {
            lemma_chunk_count_facts(octet_count as nat, fixed_chunk_size as nat);
        }
        let q: usize = octet_count / fixed_chunk_size;
        let chunk_count: usize = if octet_count % fixed_chunk_size == 0 {
            q
        } else {
            q + 1
        };
        let mut blob: Vec<u8> = Vec::new();
        let mut i: usize = 0;
        while i < octet_count
            invariant
                i <= octet_count,
                blob@.len() == i,
                forall|k: int| 0 <= k < i ==> blob@[k] == 0u8,
            decreases octet_count - i,
        {
            blob.push(0u8);
            i += 1;
        }
        let r = Self { bit_array: bit_array_new(chunk_count), fixed_chunk_size, octet_count, blob };
        proof {
            assert(r@.data =~= fresh_blob_state(
                octet_count as nat,
                fixed_chunk_size as nat,
            ).data);
            assert(r@.received =~= fresh_blob_state(
                octet_count as nat,
                fixed_chunk_size as nat,
            ).received);
            assert(r@ =~= fresh_blob_state(octet_count as nat, fixed_chunk_size as nat));
        }
        r
    }

    /// Total number of chunks the blob is cut into.
    pub fn chunk_count(&self) -> (r: usize)
        requires
            self.wf(),
        ensures
            r == self@.chunk_count(),
    {
        bit_array_count(&self.bit_array)
    }

    /// True once every chunk has been received.
    pub fn is_complete(&self) -> (r: bool)
        requires
            self.wf(),
        ensures
            r == self@.is_complete(),
    {
        bit_array_all_set(&self.bit_array)
    }

    /// Whether the chunk at `chunk_index` has been received.
    pub fn is_received(&self, chunk_index: usize) -> (r: bool)
        requires
            self.wf(),
            chunk_index < self@.chunk_count(),
        ensures
            r == self@.received[chunk_index as int],
    {
        bit_array_get(&self.bit_array, chunk_index)
    }

    /// Stores the payload for the chunk at `chunk_index`, exactly as
    /// [`spec_set_chunk`] describes: the first write of a valid chunk copies
    /// the payload to its offset and marks the chunk received; everything
    /// else is rejected and leaves the buffer unchanged.
    pub fn set_chunk(&mut self, chunk_index: usize, payload: &[u8]) -> (r: Result<(), BlobError>)
        requires
            old(self).wf(),
        ensures
            final(self).wf(),
            r == spec_set_chunk(old(self)@, chunk_index, payload@).0,
            final(self)@ == spec_set_chunk(old(self)@, chunk_index, payload@).1,
    {
        let chunk_count = bit_array_count(&self.bit_array);
        if chunk_index >= chunk_count {
            return Err(BlobError::InvalidChunkIndex(chunk_index, chunk_count));
        }
        proof {
            lemma_chunk_count_facts(self.octet_count as nat, self.fixed_chunk_size as nat);
            lemma_mul_inequality(
                chunk_index as int,
                chunk_count - 1,
                self.fixed_chunk_size as int,
            );
        }
        let expected_size: usize = if chunk_index == chunk_count - 1 {
            self.octet_count - (chunk_count - 1) * self.fixed_chunk_size
        } else {
            self.fixed_chunk_size
        };
        if payload.len() != expected_size {
            return Err(
                BlobError::UnexpectedChunkSize(expected_size, payload.len(), chunk_index),
            );
        }
        proof {
            if chunk_index < chunk_count - 1 {
                lemma_mul_inequality(
                    chunk_index + 1,
                    chunk_count - 1,
                    self.fixed_chunk_size as int,
                );
                assert((chunk_index + 1) * (self.fixed_chunk_size as int) == chunk_index as int
                    * self.fixed_chunk_size as int + self.fixed_chunk_size as int)
                    by (nonlinear_arith);
            }
        }
        let octet_offset = chunk_index * self.fixed_chunk_size;
        if octet_offset + expected_size > self.blob.len() {
            return Err(BlobError::OutOfBounds);
        }
        if bit_array_get(&self.bit_array, chunk_index) {
            let err = if range_eq(&self.blob, octet_offset, payload) {
                BlobError::RedundantSameContents(chunk_index)
            } else {
                BlobError::RedundantContentDiffers(chunk_index)
            };
            return Err(err);
        }
        let blob_len = self.blob.len();
        let n = payload.len();
        let mut j: usize = 0;
        while j < n
            invariant
                j <= n,
                blob_len == self.blob@.len(),
                octet_offset + n <= self.blob@.len(),
                n == payload@.len(),
                self.bit_array == old(self).bit_array,
                self.fixed_chunk_size == old(self).fixed_chunk_size,
                self.octet_count == old(self).octet_count,
                self.blob@.len() == old(self).blob@.len(),
                forall|k: int|
                    0 <= k < self.blob@.len() && !(octet_offset <= k < octet_offset + j)
                        ==> self.blob@[k] == old(self).blob@[k],
                forall|k: int| 0 <= k < j ==> self.blob@[octet_offset + k] == payload@[k],
            decreases n - j,
        {
            self.blob[octet_offset + j] = payload[j];
            j += 1;
        }
        bit_array_set(&mut self.bit_array, chunk_index);
        proof {
            let st1 = spec_set_chunk(old(self)@, chunk_index, payload@).1;
            assert(self.blob@ =~= write_range(
                old(self)@.data,
                old(self)@.offset(chunk_index as int),
                payload@,
            ));
            assert(self@ =~= st1);
        }
        Ok(())
    }

    /// The complete blob, available exactly when every chunk has arrived.
    pub fn blob(&self) -> (r: Option<&Vec<u8>>)
        requires
            self.wf(),
        ensures
            match r {
                Some(b) => self@.is_complete() && b@ == self@.data,
                None => !self@.is_complete(),
            },
    {
        if self.is_complete() {
            Some(&self.blob)
        } else {
            None
        }
    }
}

} // verus!
