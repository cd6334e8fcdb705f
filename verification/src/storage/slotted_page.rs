//! The slotted page: binary layout, slot-descriptor codec, and the tuple
//! insertion algorithm with its capacity guard.

use vstd::arithmetic::div_mod::lemma_fundamental_div_mod;
use vstd::prelude::*;

verus! {

/// Total size of one page in bytes, header included.
pub const PAGE_SIZE: u16 = 4096;

/// Size of the on-page header: id (4) + type tag (1) + num_tuples (2) +
/// deleted_tuples (2).
pub const HEADER_SIZE: u16 = 9;

/// Size of the buffer region that holds the slot directory and the tuple
/// payloads.
pub const BUFFER_SIZE: u16 = PAGE_SIZE - HEADER_SIZE;

/// Role of a page inside a multi-page structure; stored as data,
/// uninterpreted by the page itself.
#[derive(Clone, Copy, Debug, PartialEq, Eq, Structural)]
pub enum PageType {
    ROOT,
    INTERNAL,
    LEAF,
}

/// Errors returned by page operations. All are recoverable conditions
/// reported to the immediate caller.
#[derive(Clone, Copy, Debug, PartialEq, Eq, Structural)]
pub enum PageError {
    /// A slot descriptor slice did not have the exact encoded length.
    MalformedSlot,
    /// The insert would make the slot directory and the payload region
    /// overlap.
    PageFull,
    /// The payload size is zero or exceeds the buffer size.
    InvalidTuple,
}

/// A slot-directory entry: where one tuple's payload lives in the buffer.
#[derive(Clone, Copy, Debug, PartialEq, Eq, Structural)]
pub struct TupleMetadata {
    /// Byte offset of the payload within the page buffer.
    pub offset: u16,
    /// Byte length of the payload.
    pub length: u16,
}

/// The 4-byte encoding of a slot descriptor: little-endian `offset`
/// followed by little-endian `length`.
pub open spec fn spec_encode(m: TupleMetadata) -> Seq<u8> {
    seq![
        (m.offset % 256) as u8,
        (m.offset / 256) as u8,
        (m.length % 256) as u8,
        (m.length / 256) as u8,
    ]
}

/// The descriptor denoted by 4 buffer bytes, inverse of `spec_encode`.
pub open spec fn spec_decode(bytes: Seq<u8>) -> TupleMetadata
    recommends
        bytes.len() == 4,
{
    TupleMetadata {
        offset: (bytes[0] + 256 * bytes[1]) as u16,
        length: (bytes[2] + 256 * bytes[3]) as u16,
    }
}

/// Decoding is the exact inverse of encoding: every descriptor with
/// 16-bit fields survives a round trip through its 4-byte form unchanged.
pub proof fn lemma_decode_encode(m: TupleMetadata)
    ensures
        spec_decode(spec_encode(m)) == m,
{
    lemma_fundamental_div_mod(m.offset as int, 256);
    lemma_fundamental_div_mod(m.length as int, 256);
}

impl TupleMetadata {
    /// Serialize this descriptor to its 4-byte little-endian form.
    pub fn encode(&self) -> (r: Vec<u8>)
        ensures
            r@ == spec_encode(*self),
    {
        let mut bytes: Vec<u8> = Vec::new();
        bytes.push((self.offset % 256) as u8);
        bytes.push((self.offset / 256) as u8);
        bytes.push((self.length % 256) as u8);
        bytes.push((self.length / 256) as u8);
        proof {
            assert(bytes@ =~= spec_encode(*self));
        }
        bytes
    }

    /// Parse a slot descriptor from a byte slice. Fails with
    /// `MalformedSlot` unless the slice is exactly 4 bytes long.
    pub fn from_slice(buffer: &[u8]) -> (r: Result<TupleMetadata, PageError>)
        ensures
            buffer@.len() == 4 ==> r == Ok::<TupleMetadata, PageError>(spec_decode(buffer@)),
            buffer@.len() != 4 ==> r == Err::<TupleMetadata, PageError>(PageError::MalformedSlot),
    {
        if buffer.len() != 4 {
            return Err(PageError::MalformedSlot);
        }
        let offset: u16 = (buffer[0] as u16) + 256 * (buffer[1] as u16);
        let length: u16 = (buffer[2] as u16) + 256 * (buffer[3] as u16);
        Ok(TupleMetadata { offset, length })
    }
}

/// Fixed bookkeeping fields of one page. `id` and `page_type` never change
/// after construction; the counters are mutated only by page operations.
pub struct PageHeader {
    /// Identifier of the page, unique within whatever volume owns it.
    pub id: u32,
    /// Role of the page; uninterpreted here.
    pub page_type: PageType,
    /// Number of slots in the directory, tombstoned ones included.
    pub num_tuples: u16,
    /// Number of tombstoned slots awaiting an (out-of-scope) compaction.
    pub deleted_tuples: u16,
}

/// A page: header plus a `BUFFER_SIZE`-byte buffer. The slot directory
/// occupies buffer bytes `[0, 4 * num_tuples)` in insertion order; tuple
/// payloads are packed contiguously downward from byte `BUFFER_SIZE`.
pub struct SlottedPage {
    /// The page's bookkeeping fields.
    pub header: PageHeader,
    /// The buffer region; its length is always `BUFFER_SIZE`.
    pub buffer: Vec<u8>,
}

impl SlottedPage {
    /// The descriptor stored in slot `i` of the directory.
    pub open spec fn slot(self, i: int) -> TupleMetadata {
        spec_decode(self.buffer@.subrange(4 * i, 4 * i + 4))
    }

    /// The lower boundary of the payload region before slot `i` existed:
    /// the top of the buffer for slot 0, else the previous slot's offset.
    pub open spec fn prior_offset(self, i: int) -> int {
        if i <= 0 {
            BUFFER_SIZE as int
        } else {
            self.slot(i - 1).offset as int
        }
    }

    /// The lower boundary of the payload region: the next tuple's bytes
    /// must end here.
    pub open spec fn free_top(self) -> int {
        self.prior_offset(self.header.num_tuples as int)
    }

    /// The payload bytes addressed by slot `i`.
    pub open spec fn tuple_bytes(self, i: int) -> Seq<u8> {
        self.buffer@.subrange(
            self.slot(i).offset as int,
            self.slot(i).offset as int + self.slot(i).length as int,
        )
    }

    /// A tuple of `s` bytes fits if the directory, grown by one entry,
    /// still ends at or below the new payload's first byte.
    pub open spec fn can_fit(self, s: int) -> bool {
        4 * (self.header.num_tuples as int) + 4 + s <= self.free_top()
    }

    /// Well-formedness: the buffer has its fixed size, the counters are
    /// consistent, the directory ends at or below the payload region, and
    /// the slots describe nonempty payloads packed contiguously downward
    /// from the top of the buffer.
    pub open spec fn wf(self) -> bool {
        &&& self.buffer@.len() == BUFFER_SIZE as int
        &&& self.header.deleted_tuples <= self.header.num_tuples
        &&& 4 * (self.header.num_tuples as int) <= self.free_top()
        &&& forall|i: int|
            0 <= i < self.header.num_tuples as int ==> 1 <= (#[trigger] self.slot(i)).length
        &&& forall|i: int|
            0 <= i < self.header.num_tuples as int ==> (#[trigger] self.slot(i)).offset as int
                + self.slot(i).length as int == self.prior_offset(i)
    }

    /// Slot offsets decrease as the slot index grows: later tuples sit
    /// lower in the buffer.
    proof fn lemma_offsets_decrease(self, i: int, j: int)
        requires
            self.wf(),
            0 <= i <= j < self.header.num_tuples as int,
        ensures
            self.slot(j).offset as int <= self.slot(i).offset as int,
        decreases j - i,
    {
        if i < j {
            self.lemma_offsets_decrease(i, j - 1);
            assert(self.slot(j).offset as int + self.slot(j).length as int == self.prior_offset(
                j,
            ));
            assert(self.prior_offset(j) == self.slot(j - 1).offset as int);
        }
    }

    /// Every slot's payload lies between the payload region's lower
    /// boundary and the top of the buffer.
    pub proof fn lemma_slot_in_payload_region(self, i: int)
        requires
            self.wf(),
            0 <= i < self.header.num_tuples as int,
        ensures
            self.free_top() <= self.slot(i).offset as int,
            self.slot(i).offset as int + self.slot(i).length as int <= BUFFER_SIZE as int,
    {
        let last: int = self.header.num_tuples as int - 1;
        self.lemma_offsets_decrease(i, last);
        assert(self.free_top() == self.slot(last).offset as int);
        assert(self.slot(0).offset as int + self.slot(0).length as int == BUFFER_SIZE as int);
        if i > 0 {
            self.lemma_offsets_decrease(0, i - 1);
            assert(self.slot(i).offset as int + self.slot(i).length as int == self.slot(
                i - 1,
            ).offset as int);
        }
    }

    /// Constructs a new empty page with the given id and type.
    pub fn new(id: u32, page_type: PageType) -> (page: SlottedPage)
        ensures
            page.wf(),
            page.header.id == id,
            page.header.page_type == page_type,
            page.header.num_tuples == 0,
            page.header.deleted_tuples == 0,
            page.buffer@ == Seq::new(BUFFER_SIZE as nat, |i: int| 0u8),
    {
        let header = PageHeader { id, page_type, num_tuples: 0, deleted_tuples: 0 };
        let buffer: Vec<u8> = vec![0u8; BUFFER_SIZE as usize];
        SlottedPage { header, buffer }
    }

    /// Computes where the next tuple's payload would start: flush against
    /// the top of the buffer for the first tuple, directly below the most
    /// recently written payload otherwise. Rejects a zero-size or
    /// oversized tuple with `InvalidTuple` and one that would make the
    /// directory and payload regions overlap with `PageFull`; on either
    /// error nothing about the page has been touched.
    pub fn get_new_tuple_offset(&self, tuple_size: u16) -> (r: Result<u16, PageError>)
        requires
            self.wf(),
        ensures
            (tuple_size == 0 || tuple_size > BUFFER_SIZE) ==> r == Err::<u16, PageError>(
                PageError::InvalidTuple,
            ),
            1 <= tuple_size <= BUFFER_SIZE ==> if self.can_fit(tuple_size as int) {
                r == Ok::<u16, PageError>((self.free_top() - tuple_size) as u16)
            } else {
                r == Err::<u16, PageError>(PageError::PageFull)
            },
    {
        if tuple_size == 0 || tuple_size > BUFFER_SIZE {
            return Err(PageError::InvalidTuple);
        }
        let num: u16 = self.header.num_tuples;
        let prev_offset: u16 = if num == 0 {
            BUFFER_SIZE
        } else {
            proof {
                self.lemma_slot_in_payload_region(num as int - 1);
            }
            let start: usize = (num as usize - 1) * 4;
            let slot_bytes: &[u8] = vstd::slice::slice_subrange(
                self.buffer.as_slice(),
                start,
                start + 4,
            );
            match TupleMetadata::from_slice(slot_bytes) {
                Ok(meta) => meta.offset,
                Err(_) => {
                    proof {
                        assert(false);
                    }
                    0
                },
            }
        };
        proof {
            assert(prev_offset as int == self.free_top());
        }
        let directory_end: usize = (num as usize) * 4 + 4;
        if directory_end + (tuple_size as usize) > (prev_offset as usize) {
            return Err(PageError::PageFull);
        }
        Ok(prev_offset - tuple_size)
    }

    /// Total payload bytes addressed by the first `n` slots.
    pub open spec fn sum_lengths(self, n: int) -> int
        decreases n,
    {
        if n <= 0 {
            0
        } else {
            self.sum_lengths(n - 1) + self.slot(n - 1).length
        }
    }

    /// The payload region boundary before slot `n` sits exactly
    /// `sum_lengths(n)` bytes below the top of the buffer: payloads are
    /// packed with no gaps.
    proof fn lemma_prior_offset_is_buffer_minus_sum(self, n: int)
        requires
            self.wf(),
            0 <= n <= self.header.num_tuples as int,
        ensures
            self.prior_offset(n) == BUFFER_SIZE as int - self.sum_lengths(n),
        decreases n,
    {
        if n > 0 {
            self.lemma_prior_offset_is_buffer_minus_sum(n - 1);
            assert(self.slot(n - 1).offset as int + self.slot(n - 1).length as int
                == self.prior_offset(n - 1));
        }
    }

    /// Occupancy bound: on any well-formed page with `N` tuples of total
    /// payload size `S`, the directory and the payloads together occupy
    /// at most the buffer, `4 * N + S <= BUFFER_SIZE`. Since `insert`
    /// keeps the page well formed and adds exactly one slot per success,
    /// the bound holds after every successful insert.
    pub proof fn lemma_occupancy_bound(self)
        requires
            self.wf(),
        ensures
            4 * (self.header.num_tuples as int) + self.sum_lengths(self.header.num_tuples as int)
                <= BUFFER_SIZE as int,
            self.sum_lengths(self.header.num_tuples as int) >= 0,
    {
        self.lemma_prior_offset_is_buffer_minus_sum(self.header.num_tuples as int);
        assert forall|n: int| 0 <= n <= self.header.num_tuples as int implies #[trigger] self
            .sum_lengths(n) >= 0 by {
            self.lemma_sum_lengths_nonneg(n);
        }
    }

    /// Each slot contributes a nonnegative length to the running sum.
    proof fn lemma_sum_lengths_nonneg(self, n: int)
        requires
            0 <= n,
        ensures
            self.sum_lengths(n) >= 0,
        decreases n,
    {
        if n > 0 {
            self.lemma_sum_lengths_nonneg(n - 1);
        }
    }

    /// After the buffer writes of a successful insert, the page is well
    /// formed again, the new slot addresses the new payload, and every
    /// earlier slot and payload reads back unchanged.
    proof fn lemma_insert_postcondition(self, old_page: SlottedPage, tuple: Seq<u8>)
        requires
            old_page.wf(),
            1 <= tuple.len() <= BUFFER_SIZE as int,
            old_page.can_fit(tuple.len() as int),
            self.header.num_tuples == old_page.header.num_tuples + 1,
            self.header.deleted_tuples == old_page.header.deleted_tuples,
            self.buffer@.len() == BUFFER_SIZE as int,
            self.buffer@.subrange(
                4 * (old_page.header.num_tuples as int),
                4 * (old_page.header.num_tuples as int) + 4,
            ) == spec_encode(
                TupleMetadata {
                    offset: (old_page.free_top() - tuple.len()) as u16,
                    length: tuple.len() as u16,
                },
            ),
            forall|j: int|
                0 <= j < tuple.len() ==> self.buffer@[old_page.free_top() - tuple.len() + j]
                    == tuple[j],
            forall|j: int|
                0 <= j < BUFFER_SIZE as int && !(old_page.free_top() - tuple.len() <= j
                    < old_page.free_top()) && !(4 * (old_page.header.num_tuples as int) <= j < 4 * (
                old_page.header.num_tuples as int) + 4) ==> self.buffer@[j] == old_page.buffer@[j],
        ensures
            self.wf(),
            self.slot(old_page.header.num_tuples as int) == (TupleMetadata {
                offset: (old_page.free_top() - tuple.len()) as u16,
                length: tuple.len() as u16,
            }),
            self.tuple_bytes(old_page.header.num_tuples as int) == tuple,
            forall|i: int|
                0 <= i < old_page.header.num_tuples as int ==> #[trigger] self.slot(i)
                    == old_page.slot(i),
            forall|i: int|
                0 <= i < old_page.header.num_tuples as int ==> #[trigger] self.tuple_bytes(i)
                    == old_page.tuple_bytes(i),
    {
        let n: int = old_page.header.num_tuples as int;
        let s: int = tuple.len() as int;
        let top: int = old_page.free_top();
        let toff: int = top - s;
        let metadata = TupleMetadata { offset: toff as u16, length: s as u16 };
        if n > 0 {
            old_page.lemma_slot_in_payload_region(n - 1);
        }
        assert(4 * n + 4 <= toff);
        assert(top <= BUFFER_SIZE as int);

        // The directory bytes of the existing slots were not touched.
        assert forall|i: int| 0 <= i < n implies #[trigger] self.slot(i) == old_page.slot(i) by {
            assert(self.buffer@.subrange(4 * i, 4 * i + 4) =~= old_page.buffer@.subrange(
                4 * i,
                4 * i + 4,
            ));
        }

        // The new slot decodes to the descriptor that was encoded into it.
        lemma_decode_encode(metadata);
        assert(self.slot(n) == metadata);

        // The new descriptor addresses exactly the bytes that were copied.
        assert(self.tuple_bytes(n) =~= tuple);

        // The payloads of the existing slots sit at or above `top` and
        // were not touched.
        assert forall|i: int| 0 <= i < n implies #[trigger] self.tuple_bytes(i)
            == old_page.tuple_bytes(i) by {
            old_page.lemma_slot_in_payload_region(i);
            assert(self.tuple_bytes(i) =~= old_page.tuple_bytes(i));
        }

        // Well-formedness: the extended chain of descriptors still packs
        // payloads contiguously downward, and the grown directory still
        // ends at or below the new payload region boundary.
        assert forall|i: int| 0 <= i < n + 1 implies 1 <= (#[trigger] self.slot(i)).length by {
            if i < n {
                assert(old_page.slot(i).length >= 1);
            }
        }
        assert forall|i: int|
            0 <= i < n + 1 implies (#[trigger] self.slot(i)).offset as int + self.slot(
            i,
        ).length as int == self.prior_offset(i) by {
            if i < n {
                assert(self.prior_offset(i) == old_page.prior_offset(i));
            } else {
                assert(self.prior_offset(n) == top);
            }
        }
        assert(self.free_top() == toff);
    }

    /// Inserts a tuple's raw bytes into the page. On success the payload
    /// is copied to the offset computed by `get_new_tuple_offset`, its
    /// descriptor is appended to the slot directory, and `num_tuples` is
    /// incremented; the new tuple is addressable by slot index
    /// `num_tuples - 1` and every earlier slot and payload is unchanged.
    /// On error the page is left byte-for-byte as it was.
    #[verifier::rlimit(50)]
    pub fn insert(&mut self, tuple: &[u8]) -> (r: Result<(), PageError>)
        requires
            old(self).wf(),
        ensures
            final(self).wf(),
            final(self).header.id == old(self).header.id,
            final(self).header.page_type == old(self).header.page_type,
            final(self).header.deleted_tuples == old(self).header.deleted_tuples,
            r is Err ==> *final(self) == *old(self),
            (tuple@.len() == 0 || tuple@.len() > BUFFER_SIZE as int) <==> r == Err::<(),
                PageError,
            >(PageError::InvalidTuple),
            r == Err::<(), PageError>(PageError::PageFull) <==> (1 <= tuple@.len()
                <= BUFFER_SIZE as int && !old(self).can_fit(tuple@.len() as int)),
            r is Ok <==> (1 <= tuple@.len() <= BUFFER_SIZE as int && old(self).can_fit(
                tuple@.len() as int,
            )),
            r is Ok ==> {
                &&& final(self).header.num_tuples == old(self).header.num_tuples + 1
                &&& final(self).slot(old(self).header.num_tuples as int) == (TupleMetadata {
                    offset: (old(self).free_top() - tuple@.len()) as u16,
                    length: tuple@.len() as u16,
                })
                &&& final(self).tuple_bytes(old(self).header.num_tuples as int) == tuple@
                &&& forall|i: int|
                    0 <= i < old(self).header.num_tuples as int ==> #[trigger] final(self).slot(i)
                        == old(self).slot(i)
                &&& forall|i: int|
                    0 <= i < old(self).header.num_tuples as int
                        ==> #[trigger] final(self).tuple_bytes(i) == old(self).tuple_bytes(i)
                &&& forall|j: int|
                    0 <= j < BUFFER_SIZE as int && !(4 * (old(self).header.num_tuples as int) <= j
                        < 4 * (old(self).header.num_tuples as int) + 4) && !(old(self).free_top()
                        - tuple@.len() <= j < old(self).free_top()) ==> final(self).buffer@[j]
                        == old(self).buffer@[j]
            },
    {
        if tuple.len() == 0 || tuple.len() > BUFFER_SIZE as usize {
            return Err(PageError::InvalidTuple);
        }
        let tuple_size: u16 = tuple.len() as u16;
        let tuple_offset: u16 = match self.get_new_tuple_offset(tuple_size) {
            Ok(offset) => offset,
            Err(e) => {
                return Err(e);
            },
        };
        proof {
            if old(self).header.num_tuples > 0 {
                old(self).lemma_slot_in_payload_region(old(self).header.num_tuples as int - 1);
            }
        }
        let ghost old_page: SlottedPage = *old(self);
        let metadata_offset: usize = (self.header.num_tuples as usize) * 4;

        let mut i: usize = 0;
        while i < tuple.len()
            invariant
                i <= tuple@.len(),
                tuple@.len() == tuple_size as int,
                tuple_offset as int + tuple_size as int <= BUFFER_SIZE as int,
                self.buffer@.len() == BUFFER_SIZE as int,
                self.header == old_page.header,
                forall|j: int| 0 <= j < i ==> self.buffer@[tuple_offset as int + j] == tuple@[j],
                forall|j: int|
                    0 <= j < BUFFER_SIZE as int && !(tuple_offset as int <= j < tuple_offset as int
                        + i) ==> self.buffer@[j] == old_page.buffer@[j],
            decreases tuple@.len() - i,
        {
            self.buffer[tuple_offset as usize + i] = tuple[i];
            i = i + 1;
        }

        let metadata = TupleMetadata { offset: tuple_offset, length: tuple_size };
        let encoded: Vec<u8> = metadata.encode();
        self.buffer[metadata_offset] = encoded[0];
        self.buffer[metadata_offset + 1] = encoded[1];
        self.buffer[metadata_offset + 2] = encoded[2];
        self.buffer[metadata_offset + 3] = encoded[3];
        self.header.num_tuples = self.header.num_tuples + 1;

        proof {
            let n: int = old_page.header.num_tuples as int;
            assert(tuple_offset as int == old_page.free_top() - tuple@.len());
            assert(self.buffer@.subrange(4 * n, 4 * n + 4) =~= encoded@);
            self.lemma_insert_postcondition(old_page, tuple@);
        }
        Ok(())
    }

    /// Decodes the descriptor stored at the given slot index, or `None`
    /// when no such slot exists yet. The result depends only on the
    /// current page state, so repeated reads between inserts agree.
    pub fn get_slot(&self, index: u16) -> (r: Option<TupleMetadata>)
        requires
            self.wf(),
        ensures
            index < self.header.num_tuples ==> r == Some(self.slot(index as int)),
            index >= self.header.num_tuples ==> r is None,
    {
        if index >= self.header.num_tuples {
            return None;
        }
        proof {
            self.lemma_slot_in_payload_region(self.header.num_tuples as int - 1);
        }
        let start: usize = (index as usize) * 4;
        let slot_bytes: &[u8] = vstd::slice::slice_subrange(self.buffer.as_slice(), start, start + 4);
        match TupleMetadata::from_slice(slot_bytes) {
            Ok(metadata) => Some(metadata),
            Err(_) => {
                proof {
                    assert(false);
                }
                None
            },
        }
    }

    /// Copies out the payload bytes addressed by the given slot index, or
    /// `None` when no such slot exists yet. The result depends only on
    /// the current page state, so repeated reads between inserts agree.
    pub fn get_tuple(&self, index: u16) -> (r: Option<Vec<u8>>)
        requires
            self.wf(),
        ensures
            index < self.header.num_tuples ==> (r matches Some(bytes) && bytes@
                == self.tuple_bytes(index as int)),
            index >= self.header.num_tuples ==> r is None,
    {
        let metadata: TupleMetadata = match self.get_slot(index) {
            Some(metadata) => metadata,
            None => {
                return None;
            },
        };
        proof {
            self.lemma_slot_in_payload_region(index as int);
        }
        let payload: &[u8] = vstd::slice::slice_subrange(
            self.buffer.as_slice(),
            metadata.offset as usize,
            metadata.offset as usize + metadata.length as usize,
        );
        Some(vstd::slice::slice_to_vec(payload))
    }
}

} // verus!
