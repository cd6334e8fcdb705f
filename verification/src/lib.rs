//! A fixed-size, in-memory slotted page for a tuple store.
//!
//! A page is a 4096-byte unit: a 9-byte header (id, type tag, tuple counts)
//! followed by a 4087-byte buffer. A slot directory of 4-byte descriptors
//! grows from the low end of the buffer while tuple payloads are packed
//! downward from the high end. Inserts enforce a capacity guard so the two
//! regions never overlap, and a rejected insert leaves the page unchanged.

pub mod storage;
