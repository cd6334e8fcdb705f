use slotted_page::storage::slotted_page::{
    PageError, PageType, SlottedPage, TupleMetadata, BUFFER_SIZE, HEADER_SIZE, PAGE_SIZE,
};

#[test]
fn layout_constants() {
    assert_eq!(PAGE_SIZE, 4096);
    assert_eq!(HEADER_SIZE, 9);
    assert_eq!(BUFFER_SIZE, 4087);
}

#[test]
fn new_page_is_empty() {
    let page = SlottedPage::new(42, PageType::ROOT);
    assert_eq!(page.header.id, 42);
    assert_eq!(page.header.page_type, PageType::ROOT);
    assert_eq!(page.header.num_tuples, 0);
    assert_eq!(page.header.deleted_tuples, 0);
    assert_eq!(page.buffer.len(), BUFFER_SIZE as usize);
    assert!(page.buffer.iter().all(|b| *b == 0));
}

#[test]
fn encode_is_little_endian() {
    let metadata = TupleMetadata { offset: 0x1234, length: 0x0400 };
    assert_eq!(metadata.encode(), vec![0x34, 0x12, 0x00, 0x04]);
}

#[test]
fn decode_reads_little_endian() {
    let decoded = TupleMetadata::from_slice(&[0x34, 0x12, 0x00, 0x04]).unwrap();
    assert_eq!(decoded, TupleMetadata { offset: 0x1234, length: 0x0400 });
}

#[test]
fn codec_round_trip() {
    let cases = [
        TupleMetadata { offset: 0, length: 0 },
        TupleMetadata { offset: 1, length: 1 },
        TupleMetadata { offset: 4079, length: 8 },
        TupleMetadata { offset: 255, length: 256 },
        TupleMetadata { offset: u16::MAX, length: u16::MAX },
    ];
    for metadata in cases {
        let encoded = metadata.encode();
        assert_eq!(encoded.len(), 4);
        let decoded = TupleMetadata::from_slice(&encoded).unwrap();
        assert_eq!(decoded, metadata);
    }
}

#[test]
fn decode_rejects_wrong_lengths() {
    let bytes = [0u8; 8];
    for len in [0usize, 1, 2, 3, 5, 8] {
        let result = TupleMetadata::from_slice(&bytes[..len]);
        assert_eq!(result, Err(PageError::MalformedSlot));
    }
}

#[test]
fn occupancy_bound_holds_after_each_insert() {
    let mut page = SlottedPage::new(1, PageType::LEAF);
    let sizes: [usize; 5] = [8, 100, 1, 512, 64];
    let mut total: usize = 0;
    for (n, size) in sizes.iter().enumerate() {
        let tuple = vec![0xAB; *size];
        assert_eq!(page.insert(&tuple), Ok(()));
        total += size;
        assert_eq!(page.header.num_tuples as usize, n + 1);
        assert!(4 * (n + 1) + total <= BUFFER_SIZE as usize);
    }
}

#[test]
fn failed_insert_leaves_page_unchanged() {
    let mut page = SlottedPage::new(7, PageType::INTERNAL);
    page.insert(&vec![5u8; 4000]).unwrap();
    let num_before = page.header.num_tuples;
    let deleted_before = page.header.deleted_tuples;
    let buffer_before = page.buffer.clone();

    // The directory ends at byte 8; a 100-byte tuple would need bytes
    // [4087 - 4000 - 100, 87) and the new slot would end at byte 8 + 4.
    assert_eq!(page.insert(&vec![9u8; 100]), Err(PageError::PageFull));
    assert_eq!(page.header.num_tuples, num_before);
    assert_eq!(page.header.deleted_tuples, deleted_before);
    assert_eq!(page.buffer, buffer_before);

    assert_eq!(page.insert(&[]), Err(PageError::InvalidTuple));
    assert_eq!(page.header.num_tuples, num_before);
    assert_eq!(page.header.deleted_tuples, deleted_before);
    assert_eq!(page.buffer, buffer_before);
}

#[test]
fn repeated_reads_agree() {
    let mut page = SlottedPage::new(3, PageType::LEAF);
    page.insert(&[1, 2, 3, 4, 5]).unwrap();
    page.insert(&[6, 7, 8]).unwrap();

    let first = page.get_tuple(0).unwrap();
    let again = page.get_tuple(0).unwrap();
    assert_eq!(first, again);
    assert_eq!(first, vec![1, 2, 3, 4, 5]);

    let slot = page.get_slot(1).unwrap();
    let slot_again = page.get_slot(1).unwrap();
    assert_eq!(slot, slot_again);

    page.insert(&[9]).unwrap();
    assert_eq!(page.get_tuple(0).unwrap(), vec![1, 2, 3, 4, 5]);
    assert_eq!(page.get_tuple(1).unwrap(), vec![6, 7, 8]);
    assert_eq!(page.get_tuple(2).unwrap(), vec![9]);
}

#[test]
fn reads_out_of_range_return_none() {
    let mut page = SlottedPage::new(3, PageType::LEAF);
    assert_eq!(page.get_slot(0), None);
    assert_eq!(page.get_tuple(0), None);
    page.insert(&[1, 2]).unwrap();
    assert_eq!(page.get_slot(1), None);
    assert_eq!(page.get_tuple(1), None);
}

#[test]
fn two_eight_byte_tuples() {
    let mut page = SlottedPage::new(1, PageType::LEAF);

    let tuple_a = [0x11u8; 8];
    assert_eq!(page.insert(&tuple_a), Ok(()));
    assert_eq!(
        page.get_slot(0),
        Some(TupleMetadata { offset: BUFFER_SIZE - 8, length: 8 })
    );

    let tuple_b = [0x22u8; 8];
    assert_eq!(page.insert(&tuple_b), Ok(()));
    assert_eq!(
        page.get_slot(1),
        Some(TupleMetadata { offset: BUFFER_SIZE - 16, length: 8 })
    );

    assert_eq!(page.header.num_tuples, 2);
    assert_eq!(page.get_tuple(0).unwrap(), tuple_a.to_vec());
    assert_eq!(page.get_tuple(1).unwrap(), tuple_b.to_vec());
}

#[test]
fn page_fills_at_maximum_tuple_count() {
    let size: usize = 8;
    // The largest count with count * (4 + size) <= BUFFER_SIZE.
    let max_count = (BUFFER_SIZE as usize) / (4 + size);
    assert!(max_count * (4 + size) <= BUFFER_SIZE as usize);
    assert!((BUFFER_SIZE as usize) < (max_count + 1) * (4 + size));

    let mut page = SlottedPage::new(9, PageType::LEAF);
    let tuple = vec![0xCD; size];
    for _ in 0..max_count {
        assert_eq!(page.insert(&tuple), Ok(()));
    }
    assert_eq!(page.header.num_tuples as usize, max_count);
    assert_eq!(page.insert(&tuple), Err(PageError::PageFull));
    assert_eq!(page.header.num_tuples as usize, max_count);
}

#[test]
fn invalid_tuple_sizes_are_rejected() {
    let mut page = SlottedPage::new(2, PageType::LEAF);
    assert_eq!(page.insert(&[]), Err(PageError::InvalidTuple));
    let oversized = vec![0u8; BUFFER_SIZE as usize + 1];
    assert_eq!(page.insert(&oversized), Err(PageError::InvalidTuple));
    assert_eq!(page.header.num_tuples, 0);

    // The largest size that is not invalid still fails only on capacity.
    let barely_oversized = vec![0u8; BUFFER_SIZE as usize];
    assert_eq!(page.insert(&barely_oversized), Err(PageError::PageFull));
    // The largest size that actually fits beside its descriptor succeeds.
    let largest_fitting = vec![0u8; BUFFER_SIZE as usize - 4];
    assert_eq!(page.insert(&largest_fitting), Ok(()));
    assert_eq!(page.header.num_tuples, 1);
    assert_eq!(page.get_slot(0), Some(TupleMetadata { offset: 4, length: BUFFER_SIZE - 4 }));
}

#[test]
fn get_new_tuple_offset_reports_placement() {
    let mut page = SlottedPage::new(5, PageType::LEAF);
    assert_eq!(page.get_new_tuple_offset(10), Ok(BUFFER_SIZE - 10));
    assert_eq!(page.get_new_tuple_offset(0), Err(PageError::InvalidTuple));
    assert_eq!(page.get_new_tuple_offset(BUFFER_SIZE + 1), Err(PageError::InvalidTuple));
    assert_eq!(page.get_new_tuple_offset(BUFFER_SIZE), Err(PageError::PageFull));

    page.insert(&[1, 2, 3, 4, 5, 6, 7, 8, 9, 10]).unwrap();
    assert_eq!(page.get_new_tuple_offset(10), Ok(BUFFER_SIZE - 20));
}

#[test]
fn payload_bytes_land_at_reported_offsets() {
    let mut page = SlottedPage::new(11, PageType::LEAF);
    page.insert(&[0xDE, 0xAD]).unwrap();
    page.insert(&[0xBE, 0xEF, 0x01]).unwrap();

    // First payload flush at the top, second packed directly below it.
    let top = BUFFER_SIZE as usize;
    assert_eq!(&page.buffer[top - 2..top], &[0xDE, 0xAD]);
    assert_eq!(&page.buffer[top - 5..top - 2], &[0xBE, 0xEF, 0x01]);

    // The directory holds both descriptors back to back.
    assert_eq!(&page.buffer[0..4], &[0xF5, 0x0F, 0x02, 0x00]);
    assert_eq!(&page.buffer[4..8], &[0xF2, 0x0F, 0x03, 0x00]);
}
