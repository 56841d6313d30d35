use profiler_toolkit::proc_maps::foreign_memory::{
    page_start, word_range, ForeignMemory, Lookup, MemoryError, Segment,
};

fn spans(memory: &ForeignMemory<u32>) -> Vec<(u64, u64, u32)> {
    let mut spans = Vec::new();
    for index in 0..memory.len() {
        let segment = memory.segment(index).unwrap();
        spans.push((segment.start, segment.end, segment.mapping));
    }
    spans
}

fn read(memory: &mut ForeignMemory<u32>, remaps: &mut u32, start: u64, end: u64) -> usize {
    match memory.lookup(start, end).unwrap() {
        Lookup::Hit { index } => index,
        Lookup::Miss { address, size } => {
            *remaps += 1;
            let index = memory.insert(start, end, *remaps).unwrap();
            let segment = memory.segment(index).unwrap();
            assert_eq!((segment.start, segment.end), (address, address + size));
            index
        }
    }
}

#[test]
fn third_read_is_served_from_the_first_mapping() {
    let mut memory: ForeignMemory<u32> = ForeignMemory::new(7, 0x800).unwrap();
    let mut remaps = 0;
    read(&mut memory, &mut remaps, 0x1000, 0x1008);
    assert_eq!(remaps, 1);
    read(&mut memory, &mut remaps, 0x1800, 0x1808);
    assert_eq!(remaps, 2);
    assert_eq!(memory.lookup(0x1400, 0x1408), Ok(Lookup::Hit { index: 0 }));
    let index = read(&mut memory, &mut remaps, 0x1400, 0x1408);
    assert_eq!(remaps, 2);
    assert_eq!(index, 0);
    assert_eq!(spans(&memory), vec![(0x1000, 0x1800, 1), (0x1800, 0x2000, 2)]);
}

#[test]
fn a_miss_asks_for_whole_pages() {
    let memory: ForeignMemory<u32> = ForeignMemory::new(1, 0x1000).unwrap();
    assert_eq!(
        memory.lookup(0x1234, 0x1235),
        Ok(Lookup::Miss { address: 0x1000, size: 0x1000 })
    );
    assert_eq!(
        memory.lookup(0x1ff8, 0x2008),
        Ok(Lookup::Miss { address: 0x1000, size: 0x2000 })
    );
    assert_eq!(
        memory.lookup(0x0, 0x3001),
        Ok(Lookup::Miss { address: 0x0, size: 0x4000 })
    );
    assert_eq!(memory.page_size(), 0x1000);
    assert_eq!(memory.task(), 1);
}

#[test]
fn a_page_size_that_is_no_power_of_two() {
    let memory: ForeignMemory<u32> = ForeignMemory::new(1, 1000).unwrap();
    assert_eq!(memory.lookup(2500, 3001), Ok(Lookup::Miss { address: 2000, size: 2000 }));
    assert_eq!(page_start(2999, 1000), 2000);
    assert_eq!(page_start(3000, 1000), 3000);
}

#[test]
fn ranges_that_cannot_be_served() {
    let mut memory: ForeignMemory<u32> = ForeignMemory::new(1, 0x1000).unwrap();
    assert_eq!(memory.lookup(0x1000, 0x1000), Err(MemoryError::EmptyRange));
    assert_eq!(memory.lookup(0x1001, 0x1000), Err(MemoryError::EmptyRange));
    assert_eq!(memory.lookup(0, 0), Err(MemoryError::EmptyRange));
    assert_eq!(
        memory.lookup(u64::MAX - 8, u64::MAX),
        Err(MemoryError::InvalidAddress)
    );
    assert_eq!(memory.insert(5, 5, 9), Err(MemoryError::EmptyRange));
    assert_eq!(memory.insert(u64::MAX - 1, u64::MAX, 9), Err(MemoryError::InvalidAddress));
    assert_eq!(memory.len(), 0);
    assert!(ForeignMemory::<u32>::new(1, 0).is_none());
}

#[test]
fn a_new_segment_replaces_those_it_overlaps() {
    let mut memory: ForeignMemory<u32> = ForeignMemory::new(1, 0x100).unwrap();
    assert_eq!(memory.insert(0x100, 0x101, 1), Ok(0));
    assert_eq!(memory.insert(0x300, 0x301, 2), Ok(1));
    assert_eq!(memory.insert(0x500, 0x501, 3), Ok(2));
    assert_eq!(memory.insert(0x700, 0x701, 4), Ok(3));
    assert_eq!(
        spans(&memory),
        vec![(0x100, 0x200, 1), (0x300, 0x400, 2), (0x500, 0x600, 3), (0x700, 0x800, 4)]
    );
    // from inside the second segment to inside the third
    assert_eq!(
        memory.lookup(0x3f0, 0x510),
        Ok(Lookup::Miss { address: 0x300, size: 0x300 })
    );
    assert_eq!(memory.insert(0x3f0, 0x510, 5), Ok(1));
    assert_eq!(spans(&memory), vec![(0x100, 0x200, 1), (0x300, 0x600, 5), (0x700, 0x800, 4)]);
    // from a gap into the last segment
    assert_eq!(memory.insert(0x650, 0x7ff, 6), Ok(2));
    assert_eq!(spans(&memory), vec![(0x100, 0x200, 1), (0x300, 0x600, 5), (0x600, 0x800, 6)]);
    // from the first segment into a gap
    assert_eq!(memory.insert(0x1ff, 0x201, 7), Ok(0));
    assert_eq!(spans(&memory), vec![(0x100, 0x300, 7), (0x300, 0x600, 5), (0x600, 0x800, 6)]);
    // over everything
    assert_eq!(memory.insert(0x0, 0x900, 8), Ok(0));
    assert_eq!(spans(&memory), vec![(0x0, 0x900, 8)]);
}

#[test]
fn segments_stay_sorted_and_apart() {
    let mut memory: ForeignMemory<u32> = ForeignMemory::new(1, 0x40).unwrap();
    let mut remaps = 0;
    let mut address: u64 = 0x9000;
    for step in 0..200u64 {
        address = (address * 31 + step * 977 + 11) % 0x4000;
        read(&mut memory, &mut remaps, address, address + 1 + (step % 90));
        let spans = spans(&memory);
        for span in &spans {
            assert!(span.0 < span.1);
            assert_eq!(span.0 % 0x40, 0);
            assert_eq!(span.1 % 0x40, 0);
        }
        for pair in spans.windows(2) {
            assert!(pair[0].1 <= pair[1].0);
        }
    }
    assert!(remaps > 0);
}

#[test]
fn addresses_are_found_by_their_segment() {
    let mut memory: ForeignMemory<u32> = ForeignMemory::new(1, 0x10).unwrap();
    assert_eq!(memory.data_index_for_address(0x20), Err(0));
    memory.insert(0x20, 0x21, 1).unwrap();
    memory.insert(0x40, 0x41, 2).unwrap();
    memory.insert(0x50, 0x51, 3).unwrap();
    assert_eq!(memory.data_index_for_address(0x1f), Err(0));
    assert_eq!(memory.data_index_for_address(0x20), Ok(0));
    assert_eq!(memory.data_index_for_address(0x2f), Ok(0));
    assert_eq!(memory.data_index_for_address(0x30), Err(1));
    assert_eq!(memory.data_index_for_address(0x40), Ok(1));
    assert_eq!(memory.data_index_for_address(0x50), Ok(2));
    assert_eq!(memory.data_index_for_address(0x60), Err(3));
    assert_eq!(memory.data_index_for_address(u64::MAX), Err(3));
    assert!(memory.segment(3).is_none());
}

#[test]
fn clearing_drops_every_segment() {
    let mut memory: ForeignMemory<u32> = ForeignMemory::new(1, 0x10).unwrap();
    memory.insert(0x20, 0x21, 1).unwrap();
    memory.insert(0x40, 0x41, 2).unwrap();
    memory.clear();
    assert_eq!(memory.len(), 0);
    assert_eq!(memory.lookup(0x20, 0x21), Ok(Lookup::Miss { address: 0x20, size: 0x10 }));
}

#[test]
fn bytes_are_located_in_their_segment() {
    let segment = Segment { start: 0x1000, end: 0x2000, mapping: () };
    assert_eq!(segment.locate(0x1000, 0x2000), Some((0, 0x1000)));
    assert_eq!(segment.locate(0x1ff8, 0x2000), Some((0xff8, 8)));
    assert_eq!(segment.locate(0x1800, 0x1800), Some((0x800, 0)));
    assert_eq!(segment.locate(0xfff, 0x1001), None);
    assert_eq!(segment.locate(0x1ff8, 0x2001), None);
    assert_eq!(segment.locate(0x1800, 0x17ff), None);
}

#[test]
fn words_have_eight_bytes() {
    assert_eq!(word_range(0x1000), Some((0x1000, 0x1008)));
    assert_eq!(word_range(u64::MAX - 8), Some((u64::MAX - 8, u64::MAX)));
    assert_eq!(word_range(u64::MAX - 7), None);
}
