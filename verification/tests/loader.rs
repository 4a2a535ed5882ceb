use frisc::loader::{
    build_ram, check_header, load, place_segment, required_ram_size, ImageHeader, LoadError,
    Segment, DEFAULT_STACK_SIZE, MAGIC,
};

const MIB: usize = 1024 * 1024;

fn header() -> ImageHeader {
    ImageHeader { magic: MAGIC, machine_is_riscv: true, is_executable: true, entry_point: 0x1_0000 }
}

fn segment(virtual_addr: u64, data: &[u8], mem_size: u64) -> Segment {
    Segment {
        loadable: true,
        virtual_addr,
        file_size: data.len() as u64,
        mem_size,
        data: Some(data.to_vec()),
    }
}

fn other(virtual_addr: u64, mem_size: u64) -> Segment {
    Segment { loadable: false, virtual_addr, file_size: 0, mem_size, data: None }
}

#[test]
fn the_header_is_checked_magic_first() {
    assert_eq!(MAGIC, [0x7f, b'E', b'L', b'F']);
    assert_eq!(DEFAULT_STACK_SIZE, MIB);
    assert_eq!(check_header(&header()), Ok(()));
    let bad_magic = ImageHeader { magic: [0x7f, b'E', b'L', b'G'], ..header() };
    assert_eq!(check_header(&bad_magic), Err(LoadError::InvalidMagic));
    let bad_magic = ImageHeader { magic: [0, b'E', b'L', b'F'], ..header() };
    assert_eq!(check_header(&bad_magic), Err(LoadError::InvalidMagic));
    let other_machine = ImageHeader { machine_is_riscv: false, ..header() };
    assert_eq!(check_header(&other_machine), Err(LoadError::UnsupportedMachine));
    let library = ImageHeader { is_executable: false, ..header() };
    assert_eq!(check_header(&library), Err(LoadError::NotExecutable));
    let all_wrong =
        ImageHeader { magic: [0; 4], machine_is_riscv: false, is_executable: false, entry_point: 0 };
    assert_eq!(check_header(&all_wrong), Err(LoadError::InvalidMagic));
    let two_wrong = ImageHeader { machine_is_riscv: false, is_executable: false, ..header() };
    assert_eq!(check_header(&two_wrong), Err(LoadError::UnsupportedMachine));
}

#[test]
fn the_image_ends_where_its_last_segment_ends() {
    assert_eq!(required_ram_size(&vec![segment(0x100, &[1, 2, 3], 3)]), Ok(0x103));
    assert_eq!(required_ram_size(&vec![segment(0x100, &[1, 2, 3], 0x40)]), Ok(0x140));
    let segments = vec![segment(0x1000, &[1], 0x10), segment(0x100, &[1], 0x2000), segment(0, &[], 0)];
    assert_eq!(required_ram_size(&segments), Ok(0x2100));
    // segments that are not loaded do not count
    let segments = vec![other(0x9000, 0x1000), segment(0x100, &[1], 1), other(0x8000, 1)];
    assert_eq!(required_ram_size(&segments), Ok(0x101));
    assert_eq!(required_ram_size(&vec![segment(0, &[], 0)]), Ok(0));
}

#[test]
fn an_image_needs_a_segment_to_load() {
    assert_eq!(required_ram_size(&vec![]), Err(LoadError::NoLoadableSegment));
    assert_eq!(required_ram_size(&vec![other(0, 16)]), Err(LoadError::NoLoadableSegment));
    assert_eq!(build_ram(&vec![], None), Err(LoadError::NoLoadableSegment));
    assert_eq!(build_ram(&vec![other(0, 16)], Some(64)), Err(LoadError::NoLoadableSegment));
}

#[test]
fn an_image_that_ends_beyond_what_can_be_counted_is_too_large() {
    let segments = vec![segment(u64::MAX, &[], 1)];
    assert_eq!(required_ram_size(&segments), Err(LoadError::ImageTooLarge));
    let segments = vec![segment(1, &[], u64::MAX)];
    assert_eq!(required_ram_size(&segments), Err(LoadError::ImageTooLarge));
    assert_eq!(build_ram(&segments, None), Err(LoadError::ImageTooLarge));
    let segments = vec![segment(0, &[1], 1), segment(u64::MAX - 1, &[], 2), segment(8, &[1], 1)];
    assert_eq!(required_ram_size(&segments), Err(LoadError::ImageTooLarge));
    // the stack has to fit too
    let segments = vec![segment(0, &[], (usize::MAX as u64) - 8)];
    assert_eq!(required_ram_size(&segments), Ok(usize::MAX - 8));
    assert_eq!(build_ram(&segments, None), Err(LoadError::ImageTooLarge));
    assert_eq!(build_ram(&vec![segment(0, &[1], 1)], Some(usize::MAX - MIB - 2)), Err(LoadError::ImageTooLarge));
}

#[test]
fn the_ram_has_room_for_the_stack_and_is_a_multiple_of_4() {
    for (mem_size, expected) in [(0u64, MIB), (1, MIB + 4), (3, MIB + 4), (4, MIB + 4), (5, MIB + 8), (0x1001, MIB + 0x1004)] {
        let ram = build_ram(&vec![segment(0, &[], mem_size)], None).unwrap();
        assert_eq!(ram.len(), expected, "mem_size {}", mem_size);
    }
    for (ram_size, expected) in [(16usize, MIB + 16), (17, MIB + 20), (18, MIB + 20), (19, MIB + 20), (20, MIB + 20)] {
        let ram = build_ram(&vec![segment(0, &[1; 16], 16)], Some(ram_size)).unwrap();
        assert_eq!(ram.len(), expected, "ram_size {}", ram_size);
    }
}

#[test]
fn the_ram_asked_for_may_not_be_smaller_than_the_image() {
    let segments = vec![segment(0x10, &[1; 16], 0x20)];
    assert_eq!(build_ram(&segments, Some(0x2f)), Err(LoadError::RamTooSmall));
    assert_eq!(build_ram(&segments, Some(0)), Err(LoadError::RamTooSmall));
    assert_eq!(build_ram(&segments, Some(0x30)).unwrap().len(), MIB + 0x30);
}

#[test]
fn segments_are_placed_at_their_addresses() {
    let segments = vec![
        segment(4, &[1, 2, 3], 3),
        other(0, 16),
        segment(0x10, &[0xaa, 0xbb], 6),
    ];
    let ram = build_ram(&segments, None).unwrap();
    assert_eq!(ram.len(), MIB + 0x18);
    assert_eq!(
        &ram[..0x18],
        &[0, 0, 0, 0, 1, 2, 3, 0, 0, 0, 0, 0, 0, 0, 0, 0, 0xaa, 0xbb, 0, 0, 0, 0, 0, 0]
    );
    assert!(ram[0x18..].iter().all(|byte| *byte == 0));
}

#[test]
fn a_later_segment_lies_over_an_earlier_one() {
    let segments = vec![segment(0, &[1, 1, 1, 1, 1, 1], 6), segment(2, &[2, 2], 3)];
    let ram = build_ram(&segments, None).unwrap();
    assert_eq!(&ram[..8], &[1, 1, 2, 2, 0, 1, 0, 0]);
    let segments = vec![segment(2, &[2, 2], 3), segment(0, &[1, 1, 1, 1, 1, 1], 6)];
    let ram = build_ram(&segments, None).unwrap();
    assert_eq!(&ram[..8], &[1, 1, 1, 1, 1, 1, 0, 0]);
}

#[test]
fn a_segment_takes_the_bytes_that_its_header_counts() {
    let mut ram = vec![0xff; 12];
    let longer = Segment {
        loadable: true,
        virtual_addr: 2,
        file_size: 3,
        mem_size: 5,
        data: Some(vec![1, 2, 3, 4, 5, 6]),
    };
    assert_eq!(place_segment(&mut ram, &longer), Ok(()));
    assert_eq!(ram, vec![0xff, 0xff, 1, 2, 3, 0, 0, 0xff, 0xff, 0xff, 0xff, 0xff]);

    // a segment whose file size exceeds its size in RAM is placed whole
    let mut ram = vec![0xff; 8];
    let segment = Segment {
        loadable: true,
        virtual_addr: 1,
        file_size: 4,
        mem_size: 2,
        data: Some(vec![1, 2, 3, 4]),
    };
    assert_eq!(place_segment(&mut ram, &segment), Ok(()));
    assert_eq!(ram, vec![0xff, 1, 2, 3, 4, 0xff, 0xff, 0xff]);

    let mut ram = vec![0xff; 4];
    assert_eq!(place_segment(&mut ram, &segment_at_end()), Ok(()));
    assert_eq!(ram, vec![0xff, 0xff, 7, 0]);
}

fn segment_at_end() -> Segment {
    segment(2, &[7], 2)
}

#[test]
fn a_segment_that_cannot_be_placed_is_an_error() {
    let mut ram = vec![0xff; 8];
    let short = Segment {
        loadable: true,
        virtual_addr: 0,
        file_size: 4,
        mem_size: 4,
        data: Some(vec![1, 2, 3]),
    };
    assert_eq!(place_segment(&mut ram, &short), Err(LoadError::MalformedSegment));
    assert_eq!(place_segment(&mut ram, &segment(6, &[1, 2, 3], 3)), Err(LoadError::MalformedSegment));
    assert_eq!(place_segment(&mut ram, &segment(6, &[1], 3)), Err(LoadError::MalformedSegment));
    assert_eq!(place_segment(&mut ram, &segment(9, &[], 0)), Err(LoadError::MalformedSegment));
    assert_eq!(place_segment(&mut ram, &segment(u64::MAX, &[1], 1)), Err(LoadError::MalformedSegment));
    let no_bytes =
        Segment { loadable: true, virtual_addr: 0, file_size: 0, mem_size: 0, data: None };
    assert_eq!(place_segment(&mut ram, &no_bytes), Err(LoadError::UnsupportedSegment));
    assert_eq!(ram, vec![0xff; 8]);
    // the end of RAM itself is a place for nothing
    assert_eq!(place_segment(&mut ram, &segment(8, &[], 0)), Ok(()));
    assert_eq!(ram, vec![0xff; 8]);
}

#[test]
fn the_first_segment_that_cannot_be_placed_gives_the_error() {
    let no_bytes =
        Segment { loadable: true, virtual_addr: 0, file_size: 0, mem_size: 4, data: None };
    let short = Segment {
        loadable: true,
        virtual_addr: 0,
        file_size: 4,
        mem_size: 4,
        data: Some(vec![1, 2, 3]),
    };
    let segments = vec![segment(0, &[1], 1), no_bytes, short];
    assert_eq!(build_ram(&segments, None), Err(LoadError::UnsupportedSegment));
    let no_bytes =
        Segment { loadable: true, virtual_addr: 0, file_size: 0, mem_size: 4, data: None };
    let short = Segment {
        loadable: true,
        virtual_addr: 0,
        file_size: 4,
        mem_size: 4,
        data: Some(vec![1, 2, 3]),
    };
    let segments = vec![segment(0, &[1], 1), short, no_bytes];
    assert_eq!(build_ram(&segments, None), Err(LoadError::MalformedSegment));
    // a segment that is not loaded may hold anything
    let segments = vec![other(u64::MAX, u64::MAX), segment(0, &[1], 1)];
    assert_eq!(build_ram(&segments, None).unwrap().len(), MIB + 4);
    // a segment whose file size reaches beyond the RAM
    let huge = Segment {
        loadable: true,
        virtual_addr: 0,
        file_size: 2 * MIB as u64,
        mem_size: 0,
        data: Some(vec![0; 2 * MIB]),
    };
    assert_eq!(build_ram(&vec![huge], None), Err(LoadError::MalformedSegment));
}

#[test]
fn load_chooses_the_program_counter_and_the_stack_pointer() {
    let segments = vec![segment(0x1_0000, &[0x13, 0, 0, 0], 4)];
    let image = load(&header(), &segments, None, None).unwrap();
    assert_eq!(image.ram.len(), MIB + 0x1_0004);
    assert_eq!(image.initial_pc, 0x1_0000);
    assert_eq!(image.initial_sp, (MIB + 0x1_0004) as u32);
    assert_eq!(&image.ram[0x1_0000..0x1_0004], &[0x13, 0, 0, 0]);

    let image = load(&header(), &segments, Some(0x2_0000), Some(0x8000)).unwrap();
    assert_eq!(image.ram.len(), MIB + 0x2_0000);
    assert_eq!(image.initial_pc, 0x1_0000);
    assert_eq!(image.initial_sp, 0x8000);

    let wide = ImageHeader { entry_point: 0x1_2345_6789, ..header() };
    let image = load(&wide, &segments, None, Some(0)).unwrap();
    assert_eq!(image.initial_pc, 0x2345_6789);
    assert_eq!(image.initial_sp, 0);
}

#[test]
fn load_fails_on_the_header_before_the_segments() {
    let bad = ImageHeader { machine_is_riscv: false, ..header() };
    assert_eq!(load(&bad, &vec![], None, None).err(), Some(LoadError::UnsupportedMachine));
    assert_eq!(load(&header(), &vec![], None, None).err(), Some(LoadError::NoLoadableSegment));
    let segments = vec![segment(0, &[1; 64], 64)];
    assert_eq!(load(&header(), &segments, Some(63), None).err(), Some(LoadError::RamTooSmall));
    let bad = ImageHeader { is_executable: false, ..header() };
    assert_eq!(load(&bad, &segments, Some(63), None).err(), Some(LoadError::NotExecutable));
}
