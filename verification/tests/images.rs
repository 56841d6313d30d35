use profiler_toolkit::proc_maps::images::{
    DyldInfo, ImageError, ImageScanner, ReadRequest, ALL_IMAGE_INFOS_SIZE, FILE_PATH_SIZE,
    IMAGE_INFO_SIZE, MACH_HEADER_SIZE,
};
use profiler_toolkit::proc_maps::load_commands::{
    parse_load_commands, read_u32, read_u64, CommandError, LC_SEGMENT_64, LC_UUID,
};
use uuid::Uuid;

fn segment_command(name: &[u8], vmsize: u64) -> Vec<u8> {
    let mut command = Vec::new();
    command.extend_from_slice(&LC_SEGMENT_64.to_le_bytes());
    command.extend_from_slice(&72u32.to_le_bytes());
    let mut segname = [0u8; 16];
    segname[..name.len()].copy_from_slice(name);
    command.extend_from_slice(&segname);
    command.extend_from_slice(&0x1_0000_0000u64.to_le_bytes());
    command.extend_from_slice(&vmsize.to_le_bytes());
    command.extend_from_slice(&[0u8; 32]);
    assert_eq!(command.len(), 72);
    command
}

fn uuid_command(uuid: [u8; 16]) -> Vec<u8> {
    let mut command = Vec::new();
    command.extend_from_slice(&LC_UUID.to_le_bytes());
    command.extend_from_slice(&24u32.to_le_bytes());
    command.extend_from_slice(&uuid);
    command
}

fn other_command(code: u32, size: u32) -> Vec<u8> {
    let mut command = Vec::new();
    command.extend_from_slice(&code.to_le_bytes());
    command.extend_from_slice(&size.to_le_bytes());
    command.resize(size as usize, 0xee);
    command
}

const ID: [u8; 16] = [1, 2, 3, 4, 5, 6, 7, 8, 9, 10, 11, 12, 13, 14, 15, 16];

#[test]
fn numbers_are_little_endian() {
    let bytes = [0x78, 0x56, 0x34, 0x12, 0xf0, 0xde, 0xbc, 0x9a, 0xff];
    assert_eq!(read_u32(&bytes, 0), 0x1234_5678);
    assert_eq!(read_u32(&bytes, 4), 0x9abc_def0);
    assert_eq!(read_u32(&bytes, 5), 0xff9a_bcde);
    assert_eq!(read_u64(&bytes, 0), 0x9abc_def0_1234_5678);
    assert_eq!(read_u64(&[0xff; 8], 0), u64::MAX);
    assert_eq!(read_u32(&[0xff; 4], 0), u32::MAX);
}

#[test]
fn text_segment_and_uuid_are_found() {
    let mut buffer = Vec::new();
    buffer.extend(segment_command(b"__PAGEZERO", 0x1_0000_0000));
    buffer.extend(segment_command(b"__TEXT", 0x4000));
    buffer.extend(other_command(0x2, 24));
    buffer.extend(uuid_command(ID));
    buffer.extend(segment_command(b"__DATA", 0x8000));
    let facts = parse_load_commands(&buffer, 5).unwrap();
    assert_eq!(facts.vmsize, 0x4000);
    assert_eq!(facts.uuid, Some(Uuid::from_bytes(ID)));
    assert_eq!(facts.uuid.unwrap().as_bytes(), &ID);
}

#[test]
fn only_the_commands_counted_are_read() {
    let mut buffer = Vec::new();
    buffer.extend(segment_command(b"__TEXT", 0x4000));
    buffer.extend(uuid_command(ID));
    let facts = parse_load_commands(&buffer, 1).unwrap();
    assert_eq!(facts.vmsize, 0x4000);
    assert_eq!(facts.uuid, None);
    let facts = parse_load_commands(&buffer, 0).unwrap();
    assert_eq!(facts.vmsize, 0);
    assert_eq!(facts.uuid, None);
    let facts = parse_load_commands(&[], 0).unwrap();
    assert_eq!(facts.vmsize, 0);
}

#[test]
fn segment_names_are_compared_with_their_end() {
    let mut buffer = Vec::new();
    buffer.extend(segment_command(b"__TEXT_EXEC", 0x9000));
    buffer.extend(segment_command(b"__TEX", 0x7000));
    let facts = parse_load_commands(&buffer, 2).unwrap();
    assert_eq!(facts.vmsize, 0);
}

#[test]
fn the_last_text_segment_and_uuid_count() {
    let mut buffer = Vec::new();
    buffer.extend(uuid_command([9; 16]));
    buffer.extend(segment_command(b"__TEXT", 0x4000));
    buffer.extend(segment_command(b"__TEXT", 0x5000));
    buffer.extend(uuid_command(ID));
    let facts = parse_load_commands(&buffer, 4).unwrap();
    assert_eq!(facts.vmsize, 0x5000);
    assert_eq!(facts.uuid, Some(Uuid::from_bytes(ID)));
}

#[test]
fn commands_past_the_buffer_fail() {
    let mut buffer = Vec::new();
    buffer.extend(segment_command(b"__TEXT", 0x4000));
    assert_eq!(parse_load_commands(&buffer, 2).err(), Some(CommandError::Truncated));
    assert_eq!(parse_load_commands(&buffer[..39], 1).err(), Some(CommandError::Truncated));
    assert!(parse_load_commands(&buffer[..40], 1).is_ok());
    assert_eq!(parse_load_commands(&buffer[..7], 1).err(), Some(CommandError::Truncated));
    let id = uuid_command(ID);
    assert_eq!(parse_load_commands(&id[..23], 1).err(), Some(CommandError::Truncated));
    assert!(parse_load_commands(&id, 1).is_ok());
    assert_eq!(parse_load_commands(&[], 1).err(), Some(CommandError::Truncated));
    let far = other_command(0x2, 8);
    let mut far_size = far.clone();
    far_size[4..8].copy_from_slice(&u32::MAX.to_le_bytes());
    assert_eq!(parse_load_commands(&far_size, 2).err(), Some(CommandError::Truncated));
    assert!(parse_load_commands(&far_size, 1).is_ok());
}

#[test]
fn a_command_of_size_zero_is_read_again() {
    let stuck = other_command(0x2, 8);
    let mut buffer = stuck.clone();
    buffer[4..8].copy_from_slice(&0u32.to_le_bytes());
    let facts = parse_load_commands(&buffer, 1000).unwrap();
    assert_eq!(facts.vmsize, 0);
}

struct Process {
    regions: Vec<(u64, Vec<u8>)>,
}

impl Process {
    fn read(&self, request: ReadRequest) -> Vec<u8> {
        let mut bytes = vec![0u8; request.size as usize];
        for (start, region) in &self.regions {
            for (offset, byte) in region.iter().enumerate() {
                let address = start + offset as u64;
                if address >= request.address && address - request.address < request.size {
                    bytes[(address - request.address) as usize] = *byte;
                }
            }
        }
        bytes
    }

    fn image(&mut self, load_address: u64, path_addr: u64, path: &[u8], ncmds: u32, commands: Vec<u8>) {
        let mut header = vec![0u8; 32];
        header[0..4].copy_from_slice(&0xfeed_facfu32.to_le_bytes());
        header[16..20].copy_from_slice(&ncmds.to_le_bytes());
        header[20..24].copy_from_slice(&(commands.len() as u32).to_le_bytes());
        header.extend(commands);
        self.regions.push((load_address, header));
        let mut text = path.to_vec();
        text.push(0);
        text.extend_from_slice(b"rubbish after the end");
        self.regions.push((path_addr, text));
    }

    fn image_list(&mut self, descriptor: u64, array: u64, images: &[(u64, u64)]) {
        let mut bytes = Vec::new();
        bytes.extend_from_slice(&15u32.to_le_bytes());
        bytes.extend_from_slice(&(images.len() as u32).to_le_bytes());
        bytes.extend_from_slice(&array.to_le_bytes());
        self.regions.push((descriptor, bytes));
        let mut entries = Vec::new();
        for (load_address, path_addr) in images {
            entries.extend_from_slice(&load_address.to_le_bytes());
            entries.extend_from_slice(&path_addr.to_le_bytes());
            entries.extend_from_slice(&0u64.to_le_bytes());
        }
        self.regions.push((array, entries));
    }
}

fn scan(process: &Process, descriptor: u64) -> (Result<Vec<DyldInfo>, ImageError>, Vec<ReadRequest>) {
    let mut scanner = ImageScanner::new(descriptor);
    let mut requests = Vec::new();
    let mut failure = None;
    while let Some(request) = scanner.next_request() {
        assert!(!scanner.is_done());
        requests.push(request);
        if let Err(error) = scanner.supply(&process.read(request)) {
            failure = Some(error);
        }
    }
    assert!(scanner.is_done());
    match (scanner.finish(), failure) {
        (Some(images), None) => (Ok(images), requests),
        (None, Some(error)) => (Err(error), requests),
        _ => panic!("the end of the scan and its result disagree"),
    }
}

fn two_images() -> Process {
    let mut process = Process { regions: Vec::new() };
    process.image_list(0x1000, 0x2000, &[(0x9_0000, 0x3000), (0x5_0000, 0x3400)]);
    let mut first = Vec::new();
    first.extend(segment_command(b"__TEXT", 0x4000));
    first.extend(uuid_command(ID));
    process.image(0x9_0000, 0x3000, b"/usr/lib/libfirst.dylib", 2, first);
    process.image(0x5_0000, 0x3400, b"/bin/s\xffcond", 1, segment_command(b"__TEXT", 0x123));
    process
}

#[test]
fn images_are_listed_by_load_address() {
    let (images, requests) = scan(&two_images(), 0x1000);
    let images = images.unwrap();
    assert_eq!(images.len(), 2);
    assert_eq!(images[0].file, "/bin/s\u{fffd}cond");
    assert_eq!(images[0].address, 0x5_0000);
    assert_eq!(images[0].vmsize, 0x123);
    assert_eq!(images[0].uuid, None);
    assert_eq!(images[1].file, "/usr/lib/libfirst.dylib");
    assert_eq!(images[1].address, 0x9_0000);
    assert_eq!(images[1].vmsize, 0x4000);
    assert_eq!(images[1].uuid, Some(Uuid::from_slice(&ID).unwrap()));
    assert_eq!(
        requests,
        vec![
            ReadRequest { address: 0x1000, size: ALL_IMAGE_INFOS_SIZE },
            ReadRequest { address: 0x2000, size: IMAGE_INFO_SIZE },
            ReadRequest { address: 0x3000, size: FILE_PATH_SIZE },
            ReadRequest { address: 0x9_0000, size: MACH_HEADER_SIZE },
            ReadRequest { address: 0x9_0020, size: 96 },
            ReadRequest { address: 0x2018, size: IMAGE_INFO_SIZE },
            ReadRequest { address: 0x3400, size: FILE_PATH_SIZE },
            ReadRequest { address: 0x5_0000, size: MACH_HEADER_SIZE },
            ReadRequest { address: 0x5_0020, size: 72 },
        ]
    );
}

#[test]
fn images_with_one_address_keep_the_order_of_the_array() {
    let mut process = Process { regions: Vec::new() };
    process.image_list(
        0x1000,
        0x2000,
        &[(0x7_0000, 0x3000), (0x5_0000, 0x3400), (0x7_0000, 0x3800), (0x5_0000, 0x3c00)],
    );
    process.image(0x7_0000, 0x3000, b"a", 0, Vec::new());
    process.image(0x5_0000, 0x3400, b"b", 0, Vec::new());
    process.regions.push((0x3800, b"c\0".to_vec()));
    process.regions.push((0x3c00, b"d\0".to_vec()));
    let (images, _) = scan(&process, 0x1000);
    let files: Vec<(String, u64)> =
        images.unwrap().into_iter().map(|image| (image.file, image.address)).collect();
    assert_eq!(
        files,
        vec![
            ("b".to_string(), 0x5_0000),
            ("d".to_string(), 0x5_0000),
            ("a".to_string(), 0x7_0000),
            ("c".to_string(), 0x7_0000),
        ]
    );
}

#[test]
fn an_image_without_commands_needs_no_read_for_them() {
    let mut process = Process { regions: Vec::new() };
    process.image_list(0x1000, 0x2000, &[(0x9_0000, 0x3000)]);
    process.image(0x9_0000, 0x3000, b"", 0, Vec::new());
    let (images, requests) = scan(&process, 0x1000);
    let images = images.unwrap();
    assert_eq!(images.len(), 1);
    assert_eq!(images[0].file, "");
    assert_eq!(images[0].vmsize, 0);
    assert_eq!(requests.len(), 4);
}

#[test]
fn no_images_no_reads() {
    let mut process = Process { regions: Vec::new() };
    process.image_list(0x1000, 0x2000, &[]);
    let (images, requests) = scan(&process, 0x1000);
    assert!(images.unwrap().is_empty());
    assert_eq!(requests.len(), 1);
}

#[test]
fn a_path_without_end_is_cut_after_512_bytes() {
    let mut process = Process { regions: Vec::new() };
    process.image_list(0x1000, 0x2000, &[(0x9_0000, 0x3000)]);
    process.image(0x9_0000, 0x3000, &[b'x'; 600], 0, Vec::new());
    let (images, _) = scan(&process, 0x1000);
    assert_eq!(images.unwrap()[0].file, "x".repeat(512));
}

#[test]
fn scans_fail_on_short_reads() {
    let mut scanner = ImageScanner::new(0x1000);
    assert_eq!(scanner.supply(&[0u8; 15]), Err(ImageError::ShortRead));
    assert_eq!(scanner.next_request(), None);
    assert_eq!(scanner.supply(&[0u8; 16]), Err(ImageError::ShortRead));
    assert!(scanner.finish().is_none());
    let process = two_images();
    let mut scanner = ImageScanner::new(0x1000);
    let request = scanner.next_request().unwrap();
    assert_eq!(scanner.supply(&process.read(request)), Ok(()));
    assert!(scanner.finish().is_none());
}

#[test]
fn scans_fail_on_addresses_past_the_end() {
    let mut scanner = ImageScanner::new(u64::MAX - 15);
    assert_eq!(scanner.next_request(), None);
    assert_eq!(scanner.supply(&[0u8; 16]), Err(ImageError::AddressOverflow));
    assert!(ImageScanner::new(u64::MAX - 16).next_request().is_some());

    // the second entry of the array would end past the address space
    let mut process = Process { regions: Vec::new() };
    process.image_list(0x1000, 0x2000, &[(0x9_0000, 0x3000), (0x9_0000, 0x3000)]);
    process.regions[0].1[8..16].copy_from_slice(&(u64::MAX - 40).to_le_bytes());
    process.image(0x9_0000, 0x3000, b"a", 0, Vec::new());
    let (result, requests) = scan(&process, 0x1000);
    assert_eq!(result.err(), Some(ImageError::AddressOverflow));
    assert_eq!(requests.len(), 4);
    assert_eq!(requests[1], ReadRequest { address: u64::MAX - 40, size: IMAGE_INFO_SIZE });

    let mut process = Process { regions: Vec::new() };
    process.image_list(0x1000, 0x2000, &[(0x9_0000, u64::MAX - 100)]);
    assert_eq!(scan(&process, 0x1000).0.err(), Some(ImageError::AddressOverflow));

    let mut process = Process { regions: Vec::new() };
    process.image_list(0x1000, 0x2000, &[(u64::MAX - 8, 0x3000)]);
    let (result, requests) = scan(&process, 0x1000);
    assert_eq!(result.err(), Some(ImageError::AddressOverflow));
    assert_eq!(requests.len(), 3);
}

#[test]
fn scans_fail_on_truncated_commands() {
    let mut process = Process { regions: Vec::new() };
    process.image_list(0x1000, 0x2000, &[(0x9_0000, 0x3000)]);
    process.image(0x9_0000, 0x3000, b"a", 3, segment_command(b"__TEXT", 0x4000));
    assert_eq!(scan(&process, 0x1000).0.err(), Some(ImageError::TruncatedCommands));
    let mut process = Process { regions: Vec::new() };
    process.image_list(0x1000, 0x2000, &[(0x9_0000, 0x3000)]);
    process.image(0x9_0000, 0x3000, b"a", 1, Vec::new());
    assert_eq!(scan(&process, 0x1000).0.err(), Some(ImageError::TruncatedCommands));
}
