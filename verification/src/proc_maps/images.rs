//! Listing the images that are loaded into a process.
//!
//! The dynamic loader keeps an array with the load address and the path of
//! each image; the header and the load commands of an image stand at its
//! load address. The scanner decides which bytes of the process to read next
//! and what they mean; reading the memory is the caller's.

use super::load_commands::{
    le_u32, le_u64, parse_commands, parse_load_commands, read_u32, read_u64, uuid_bytes,
};
use uuid::Uuid;
use vstd::prelude::*;
use vstd::slice::slice_subrange;

verus! {

/// The size in bytes of the part of the loader's descriptor that is read.
pub const ALL_IMAGE_INFOS_SIZE: u64 = 16;

/// The size in bytes of one entry of the array of images.
pub const IMAGE_INFO_SIZE: u64 = 24;

/// The number of bytes that are read of the path of an image.
pub const FILE_PATH_SIZE: u64 = 512;

/// The size in bytes of the header of an image.
pub const MACH_HEADER_SIZE: u64 = 32;

/// An image that is loaded into the process.
#[derive(Clone, Debug, PartialEq, Eq)]
pub struct DyldInfo {
    pub file: String,
    pub address: u64,
    pub vmsize: u64,
    pub uuid: Option<Uuid>,
}

/// An image as a mathematical value.
pub struct Image {
    pub file: Seq<char>,
    pub address: u64,
    pub vmsize: u64,
    pub uuid: Option<Seq<u8>>,
}

impl View for DyldInfo {
    type V = Image;

    open spec fn view(&self) -> Image {
        Image {
            file: self.file@,
            address: self.address,
            vmsize: self.vmsize,
            uuid: match self.uuid {
                Some(id) => Some(uuid_bytes(id)),
                None => None,
            },
        }
    }
}

/// The images of a list as mathematical values.
pub open spec fn images_view(images: Seq<DyldInfo>) -> Seq<Image> {
    images.map_values(|info: DyldInfo| info@)
}

/// Bytes of the process that the scanner asks for.
#[derive(Clone, Copy, Debug, PartialEq, Eq, Structural)]
pub struct ReadRequest {
    pub address: u64,
    pub size: u64,
}

/// Why a scan failed.
#[derive(Clone, Copy, Debug, PartialEq, Eq, Structural)]
pub enum ImageError {
    /// The bytes to read next would reach past the address space.
    AddressOverflow,
    /// The bytes handed in are not as many as were asked for.
    ShortRead,
    /// The load commands of an image do not lie in the bytes that its header
    /// announces.
    TruncatedCommands,
}

/// What a scan waits for.
#[derive(Clone, Copy, Debug, PartialEq, Eq, Structural)]
pub enum ScanPhase {
    /// The descriptor of the loader, which gives the array of images.
    AllImageInfos,
    /// The entry of the current image in the array.
    ImageInfo,
    /// The path of the current image.
    FilePath,
    /// The header of the current image.
    Header,
    /// The load commands of the current image.
    Commands,
    /// Nothing: every image was read.
    Done,
    /// Nothing: the scan has failed.
    Failed(ImageError),
}

/// A scan as a mathematical value.
pub struct Scan {
    pub phase: ScanPhase,
    /// The bytes that the scan waits for; meaningful in the phases that read.
    pub request: ReadRequest,
    pub info_array_addr: u64,
    pub info_array_count: u32,
    /// The position of the current image in the array.
    pub image_index: u32,
    pub load_address: u64,
    pub file: Seq<char>,
    pub ncmds: u32,
    /// The images read so far, sorted by their load address.
    pub images: Seq<Image>,
}

/// The text that `String::from_utf8_lossy` makes of `bytes`.
pub uninterp spec fn utf8_lossy(bytes: Seq<u8>) -> Seq<char>;

/// `String::from_utf8_lossy`: the text of the bytes, with each malformed
/// sequence replaced.
#[verifier::external_body]
fn lossy_text(bytes: &[u8]) -> (text: String)
    ensures
        text@ == utf8_lossy(bytes@),
{
    String::from_utf8_lossy(bytes).into_owned()
}

/// The position of the first zero byte, or the length where there is none.
pub open spec fn nul_position(bytes: Seq<u8>) -> int
    decreases bytes.len(),
{
    if bytes.len() == 0 || bytes[0] == 0 {
        0
    } else {
        1 + nul_position(bytes.drop_first())
    }
}

/// The text of the C string that `bytes` begins with.
pub open spec fn c_string_text(bytes: Seq<u8>) -> Seq<char> {
    utf8_lossy(bytes.take(nul_position(bytes)))
}

/// The number of images at the front that are loaded at or below `address`.
pub open spec fn position_after(images: Seq<Image>, address: u64) -> int
    decreases images.len(),
{
    if images.len() == 0 || images[0].address > address {
        0
    } else {
        1 + position_after(images.drop_first(), address)
    }
}

/// `images` with `image` put after the images that are loaded at or below it.
pub open spec fn insert_by_address(images: Seq<Image>, image: Image) -> Seq<Image> {
    images.insert(position_after(images, image.address), image)
}

/// Whether the images are in ascending order of their load addresses.
pub open spec fn sorted_by_address(images: Seq<Image>) -> bool {
    forall|i: int, j: int|
        0 <= i < j < images.len() ==> (#[trigger] images[i]).address <= (
        #[trigger] images[j]).address
}

impl Scan {
    /// The scan of the images that the descriptor at `all_image_info_addr` lists.
    pub open spec fn start(all_image_info_addr: u64) -> Scan {
        Scan {
            phase: if all_image_info_addr + ALL_IMAGE_INFOS_SIZE > u64::MAX {
                ScanPhase::Failed(ImageError::AddressOverflow)
            } else {
                ScanPhase::AllImageInfos
            },
            request: ReadRequest { address: all_image_info_addr, size: ALL_IMAGE_INFOS_SIZE },
            info_array_addr: 0,
            info_array_count: 0,
            image_index: 0,
            load_address: 0,
            file: Seq::empty(),
            ncmds: 0,
            images: Seq::empty(),
        }
    }

    /// Whether the scan waits for bytes.
    pub open spec fn is_reading(self) -> bool {
        match self.phase {
            ScanPhase::Done => false,
            ScanPhase::Failed(_) => false,
            _ => true,
        }
    }

    /// The bytes that the scan needs next.
    pub open spec fn next_request(self) -> Option<ReadRequest> {
        if self.is_reading() {
            Some(self.request)
        } else {
            None
        }
    }

    /// The scan with the phase `phase`, which reads `size` bytes at
    /// `address`; failed where they would reach past the address space.
    pub open spec fn reading(self, phase: ScanPhase, address: int, size: u64) -> Scan {
        if address + size > u64::MAX {
            Scan { phase: ScanPhase::Failed(ImageError::AddressOverflow), ..self }
        } else {
            Scan { phase, request: ReadRequest { address: address as u64, size }, ..self }
        }
    }

    /// The scan at the image `image_index`: done after the last image, else
    /// waiting for the entry of the image in the array.
    pub open spec fn at_image(self) -> Scan {
        if self.image_index >= self.info_array_count {
            Scan { phase: ScanPhase::Done, ..self }
        } else {
            self.reading(
                ScanPhase::ImageInfo,
                self.info_array_addr + self.image_index * IMAGE_INFO_SIZE,
                IMAGE_INFO_SIZE,
            )
        }
    }

    /// The scan after the load commands of the current image were read as
    /// `commands`: the image joins the list, and the scan goes on with the
    /// next image.
    pub open spec fn with_commands(self, commands: Seq<u8>) -> Scan {
        match parse_commands(commands, self.ncmds) {
            Err(_) => Scan { phase: ScanPhase::Failed(ImageError::TruncatedCommands), ..self },
            Ok(facts) => (Scan {
                images: insert_by_address(
                    self.images,
                    Image {
                        file: self.file,
                        address: self.load_address,
                        vmsize: facts.vmsize,
                        uuid: facts.uuid,
                    },
                ),
                image_index: (self.image_index + 1) as u32,
                file: Seq::empty(),
                ..self
            }).at_image(),
        }
    }

    /// The scan after the bytes it asked for were read as `bytes`.
    pub open spec fn step(self, bytes: Seq<u8>) -> Scan {
        if !self.is_reading() {
            self
        } else if bytes.len() != self.request.size {
            Scan { phase: ScanPhase::Failed(ImageError::ShortRead), ..self }
        } else {
            match self.phase {
                ScanPhase::AllImageInfos => (Scan {
                    info_array_count: le_u32(bytes, 4),
                    info_array_addr: le_u64(bytes, 8),
                    image_index: 0,
                    ..self
                }).at_image(),
                ScanPhase::ImageInfo => (Scan { load_address: le_u64(bytes, 0), ..self }).reading(
                    ScanPhase::FilePath,
                    le_u64(bytes, 8) as int,
                    FILE_PATH_SIZE,
                ),
                ScanPhase::FilePath => (Scan { file: c_string_text(bytes), ..self }).reading(
                    ScanPhase::Header,
                    self.load_address as int,
                    MACH_HEADER_SIZE,
                ),
                ScanPhase::Header => {
                    let scan = Scan { ncmds: le_u32(bytes, 16), ..self };
                    let size = le_u32(bytes, 20);
                    if size == 0 {
                        scan.with_commands(Seq::empty())
                    } else {
                        scan.reading(
                            ScanPhase::Commands,
                            self.load_address + MACH_HEADER_SIZE,
                            size as u64,
                        )
                    }
                },
                ScanPhase::Commands => self.with_commands(bytes),
                _ => self,
            }
        }
    }

    /// A bound on the number of reads that the scan still asks for.
    pub open spec fn steps_left(self) -> int {
        let images_left = self.info_array_count - self.image_index;
        match self.phase {
            ScanPhase::AllImageInfos => 4 * 0x1_0000_0000int + 1,
            ScanPhase::ImageInfo => 4 * images_left,
            ScanPhase::FilePath => 4 * images_left - 1,
            ScanPhase::Header => 4 * images_left - 2,
            ScanPhase::Commands => 4 * images_left - 3,
            ScanPhase::Done => 0,
            ScanPhase::Failed(_) => 0,
        }
    }

    /// Whether the scan is one that a scanner can be in.
    pub open spec fn is_valid(self) -> bool {
        &&& sorted_by_address(self.images)
        &&& self.is_reading() ==> self.request.address + self.request.size <= u64::MAX
        &&& (self.is_reading() && self.phase != ScanPhase::AllImageInfos) ==> self.image_index
            < self.info_array_count
        &&& self.phase == ScanPhase::AllImageInfos ==> self.request.size == ALL_IMAGE_INFOS_SIZE
        &&& self.phase == ScanPhase::ImageInfo ==> self.request.size == IMAGE_INFO_SIZE
        &&& self.phase == ScanPhase::FilePath ==> self.request.size == FILE_PATH_SIZE
        &&& self.phase == ScanPhase::Header ==> self.request.size == MACH_HEADER_SIZE
    }
}

/// Putting an image after the images that are loaded at or below it keeps
/// the list in order.
pub proof fn lemma_insert_keeps_sorted(images: Seq<Image>, image: Image)
    requires
        sorted_by_address(images),
    ensures
        sorted_by_address(insert_by_address(images, image)),
        0 <= position_after(images, image.address) <= images.len(),
{
    lemma_position_after_splits(images, image.address);
    let at = position_after(images, image.address);
    let result = insert_by_address(images, image);
    assert forall|i: int, j: int| 0 <= i < j < result.len() implies (#[trigger] result[i]).address
        <= (#[trigger] result[j]).address by {
        if i < at {
            assert(result[i] == images[i]);
        } else if i > at {
            assert(result[i] == images[i - 1]);
        }
        if j < at {
            assert(result[j] == images[j]);
        } else if j > at {
            assert(result[j] == images[j - 1]);
        }
    }
}

/// In a sorted list, the images in front of `position_after` are loaded at
/// or below the address, and those from it on above the address.
pub proof fn lemma_position_after_splits(images: Seq<Image>, address: u64)
    requires
        sorted_by_address(images),
    ensures
        0 <= position_after(images, address) <= images.len(),
        forall|i: int|
            0 <= i < position_after(images, address) ==> (#[trigger] images[i]).address
                <= address,
        forall|i: int|
            position_after(images, address) <= i < images.len() ==> (
            #[trigger] images[i]).address > address,
    decreases images.len(),
{
    if images.len() > 0 {
        let rest = images.drop_first();
        assert forall|i: int, j: int| 0 <= i < j < rest.len() implies (#[trigger] rest[i]).address
            <= (#[trigger] rest[j]).address by {
            assert(rest[i] == images[i + 1]);
            assert(rest[j] == images[j + 1]);
        }
        if images[0].address > address {
            assert forall|i: int| 0 <= i < images.len() implies (#[trigger] images[i]).address
                > address by {
                if i > 0 {
                    assert(images[0].address <= images[i].address);
                }
            }
        } else {
            lemma_position_after_splits(rest, address);
            let k = position_after(rest, address);
            assert forall|i: int| 0 <= i < k + 1 implies (#[trigger] images[i]).address
                <= address by {
                if i > 0 {
                    assert(rest[i - 1] == images[i]);
                }
            }
            assert forall|i: int| k + 1 <= i < images.len() implies (#[trigger] images[i]).address
                > address by {
                assert(rest[i - 1] == images[i]);
            }
        }
    }
}

/// `position_after` is the one index that has only images at or below the
/// address in front of it and none such at it.
pub proof fn lemma_position_after_is(images: Seq<Image>, address: u64, index: int)
    requires
        0 <= index <= images.len(),
        forall|i: int| 0 <= i < index ==> (#[trigger] images[i]).address <= address,
        index < images.len() ==> images[index].address > address,
    ensures
        position_after(images, address) == index,
    decreases index,
{
    if index > 0 {
        let rest = images.drop_first();
        assert(images[0].address <= address);
        assert forall|i: int| 0 <= i < index - 1 implies (#[trigger] rest[i]).address
            <= address by {
            assert(rest[i] == images[i + 1]);
        }
        if index - 1 < rest.len() {
            assert(rest[index - 1] == images[index]);
        }
        lemma_position_after_is(rest, address, index - 1);
    }
}

/// Every step of a scan keeps it valid and brings its end nearer: a scan
/// asks for at most `steps_left` reads.
pub proof fn lemma_step_makes_progress(scan: Scan, bytes: Seq<u8>)
    requires
        scan.is_valid(),
        scan.is_reading(),
    ensures
        scan.step(bytes).is_valid(),
        0 <= scan.step(bytes).steps_left() < scan.steps_left(),
{
    let next = scan.step(bytes);
    if bytes.len() == scan.request.size {
        match scan.phase {
            ScanPhase::Header => {
                let read = Scan { ncmds: le_u32(bytes, 16), ..scan };
                if le_u32(bytes, 20) == 0 {
                    lemma_with_commands_makes_progress(read, Seq::empty());
                }
            },
            ScanPhase::Commands => {
                lemma_with_commands_makes_progress(scan, bytes);
            },
            _ => {},
        }
    }
}

proof fn lemma_with_commands_makes_progress(scan: Scan, commands: Seq<u8>)
    requires
        sorted_by_address(scan.images),
        scan.image_index < scan.info_array_count,
    ensures
        scan.with_commands(commands).is_valid(),
        0 <= scan.with_commands(commands).steps_left() <= 4 * (scan.info_array_count
            - scan.image_index) - 4,
{
    match parse_commands(commands, scan.ncmds) {
        Err(_) => {},
        Ok(facts) => {
            lemma_insert_keeps_sorted(
                scan.images,
                Image {
                    file: scan.file,
                    address: scan.load_address,
                    vmsize: facts.vmsize,
                    uuid: facts.uuid,
                },
            );
        },
    }
}

/// The length of the C string that `bytes` begins with.
fn c_string_len(bytes: &[u8]) -> (len: usize)
    ensures
        len == nul_position(bytes@),
        len <= bytes@.len(),
{
    let mut i: usize = 0;
    assert(bytes@.skip(0) =~= bytes@);
    while i < bytes.len() && bytes[i] != 0
        invariant
            i <= bytes@.len(),
            nul_position(bytes@) == i + nul_position(bytes@.skip(i as int)),
        decreases bytes@.len() - i,
    {
        assert(bytes@.skip(i as int).drop_first() =~= bytes@.skip(i as int + 1));
        i = i + 1;
    }
    i
}

/// What a scanner waits for and where it stands.
#[derive(Clone, Copy)]
struct Pending {
    phase: ScanPhase,
    request: ReadRequest,
}

/// A scan of the images that are loaded into a process.
pub struct ImageScanner {
    pending: Pending,
    info_array_addr: u64,
    info_array_count: u32,
    image_index: u32,
    load_address: u64,
    file: String,
    ncmds: u32,
    images: Vec<DyldInfo>,
}

impl View for ImageScanner {
    type V = Scan;

    closed spec fn view(&self) -> Scan {
        Scan {
            phase: self.pending.phase,
            request: self.pending.request,
            info_array_addr: self.info_array_addr,
            info_array_count: self.info_array_count,
            image_index: self.image_index,
            load_address: self.load_address,
            file: self.file@,
            ncmds: self.ncmds,
            images: images_view(self.images@),
        }
    }
}

impl ImageScanner {
    #[verifier::type_invariant]
    spec fn is_valid(&self) -> bool {
        self@.is_valid()
    }

    /// Starts the scan of the images that the descriptor of the loader at
    /// `all_image_info_addr` lists.
    pub fn new(all_image_info_addr: u64) -> (scanner: Self)
        ensures
            scanner@ == Scan::start(all_image_info_addr),
            scanner@.is_valid(),
    {
        let phase = if all_image_info_addr > u64::MAX - ALL_IMAGE_INFOS_SIZE {
            ScanPhase::Failed(ImageError::AddressOverflow)
        } else {
            ScanPhase::AllImageInfos
        };
        let scanner = ImageScanner {
            pending: Pending {
                phase,
                request: ReadRequest { address: all_image_info_addr, size: ALL_IMAGE_INFOS_SIZE },
            },
            info_array_addr: 0,
            info_array_count: 0,
            image_index: 0,
            load_address: 0,
            file: String::new(),
            ncmds: 0,
            images: Vec::new(),
        };
        assert(scanner@.images =~= Seq::empty());
        assert(scanner@.file =~= Seq::empty());
        scanner
    }

    /// The bytes to read next and to hand to `supply`, or nothing once the
    /// scan has ended. The bytes asked for do not reach past the address
    /// space.
    pub fn next_request(&self) -> (request: Option<ReadRequest>)
        ensures
            request == self@.next_request(),
            self@.is_valid(),
    {
        proof {
            use_type_invariant(self);
        }
        match self.pending.phase {
            ScanPhase::Done => None,
            ScanPhase::Failed(_) => None,
            _ => Some(self.pending.request),
        }
    }

    fn fail(&mut self, error: ImageError)
        ensures
            final(self)@ == (Scan { phase: ScanPhase::Failed(error), ..old(self)@ }),
    {
        proof {
            use_type_invariant(&*self);
        }
        self.pending = Pending { phase: ScanPhase::Failed(error), request: self.pending.request };
    }

    fn set_reading(&mut self, phase: ScanPhase, address: u64, offset: u64, size: u64)
        requires
            old(self)@.is_reading(),
            old(self)@.image_index < old(self)@.info_array_count,
            phase != ScanPhase::AllImageInfos,
            phase != ScanPhase::Done,
            !(phase is Failed),
            phase == ScanPhase::ImageInfo ==> size == IMAGE_INFO_SIZE,
            phase == ScanPhase::FilePath ==> size == FILE_PATH_SIZE,
            phase == ScanPhase::Header ==> size == MACH_HEADER_SIZE,
        ensures
            final(self)@ == old(self)@.reading(phase, address + offset, size),
    {
        proof {
            use_type_invariant(&*self);
        }
        if address > u64::MAX - offset || address + offset > u64::MAX - size {
            self.fail(ImageError::AddressOverflow);
        } else {
            self.pending = Pending {
                phase,
                request: ReadRequest { address: address + offset, size },
            };
        }
    }

    /// Goes on with the image at `index` of the array.
    fn begin_image(&mut self, index: u32)
        requires
            old(self)@.is_reading(),
        ensures
            final(self)@ == (Scan { image_index: index, ..old(self)@ }).at_image(),
    {
        proof {
            use_type_invariant(&*self);
        }
        if index >= self.info_array_count {
            self.pending = Pending { phase: ScanPhase::Done, request: self.pending.request };
            self.image_index = index;
        } else {
            self.image_index = index;
            let offset: u64 = index as u64 * IMAGE_INFO_SIZE;
            self.set_reading(ScanPhase::ImageInfo, self.info_array_addr, offset, IMAGE_INFO_SIZE);
        }
    }

    /// Puts `info` after the images that are loaded at or below it.
    fn insert_image(&mut self, info: DyldInfo)
        ensures
            final(self)@ == (Scan {
                images: insert_by_address(old(self)@.images, info@),
                ..old(self)@
            }),
    {
        proof {
            use_type_invariant(&*self);
        }
        let ghost before = self.images@;
        let mut at: usize = 0;
        while at < self.images.len() && self.images[at].address <= info.address
            invariant
                at <= self.images@.len(),
                self.images@ == before,
                forall|i: int|
                    0 <= i < at ==> (#[trigger] images_view(before)[i]).address <= info.address,
            decreases self.images@.len() - at,
        {
            at = at + 1;
        }
        proof {
            if at < before.len() {
                assert(images_view(before)[at as int].address > info.address);
            }
            lemma_position_after_is(images_view(before), info.address, at as int);
            lemma_insert_keeps_sorted(images_view(before), info@);
            assert(images_view(before.insert(at as int, info)) =~= images_view(before).insert(
                at as int,
                info@,
            ));
        }
        let mut images: Vec<DyldInfo> = Vec::new();
        core::mem::swap(&mut self.images, &mut images);
        images.insert(at, info);
        self.images = images;
    }

    /// Takes the load commands of the current image.
    fn take_commands(&mut self, commands: &[u8])
        requires
            old(self)@.is_reading(),
            old(self)@.image_index < old(self)@.info_array_count,
        ensures
            final(self)@ == old(self)@.with_commands(commands@),
    {
        proof {
            use_type_invariant(&*self);
        }
        match parse_load_commands(commands, self.ncmds) {
            Err(_) => {
                self.fail(ImageError::TruncatedCommands);
            },
            Ok(facts) => {
                let mut file = String::new();
                core::mem::swap(&mut self.file, &mut file);
                let info = DyldInfo {
                    file,
                    address: self.load_address,
                    vmsize: facts.vmsize,
                    uuid: facts.uuid,
                };
                self.insert_image(info);
                self.begin_image(self.image_index + 1);
            },
        }
    }

    /// Takes the bytes that `next_request` asked for. Fails, for good, where
    /// they are not as many as were asked for, where the bytes to read next
    /// would reach past the address space, and where the load commands of
    /// an image do not lie in the bytes that its header announces. Does
    /// nothing once the scan has ended.
    pub fn supply(&mut self, bytes: &[u8]) -> (result: Result<(), ImageError>)
        ensures
            final(self)@ == old(self)@.step(bytes@),
            final(self)@.is_valid(),
            result == match final(self)@.phase {
                ScanPhase::Failed(error) => Err::<(), ImageError>(error),
                _ => Ok::<(), ImageError>(()),
            },
            old(self)@.is_reading() ==> final(self)@.steps_left() < old(self)@.steps_left(),
    {
        proof {
            use_type_invariant(&*self);
            if self@.is_reading() {
                lemma_step_makes_progress(self@, bytes@);
            }
        }
        match self.pending.phase {
            ScanPhase::Done => {},
            ScanPhase::Failed(_) => {},
            phase => {
                if bytes.len() as u64 != self.pending.request.size {
                    self.fail(ImageError::ShortRead);
                } else {
                    match phase {
                        ScanPhase::AllImageInfos => {
                            self.info_array_count = read_u32(bytes, 4);
                            self.info_array_addr = read_u64(bytes, 8);
                            self.begin_image(0);
                        },
                        ScanPhase::ImageInfo => {
                            self.load_address = read_u64(bytes, 0);
                            let path = read_u64(bytes, 8);
                            self.set_reading(ScanPhase::FilePath, path, 0, FILE_PATH_SIZE);
                        },
                        ScanPhase::FilePath => {
                            let len = c_string_len(bytes);
                            self.file = lossy_text(slice_subrange(bytes, 0, len));
                            self.set_reading(
                                ScanPhase::Header,
                                self.load_address,
                                0,
                                MACH_HEADER_SIZE,
                            );
                        },
                        ScanPhase::Header => {
                            self.ncmds = read_u32(bytes, 16);
                            let size = read_u32(bytes, 20);
                            if size == 0 {
                                self.take_commands(slice_subrange(bytes, 0, 0));
                            } else {
                                self.set_reading(
                                    ScanPhase::Commands,
                                    self.load_address,
                                    MACH_HEADER_SIZE,
                                    size as u64,
                                );
                            }
                        },
                        _ => {
                            self.take_commands(bytes);
                        },
                    }
                }
            },
        }
        match self.pending.phase {
            ScanPhase::Failed(error) => Err(error),
            _ => Ok(()),
        }
    }

    /// Whether the scan has ended, in success or in failure.
    pub fn is_done(&self) -> (done: bool)
        ensures
            done == !self@.is_reading(),
    {
        match self.pending.phase {
            ScanPhase::Done => true,
            ScanPhase::Failed(_) => true,
            _ => false,
        }
    }

    /// The images that were read, in ascending order of their load
    /// addresses; images with one load address stand in the order of the
    /// loader's array. Nothing unless every image was read.
    pub fn finish(self) -> (images: Option<Vec<DyldInfo>>)
        ensures
            match images {
                Some(images) => self@.phase == ScanPhase::Done && images_view(images@)
                    == self@.images && sorted_by_address(images_view(images@)),
                None => self@.phase != ScanPhase::Done,
            },
    {
        proof {
            use_type_invariant(&self);
        }
        match self.pending.phase {
            ScanPhase::Done => Some(self.images),
            _ => None,
        }
    }
}

} // verus!
