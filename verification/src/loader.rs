//! Laying an executable image out in RAM: which image is accepted, how
//! large the RAM is, and where the bytes of each segment go.
//!
//! The image comes in as plain values, as the host has read them from the
//! headers of the executable file.

use vstd::prelude::*;

verus! {

/// The stack that the RAM has room for beyond the image: one mebibyte.
pub const DEFAULT_STACK_SIZE: usize = 0x10_0000;

/// The first four bytes of an executable image.
pub const MAGIC: [u8; 4] = [0x7f, 0x45, 0x4c, 0x46];

/// Why an image cannot be loaded.
#[derive(Debug, Clone, Copy, PartialEq, Eq, Structural)]
pub enum LoadError {
    /// The image does not start with the magic number.
    InvalidMagic,
    /// The image is for another machine.
    UnsupportedMachine,
    /// The image is no executable.
    NotExecutable,
    /// The image has no segment to load.
    NoLoadableSegment,
    /// A segment to load holds something else than plain bytes.
    UnsupportedSegment,
    /// A segment to load has fewer bytes than its header says, or does not
    /// lie in RAM.
    MalformedSegment,
    /// The RAM asked for is smaller than the image.
    RamTooSmall,
    /// The size of the RAM cannot be counted on this host.
    ImageTooLarge,
}

/// What the header of the image says.
#[derive(Debug, Clone, Copy)]
pub struct ImageHeader {
    pub magic: [u8; 4],
    /// The image is for the machine that this crate emulates.
    pub machine_is_riscv: bool,
    /// The image is an executable rather than an object or a library.
    pub is_executable: bool,
    pub entry_point: u64,
}

/// One segment of the image.
#[derive(Debug)]
pub struct Segment {
    /// The segment is to be loaded.
    pub loadable: bool,
    /// The address of its first byte in RAM.
    pub virtual_addr: u64,
    /// The number of bytes that the image holds for it.
    pub file_size: u64,
    /// The number of bytes that it takes in RAM; what lies beyond
    /// `file_size` is zero.
    pub mem_size: u64,
    /// Its bytes, or `None` where it holds something else than plain bytes.
    pub data: Option<Vec<u8>>,
}

/// A segment as the contracts see it.
pub struct SegmentView {
    pub loadable: bool,
    pub virtual_addr: u64,
    pub file_size: u64,
    pub mem_size: u64,
    pub data: Option<Seq<u8>>,
}

impl View for Segment {
    type V = SegmentView;

    open spec fn view(&self) -> SegmentView {
        SegmentView {
            loadable: self.loadable,
            virtual_addr: self.virtual_addr,
            file_size: self.file_size,
            mem_size: self.mem_size,
            data: match self.data {
                Some(bytes) => Some(bytes@),
                None => None,
            },
        }
    }
}

/// The segments of an image as the contracts see them.
pub open spec fn segment_views(segments: Seq<Segment>) -> Seq<SegmentView> {
    Seq::new(segments.len(), |i: int| segments[i]@)
}

/// A machine made ready to run an image.
#[derive(Debug)]
pub struct Image {
    pub ram: Vec<u8>,
    /// The address of the first instruction.
    pub initial_pc: u32,
    /// The stack pointer before the first step.
    pub initial_sp: u32,
}

/// The error of a header that is not accepted: the magic number is looked
/// at first, then the machine, then the kind of image.
pub open spec fn header_error(header: ImageHeader) -> Option<LoadError> {
    if header.magic@ != MAGIC@ {
        Some(LoadError::InvalidMagic)
    } else if !header.machine_is_riscv {
        Some(LoadError::UnsupportedMachine)
    } else if !header.is_executable {
        Some(LoadError::NotExecutable)
    } else {
        None
    }
}

/// Whether a segment to load is among the first `n`.
pub open spec fn has_loadable(segments: Seq<SegmentView>, n: int) -> bool {
    exists|i: int| 0 <= i < n && i < segments.len() && (#[trigger] segments[i]).loadable
}

/// The end of the image in RAM as far as the first `n` segments say: the
/// greatest `virtual_addr + mem_size` of a segment to load among them, and 0
/// if there is none.
pub open spec fn span(segments: Seq<SegmentView>, n: int) -> nat
    decreases n,
{
    if n <= 0 || n > segments.len() {
        0
    } else {
        let rest = span(segments, n - 1);
        let segment = segments[n - 1];
        if segment.loadable && segment.virtual_addr + segment.mem_size > rest {
            (segment.virtual_addr + segment.mem_size) as nat
        } else {
            rest
        }
    }
}

/// The size of the RAM for an image that is to have `size` bytes: room for
/// the stack is added, and the sum is rounded up to a multiple of 4.
pub open spec fn ram_len(size: int) -> int {
    (size + DEFAULT_STACK_SIZE + 3) / 4 * 4
}

/// The RAM has room for the bytes asked for and for the stack, is a multiple
/// of 4 bytes long, and is no longer than that takes.
pub proof fn lemma_ram_len(size: int)
    requires
        0 <= size,
    ensures
        ram_len(size) % 4 == 0,
        size + DEFAULT_STACK_SIZE <= ram_len(size) < size + DEFAULT_STACK_SIZE + 4,
{
}

/// A segment that is placed takes the bytes from `virtual_addr` on and
/// leaves every other byte of RAM as it was.
pub proof fn lemma_place(ram: Seq<u8>, segment: SegmentView)
    ensures
        place(ram, segment).len() == ram.len(),
        forall|i: int|
            0 <= i < ram.len() && !(segment.virtual_addr <= i < segment.virtual_addr
                + segment.file_size) && !(segment.virtual_addr <= i < segment.virtual_addr
                + segment.mem_size) ==> place(ram, segment)[i] == ram[i],
        forall|i: int|
            0 <= i < ram.len() && segment.virtual_addr <= i < segment.virtual_addr
                + segment.file_size ==> place(ram, segment)[i] == segment.data->Some_0[i
                - segment.virtual_addr],
        forall|i: int|
            0 <= i < ram.len() && segment.virtual_addr + segment.file_size <= i
                < segment.virtual_addr + segment.mem_size ==> place(ram, segment)[i] == 0,
{
}

/// What keeps a segment from being placed in a RAM of `len` bytes, if
/// anything does.
pub open spec fn segment_error(segment: SegmentView, len: int) -> Option<LoadError> {
    match segment.data {
        None => Some(LoadError::UnsupportedSegment),
        Some(bytes) => if bytes.len() < segment.file_size || segment.virtual_addr
            + segment.file_size > len || segment.virtual_addr + segment.mem_size > len {
            Some(LoadError::MalformedSegment)
        } else {
            None
        },
    }
}

/// The first of the segments to load from index `start` on that cannot be
/// placed, with its error.
pub open spec fn first_segment_error(segments: Seq<SegmentView>, len: int, start: int) -> Option<
    LoadError,
>
    decreases segments.len() - start,
{
    if start < 0 || start >= segments.len() {
        None
    } else if segments[start].loadable && segment_error(segments[start], len) is Some {
        segment_error(segments[start], len)
    } else {
        first_segment_error(segments, len, start + 1)
    }
}

/// RAM after a segment was placed: the bytes of the image from
/// `virtual_addr` on, zeros from there up to `virtual_addr + mem_size`, and
/// every other byte as it was.
pub open spec fn place(ram: Seq<u8>, segment: SegmentView) -> Seq<u8> {
    Seq::new(
        ram.len(),
        |i: int|
            if segment.virtual_addr <= i < segment.virtual_addr + segment.file_size {
                segment.data->Some_0[i - segment.virtual_addr]
            } else if segment.virtual_addr + segment.file_size <= i < segment.virtual_addr
                + segment.mem_size {
                0u8
            } else {
                ram[i]
            },
    )
}

/// RAM after the segments to load among the first `n` were placed, in the
/// order of the image, so that a later segment lies over an earlier one.
pub open spec fn place_all(ram: Seq<u8>, segments: Seq<SegmentView>, n: int) -> Seq<u8>
    decreases n,
{
    if n <= 0 || n > segments.len() {
        ram
    } else {
        let before = place_all(ram, segments, n - 1);
        if segments[n - 1].loadable {
            place(before, segments[n - 1])
        } else {
            before
        }
    }
}

/// `len` zero bytes.
pub open spec fn zeros(len: int) -> Seq<u8> {
    Seq::new(len as nat, |i: int| 0u8)
}

/// The RAM for an image, or why there is none.
///
/// There has to be a segment to load.  The RAM has room for the image, or
/// for `ram_size` bytes where that is given, which may not be less than the
/// image takes, and for the stack.  It is zero but for the segments.
pub open spec fn ram_image(segments: Seq<SegmentView>, ram_size: Option<usize>) -> Result<
    Seq<u8>,
    LoadError,
> {
    let end = span(segments, segments.len() as int) as int;
    let size = match ram_size {
        Some(size) => size as int,
        None => end,
    };
    if !has_loadable(segments, segments.len() as int) {
        Err(LoadError::NoLoadableSegment)
    } else if end > usize::MAX {
        Err(LoadError::ImageTooLarge)
    } else if size < end {
        Err(LoadError::RamTooSmall)
    } else if size + DEFAULT_STACK_SIZE + 3 > usize::MAX {
        Err(LoadError::ImageTooLarge)
    } else {
        match first_segment_error(segments, ram_len(size), 0) {
            Some(error) => Err(error),
            None => Ok(place_all(zeros(ram_len(size)), segments, segments.len() as int)),
        }
    }
}

/// Accepts the header of an image for this machine.
pub fn check_header(header: &ImageHeader) -> (res: Result<(), LoadError>)
    ensures
        res == (match header_error(*header) {
            Some(error) => Err::<(), LoadError>(error),
            None => Ok(()),
        }),
{
    let same_magic: bool = header.magic[0] == MAGIC[0] && header.magic[1] == MAGIC[1]
        && header.magic[2] == MAGIC[2] && header.magic[3] == MAGIC[3];
    assert(same_magic == (header.magic@ =~= MAGIC@));
    if !same_magic {
        return Err(LoadError::InvalidMagic);
    }
    if !header.machine_is_riscv {
        return Err(LoadError::UnsupportedMachine);
    }
    if !header.is_executable {
        return Err(LoadError::NotExecutable);
    }
    Ok(())
}

/// The number of bytes that the image takes in RAM: the end of its last
/// byte.  Fails with `NoLoadableSegment` for an image with nothing to load
/// and with `ImageTooLarge` where the end cannot be counted on this host.
pub fn required_ram_size(segments: &Vec<Segment>) -> (res: Result<usize, LoadError>)
    ensures
        res == (if !has_loadable(segment_views(segments@), segments@.len() as int) {
            Err::<usize, LoadError>(LoadError::NoLoadableSegment)
        } else if span(segment_views(segments@), segments@.len() as int) > usize::MAX {
            Err(LoadError::ImageTooLarge)
        } else {
            Ok(span(segment_views(segments@), segments@.len() as int) as usize)
        }),
{
    let ghost views = segment_views(segments@);
    let mut found: bool = false;
    let mut too_large: bool = false;
    let mut end: usize = 0;
    let mut i: usize = 0;
    while i < segments.len()
        invariant
            i <= segments.len(),
            views == segment_views(segments@),
            found == has_loadable(views, i as int),
            too_large == (span(views, i as int) > usize::MAX),
            !too_large ==> end == span(views, i as int),
        decreases segments.len() - i,
    {
        let segment = &segments[i];
        assert(views[i as int] == segment@);
        if segment.loadable {
            found = true;
            if !too_large {
                let limit: u64 = usize::MAX as u64;
                if segment.virtual_addr > limit || segment.mem_size > limit
                    - segment.virtual_addr {
                    too_large = true;
                } else {
                    let segment_end: usize = (segment.virtual_addr + segment.mem_size) as usize;
                    if segment_end > end {
                        end = segment_end;
                    }
                }
            }
        }
        i += 1;
    }
    if !found {
        return Err(LoadError::NoLoadableSegment);
    }
    if too_large {
        return Err(LoadError::ImageTooLarge);
    }
    Ok(end)
}

/// Places one segment in RAM.
pub fn place_segment(ram: &mut Vec<u8>, segment: &Segment) -> (res: Result<(), LoadError>)
    ensures
        res == (match segment_error(segment@, old(ram)@.len() as int) {
            Some(error) => Err::<(), LoadError>(error),
            None => Ok(()),
        }),
        res is Ok ==> final(ram)@ == place(old(ram)@, segment@),
        res is Err ==> final(ram)@ == old(ram)@,
{
    let len: usize = ram.len();
    let bytes = match &segment.data {
        Some(bytes) => bytes,
        None => return Err(LoadError::UnsupportedSegment),
    };
    if (bytes.len() as u64) < segment.file_size || segment.virtual_addr > len as u64
        || segment.file_size > len as u64 - segment.virtual_addr || segment.mem_size > len as u64
        - segment.virtual_addr {
        return Err(LoadError::MalformedSegment);
    }
    let start: usize = segment.virtual_addr as usize;
    let file_size: usize = segment.file_size as usize;
    let file_end: usize = start + file_size;
    let mem_end: usize = if segment.mem_size > segment.file_size {
        start + segment.mem_size as usize
    } else {
        file_end
    };
    let ghost target = place(old(ram)@, segment@);
    let mut i: usize = 0;
    while i < file_size
        invariant
            i <= file_size,
            file_end == start + file_size,
            file_end <= ram@.len(),
            file_size <= bytes@.len(),
            ram@.len() == old(ram)@.len(),
            forall|j: int| 0 <= j < start + i ==> ram@[j] == target[j],
            forall|j: int| start + i <= j < ram@.len() ==> ram@[j] == old(ram)@[j],
            target == place(old(ram)@, segment@),
            segment@.data == Some(bytes@),
            start == segment@.virtual_addr,
            file_size == segment@.file_size,
        decreases file_size - i,
    {
        ram[start + i] = bytes[i];
        i += 1;
    }
    let mut k: usize = file_end;
    while k < mem_end
        invariant
            file_end <= k <= mem_end,
            mem_end <= ram@.len(),
            ram@.len() == old(ram)@.len(),
            forall|j: int| 0 <= j < k ==> ram@[j] == target[j],
            forall|j: int| k <= j < ram@.len() ==> ram@[j] == old(ram)@[j],
            target == place(old(ram)@, segment@),
            start == segment@.virtual_addr,
            file_end == segment@.virtual_addr + segment@.file_size,
            mem_end == (if segment@.mem_size > segment@.file_size {
                segment@.virtual_addr + segment@.mem_size
            } else {
                file_end as int
            }),
        decreases mem_end - k,
    {
        ram[k] = 0;
        k += 1;
    }
    assert(ram@ =~= target);
    Ok(())
}

/// Builds the RAM for an image: sized for the image and the stack, zero
/// but for the segments, which are placed in the order of the image.
pub fn build_ram(segments: &Vec<Segment>, ram_size: Option<usize>) -> (res: Result<
    Vec<u8>,
    LoadError,
>)
    ensures
        (match res {
            Ok(ram) => Ok::<Seq<u8>, LoadError>(ram@),
            Err(error) => Err(error),
        }) == ram_image(segment_views(segments@), ram_size),
{
    let ghost views = segment_views(segments@);
    assert(views.len() == segments@.len());
    let end: usize = required_ram_size(segments)?;
    let size: usize = match ram_size {
        Some(size) => {
            if size < end {
                return Err(LoadError::RamTooSmall);
            }
            size
        },
        None => end,
    };
    if size > usize::MAX - DEFAULT_STACK_SIZE - 3 {
        return Err(LoadError::ImageTooLarge);
    }
    let len: usize = (size + DEFAULT_STACK_SIZE + 3) / 4 * 4;
    let mut ram: Vec<u8> = vec![0u8; len];
    assert(ram@ =~= zeros(len as int));
    let mut i: usize = 0;
    while i < segments.len()
        invariant
            i <= segments.len(),
            views == segment_views(segments@),
            ram@.len() == len,
            ram@ == place_all(zeros(len as int), views, i as int),
            ram_image(views, ram_size) == (match first_segment_error(views, len as int, 0) {
                Some(error) => Err::<Seq<u8>, LoadError>(error),
                None => Ok(place_all(zeros(len as int), views, views.len() as int)),
            }),
            first_segment_error(views, len as int, 0) == first_segment_error(
                views,
                len as int,
                i as int,
            ),
        decreases segments.len() - i,
    {
        assert(views[i as int] == segments[i as int]@);
        assert(first_segment_error(views, len as int, i as int) == (if views[i as int].loadable
            && segment_error(views[i as int], len as int) is Some {
            segment_error(views[i as int], len as int)
        } else {
            first_segment_error(views, len as int, i + 1)
        }));
        if segments[i].loadable {
            match place_segment(&mut ram, &segments[i]) {
                Ok(()) => {},
                Err(error) => {
                    return Err(error);
                },
            }
        }
        i += 1;
    }
    Ok(ram)
}

/// Makes a machine ready for an image: checks the header, builds the RAM,
/// and chooses the first instruction and the stack pointer.  The program
/// counter starts at the entry point, and the stack pointer at `default_sp`
/// or, where none is given, at the end of RAM; either is taken modulo 2^32.
pub fn load(
    header: &ImageHeader,
    segments: &Vec<Segment>,
    ram_size: Option<usize>,
    default_sp: Option<u32>,
) -> (res: Result<Image, LoadError>)
    ensures
        match header_error(*header) {
            Some(error) => res == Err::<Image, LoadError>(error),
            None => match ram_image(segment_views(segments@), ram_size) {
                Err(error) => res == Err::<Image, LoadError>(error),
                Ok(ram) => res is Ok && res->Ok_0.ram@ == ram && res->Ok_0.initial_pc
                    == header.entry_point % 0x1_0000_0000 && res->Ok_0.initial_sp == (
                match default_sp {
                    Some(sp) => sp as int,
                    None => (ram.len() % 0x1_0000_0000) as int,
                }),
            },
        },
{
    check_header(header)?;
    let ram = build_ram(segments, ram_size)?;
    let entry_point: u64 = header.entry_point;
    let initial_pc: u32 = (entry_point & 0xffff_ffff) as u32;
    assert(initial_pc == entry_point % 0x1_0000_0000) by (bit_vector)
        requires
            initial_pc == (entry_point & 0xffff_ffff) as u32,
    ;
    let initial_sp: u32 = match default_sp {
        Some(sp) => sp,
        None => {
            let len: u64 = ram.len() as u64;
            let sp: u32 = (len & 0xffff_ffff) as u32;
            assert(sp == len % 0x1_0000_0000) by (bit_vector)
                requires
                    sp == (len & 0xffff_ffff) as u32,
            ;
            sp
        },
    };
    Ok(Image { ram, initial_pc, initial_sp })
}

} // verus!
