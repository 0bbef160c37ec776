//! The framebuffer that the guest's firmware set up, and what is read from it.

use vm_memory::bitmap::AtomicBitmap;
use vm_memory::GuestMemoryMmap;
use vstd::prelude::*;

use crate::display::guest_memory::{guest_address_add, read_guest};
use crate::display::ramfb::{RamfbConfig, DRM_FORMAT_XRGB8888};

verus! {

/// A framebuffer in guest memory.
#[derive(Debug)]
pub struct FramebufferSurface {
    /// The framebuffer in use.
    config: RamfbConfig,
    /// Whether firmware has set a framebuffer up.
    initialized: bool,
}

/// A framebuffer, and whether it is in use.
pub struct SurfaceView {
    pub config: RamfbConfig,
    pub initialized: bool,
}

/// Bytes of the framebuffer that `config` describes.
pub open spec fn framebuffer_length(config: RamfbConfig) -> int {
    config.stride * config.height
}

/// The framebuffer that `config` describes ends below the top of the address space.
pub open spec fn fits_address_space(config: RamfbConfig) -> bool {
    config.address + framebuffer_length(config) <= u64::MAX
}

/// The rectangle lies within the framebuffer.
pub open spec fn region_inside(
    config: RamfbConfig,
    x: u32,
    y: u32,
    width: u32,
    height: u32,
) -> bool {
    x + width <= config.width && y + height <= config.height
}

/// Distance from the start of the framebuffer to row `row` of a rectangle at (`x`,
/// `y`).
pub open spec fn row_offset(config: RamfbConfig, x: u32, y: u32, row: int) -> int {
    (y + row) * config.stride + x * 4
}

/// Guest address of row `row` of a rectangle at (`x`, `y`).
pub open spec fn row_address(config: RamfbConfig, x: u32, y: u32, row: int) -> int {
    config.address + row_offset(config, x, y, row)
}

/// Bytes of the pixels of a rectangle, four per pixel.
pub open spec fn region_length(width: u32, height: u32) -> int {
    width * 4 * height
}

/// The rows of a rectangle can be counted in machine words: neither an edge of the
/// rectangle nor the distance of a row from the start of the framebuffer overflows.
pub open spec fn region_countable(
    config: RamfbConfig,
    x: u32,
    y: u32,
    width: u32,
    height: u32,
) -> bool {
    &&& x + width <= u32::MAX
    &&& x + width <= config.width ==> y + height <= u32::MAX
    &&& region_inside(config, x, y, width, height) ==> {
        &&& region_length(width, height) <= isize::MAX
        &&& row_offset(config, x, y, 0) <= usize::MAX
        &&& height > 0 ==> row_offset(config, x, y, height - 1) <= usize::MAX
    }
}

/// Memory holds all of every row of a rectangle.
pub open spec fn rows_held(
    config: RamfbConfig,
    x: u32,
    y: u32,
    width: u32,
    height: u32,
    contents: Map<u64, Set<u8>>,
) -> bool {
    forall|row: int|
        0 <= row < height ==> row_address(config, x, y, row) <= u64::MAX
            && crate::display::guest_memory::all_held(
            contents,
            #[trigger] row_address(config, x, y, row) as u64,
            (width * 4) as nat,
        )
}

/// Bytes of row `row`, where every row has `length` of them.
pub open spec fn row_bytes(data: Seq<u8>, length: int, row: int) -> Seq<u8> {
    data.subrange(row * length, (row + 1) * length)
}

impl View for FramebufferSurface {
    type V = SurfaceView;

    closed spec fn view(&self) -> SurfaceView {
        SurfaceView { config: self.config, initialized: self.initialized }
    }
}

impl SurfaceView {
    /// A framebuffer that is in use has the pixel format that is served, and fits into
    /// the address space.
    pub open spec fn wf(self) -> bool {
        self.initialized ==> self.config.fourcc == DRM_FORMAT_XRGB8888 && fits_address_space(
            self.config,
        )
    }
}

impl FramebufferSurface {
    /// A surface without a framebuffer.
    pub fn new() -> (surface: Self)
        ensures
            !surface@.initialized,
            surface@.config == (RamfbConfig {
                address: 0,
                fourcc: 0,
                flags: 0,
                width: 0,
                height: 0,
                stride: 0,
            }),
            surface@.wf(),
    {
        FramebufferSurface { config: RamfbConfig::default(), initialized: false }
    }

    /// Takes a framebuffer that firmware set up into use. One whose pixel format is not
    /// served changes nothing.
    pub fn set_config(&mut self, config: RamfbConfig)
        requires
            config.fourcc == DRM_FORMAT_XRGB8888 ==> fits_address_space(config),
        ensures
            config.fourcc == DRM_FORMAT_XRGB8888 ==> final(self)@ == (SurfaceView {
                config,
                initialized: true,
            }),
            config.fourcc != DRM_FORMAT_XRGB8888 ==> final(self)@ == old(self)@,
            config.fourcc == 0x34325258 ==> final(self)@.initialized && final(self)@.config
                == config,
            config.fourcc != 0x34325258 ==> final(self)@ == old(self)@,
            old(self)@.wf() ==> final(self)@.wf(),
    {
        if config.fourcc != DRM_FORMAT_XRGB8888 {
            return;
        }
        self.config = config;
        self.initialized = true;
    }

    /// Whether firmware has set a framebuffer up.
    pub fn is_initialized(&self) -> (initialized: bool)
        ensures
            initialized == self@.initialized,
    {
        self.initialized
    }

    /// The framebuffer in use.
    pub fn config(&self) -> (config: RamfbConfig)
        ensures
            config == self@.config,
    {
        self.config
    }

    /// Reads the whole framebuffer, four bytes per pixel, and what lies between the rows.
    /// There is nothing to read where no framebuffer is in use, or memory does not hold
    /// all of it.
    pub fn read_framebuffer(&self, memory: &GuestMemoryMmap<AtomicBitmap>) -> (data: Option<
        Vec<u8>,
    >)
        requires
            self@.initialized ==> framebuffer_length(self@.config) <= isize::MAX,
        ensures
            data is Some <==> self@.initialized && crate::display::guest_memory::all_held(
                crate::display::guest_memory::held(*memory),
                self@.config.address,
                framebuffer_length(self@.config) as nat,
            ),
            data matches Some(bytes) ==> bytes@.len() == framebuffer_length(self@.config)
                && crate::display::guest_memory::reads_as(
                crate::display::guest_memory::held(*memory),
                self@.config.address,
                bytes@,
            ),
            data is Some ==> self@.initialized,
            data matches Some(bytes) ==> bytes@.len() == self@.config.stride * self@.config.height
                && forall|i: int|
                0 <= i < bytes@.len() ==> crate::display::guest_memory::held(
                    *memory,
                )[(self@.config.address + i) as u64].contains(#[trigger] bytes@[i]),
            self@.initialized && self@.config.stride * self@.config.height > 0
                && self@.config.address + self@.config.stride * self@.config.height <= u64::MAX ==> (
            data is Some <==> forall|at: u64|
                self@.config.address <= at < self@.config.address + self@.config.stride
                    * self@.config.height ==> #[trigger] crate::display::guest_memory::held(
                    *memory,
                ).dom().contains(at)),
    {
        proof {
            let length = framebuffer_length(self@.config);
            if length > 0 {
                crate::display::guest_memory::law_all_held(
                    crate::display::guest_memory::held(*memory),
                    self@.config.address,
                    length as nat,
                );
            }
        }
        if !self.initialized {
            return None;
        }
        let size: u64 = self.config.framebuffer_size();
        read_guest(memory, self.config.address, size as usize)
    }

    /// Guest addresses at which the rows of a rectangle start. There are none where no
    /// framebuffer is in use, the rectangle is not within it, or a row would start
    /// beyond the address space.
    pub fn region_rows(&self, x: u32, y: u32, width: u32, height: u32) -> (rows: Option<Vec<u64>>)
        requires
            self@.initialized ==> region_countable(self@.config, x, y, width, height),
        ensures
            rows is Some <==> self@.initialized && region_inside(
                self@.config,
                x,
                y,
                width,
                height,
            ) && (forall|row: int|
                0 <= row < height ==> #[trigger] row_address(self@.config, x, y, row) <= u64::MAX),
            rows matches Some(addresses) ==> addresses@.len() == height && forall|row: int|
                0 <= row < height ==> #[trigger] addresses@[row] == row_address(
                    self@.config,
                    x,
                    y,
                    row,
                ),
            self@.initialized && x + width <= self@.config.width && y + height
                <= self@.config.height && self@.config.address + (y + height) * self@.config.stride
                + 4 * x <= u64::MAX ==> rows is Some,
            rows is Some ==> self@.initialized && x + width <= self@.config.width && y + height
                <= self@.config.height,
            rows matches Some(addresses) ==> addresses@.len() == height && forall|row: int|
                0 <= row < height ==> #[trigger] addresses@[row] == self@.config.address + (y + row)
                    * self@.config.stride + 4 * x,
    {
        if !self.initialized {
            return None;
        }
        if x + width > self.config.width || y + height > self.config.height {
            return None;
        }
        let stride: u64 = self.config.stride as u64;
        proof {
            lemma_row_offsets(self.config, x, y, 0);
            assert forall|r: int| 0 <= r < height implies #[trigger] row_address(
                self.config,
                x,
                y,
                r,
            ) <= self.config.address + (y + height) * self.config.stride + 4 * x by {
                let s = self.config.stride as int;
                assert((y + r) * s <= (y + height) * s) by (nonlinear_arith)
                    requires
                        r < height,
                        0 <= s,
                ;
            }
        }
        let offset: u64 = y as u64 * stride + x as u64 * 4;
        let mut addresses: Vec<u64> = Vec::new();
        let mut row: u32 = 0;
        while row < height
            invariant
                row <= height,
                height > 0 ==> row_offset(self.config, x, y, height - 1) <= usize::MAX,
                stride == self.config.stride,
                offset == row_offset(self.config, x, y, 0),
                forall|r: int|
                    0 <= r < height ==> #[trigger] row_address(self.config, x, y, r)
                        <= self.config.address + (y + height) * self.config.stride + 4 * x,
                addresses@.len() == row,
                forall|r: int|
                    0 <= r < row ==> #[trigger] addresses@[r] == row_address(
                        self.config,
                        x,
                        y,
                        r,
                    ),
            decreases height - row,
        {
            proof {
                lemma_row_offsets(self.config, x, y, row as int);
                lemma_row_offsets_grow(self.config, x, y, row as int, height - 1);
            }
            let distance: u64 = offset + row as u64 * stride;
            match guest_address_add(self.config.address, distance) {
                Some(address) => {
                    addresses.push(address);
                },
                None => {
                    assert(row_address(self.config, x, y, row as int) > u64::MAX);
                    return None;
                },
            }
            row = row + 1;
        }
        assert forall|r: int| 0 <= r < height implies #[trigger] row_address(
            self.config,
            x,
            y,
            r,
        ) <= u64::MAX by {
            assert(addresses@[r] == row_address(self.config, x, y, r));
        }
        Some(addresses)
    }

    /// Reads a rectangle of the framebuffer, four bytes per pixel, row after row. There
    /// is nothing to read where no framebuffer is in use, the rectangle is not within
    /// it, or memory does not hold all of every row.
    pub fn read_region(
        &self,
        memory: &GuestMemoryMmap<AtomicBitmap>,
        x: u32,
        y: u32,
        width: u32,
        height: u32,
    ) -> (data: Option<Vec<u8>>)
        requires
            self@.initialized ==> region_countable(self@.config, x, y, width, height),
        ensures
            data is Some <==> self@.initialized && region_inside(
                self@.config,
                x,
                y,
                width,
                height,
            ) && rows_held(
                self@.config,
                x,
                y,
                width,
                height,
                crate::display::guest_memory::held(*memory),
            ),
            data matches Some(bytes) ==> bytes@.len() == region_length(width, height) && forall|
                row: int,
            |
                0 <= row < height ==> crate::display::guest_memory::reads_as(
                    crate::display::guest_memory::held(*memory),
                    row_address(self@.config, x, y, row) as u64,
                    #[trigger] row_bytes(bytes@, width * 4, row),
                ),
            self@.initialized && x + width <= self@.config.width && y + height
                <= self@.config.height && width > 0 && 4 * self@.config.width
                <= self@.config.stride && self@.config.address + self@.config.stride
                * self@.config.height <= u64::MAX && (forall|at: u64|
                self@.config.address <= at < self@.config.address + self@.config.stride
                    * self@.config.height ==> #[trigger] crate::display::guest_memory::held(
                    *memory,
                ).dom().contains(at)) ==> data is Some,
            data is Some ==> self@.initialized && x + width <= self@.config.width && y + height
                <= self@.config.height,
            data matches Some(bytes) ==> bytes@.len() == 4 * (width * height) && forall|
                row: int,
                i: int,
            |
                0 <= row < height && 0 <= i < 4 * width
                    ==> #[trigger] crate::display::guest_memory::held(*memory)[(self@.config.address
                    + (y + row) * self@.config.stride + 4 * x + i) as u64].contains(
                    bytes@[row * (4 * width) + i],
                ),
    {
        let ghost mut complete = false;
        proof {
            let contents = crate::display::guest_memory::held(*memory);
            if x + width <= self@.config.width && y + height <= self@.config.height && width > 0 && 4
                * self@.config.width <= self@.config.stride && self@.config.address
                + self@.config.stride * self@.config.height <= u64::MAX && (forall|at: u64|
                self@.config.address <= at < self@.config.address + self@.config.stride
                    * self@.config.height ==> #[trigger] contents.dom().contains(at)) {
                law_held_framebuffer_gives_every_region(contents, self@.config, x, y, width, height);
                complete = true;
            }
        }
        match self.region_rows(x, y, width, height) {
            Some(rows) => {
                let ghost contents = crate::display::guest_memory::held(*memory);
                proof {
                    assert(rows@.len() == height);
                    lemma_row_fits(width, height);
                }
                if height == 0 {
                    assert(region_length(width, height) == 0) by (nonlinear_arith)
                        requires
                            region_length(width, height) == width * 4 * height,
                            height == 0,
                    ;
                    assert(4 * (width * height) == 0) by (nonlinear_arith)
                        requires
                            height == 0,
                    ;
                    return Some(Vec::new());
                }
                let length: usize = width as usize * 4;
                let mut data: Vec<u8> = Vec::new();
                let mut row: usize = 0;
                assert(0 == 0 * length) by (nonlinear_arith);
                while row < rows.len()
                    invariant
                        row <= rows@.len(),
                        rows@.len() == height,
                        length == width * 4,
                        length <= isize::MAX,
                        contents == crate::display::guest_memory::held(*memory),
                        complete ==> rows_held(self.config, x, y, width, height, contents),
                        complete == (x + width <= self@.config.width && y + height
                            <= self@.config.height && width > 0 && 4 * self@.config.width
                            <= self@.config.stride && self@.config.address + self@.config.stride
                            * self@.config.height <= u64::MAX && (forall|at: u64|
                            self@.config.address <= at < self@.config.address + self@.config.stride
                                * self@.config.height ==> #[trigger] contents.dom().contains(at))),
                        forall|r: int|
                            0 <= r < height ==> #[trigger] rows@[r] == row_address(
                                self.config,
                                x,
                                y,
                                r,
                            ),
                        data@.len() == row * length,
                        forall|r: int|
                            0 <= r < row ==> crate::display::guest_memory::all_held(
                                contents,
                                #[trigger] rows@[r],
                                length as nat,
                            ) && crate::display::guest_memory::reads_as(
                                contents,
                                rows@[r],
                                row_bytes(data@, length as int, r),
                            ),
                    decreases rows@.len() - row,
                {
                    match read_guest(memory, rows[row], length) {
                        Some(bytes) => {
                            let ghost before = data@;
                            data.extend_from_slice(bytes.as_slice());
                            proof {
                                assert(data@ =~= before + bytes@);
                                lemma_append_row(before, bytes@, row as int);
                                assert forall|r: int| 0 <= r < row + 1 implies
                                    crate::display::guest_memory::all_held(
                                    contents,
                                    #[trigger] rows@[r],
                                    length as nat,
                                ) && crate::display::guest_memory::reads_as(
                                    contents,
                                    rows@[r],
                                    row_bytes(data@, length as int, r),
                                ) by {
                                    if r < row {
                                        assert(row_bytes(data@, length as int, r) == row_bytes(
                                            before,
                                            length as int,
                                            r,
                                        ));
                                    }
                                }
                            }
                        },
                        None => {
                            assert(rows@[row as int] == row_address(self.config, x, y, row as int));
                            return None;
                        },
                    }
                    row = row + 1;
                }
                proof {
                    assert forall|r: int| 0 <= r < height implies row_address(self.config, x, y, r)
                        <= u64::MAX && crate::display::guest_memory::all_held(
                        contents,
                        #[trigger] row_address(self.config, x, y, r) as u64,
                        (width * 4) as nat,
                    ) by {
                        assert(rows@[r] == row_address(self.config, x, y, r));
                    }
                    assert forall|r: int| 0 <= r < height implies
                        crate::display::guest_memory::reads_as(
                        contents,
                        row_address(self.config, x, y, r) as u64,
                        #[trigger] row_bytes(data@, width * 4, r),
                    ) by {
                        assert(rows@[r] == row_address(self.config, x, y, r));
                    }
                    assert(height * (width * 4) == width * 4 * height) by (nonlinear_arith);
                    assert(height * (width * 4) == 4 * (width * height)) by (nonlinear_arith);
                    assert forall|r: int, i: int|
                        0 <= r < height && 0 <= i < 4 * width implies
                        #[trigger] contents[(self@.config.address + (y + r) * self@.config.stride
                        + 4 * x + i) as u64].contains(data@[r * (4 * width) + i]) by {
                        let n = width * 4;
                        assert(0 <= r * n && (r + 1) * n <= height * n && (r + 1) * n == r * n + n)
                            by (nonlinear_arith)
                            requires
                                0 <= r < height,
                                0 <= n,
                        ;
                        let bytes = row_bytes(data@, n, r);
                        assert(crate::display::guest_memory::reads_as(
                            contents,
                            row_address(self.config, x, y, r) as u64,
                            bytes,
                        ));
                        assert(bytes[i] == data@[r * n + i]);
                        assert(rows@[r] == row_address(self.config, x, y, r));
                    }
                }
                Some(data)
            },
            None => None,
        }
    }
}

/// The offset of a row, as the sum of the offset of the first row and of the rows
/// between them.
proof fn lemma_row_offsets(config: RamfbConfig, x: u32, y: u32, row: int)
    requires
        0 <= row <= u32::MAX,
    ensures
        row_offset(config, x, y, row) == row_offset(config, x, y, 0) + row * config.stride,
        0 <= y * config.stride,
        0 <= row * config.stride,
        y * config.stride <= row_offset(config, x, y, 0),
        row * config.stride <= row_offset(config, x, y, row),
        row_offset(config, x, y, 0) == y * config.stride + x * 4,
{
    let s = config.stride as int;
    assert((y + row) * s == y * s + row * s) by (nonlinear_arith);
    assert(0 <= y * s && 0 <= row * s) by (nonlinear_arith)
        requires
            0 <= y,
            0 <= row,
            0 <= s,
    ;
    assert((y + 0) * s == y * s);
}

/// Later rows are no closer to the start.
proof fn lemma_row_offsets_grow(config: RamfbConfig, x: u32, y: u32, row: int, later: int)
    requires
        0 <= row <= later,
    ensures
        row_offset(config, x, y, row) <= row_offset(config, x, y, later),
{
    let s = config.stride as int;
    assert((y + row) * s <= (y + later) * s) by (nonlinear_arith)
        requires
            row <= later,
            0 <= s,
    ;
}

/// A row is no longer than the rectangle.
proof fn lemma_row_fits(width: u32, height: u32)
    ensures
        height > 0 ==> width * 4 <= region_length(width, height),
{
    if height > 0 {
        assert(width * 4 <= width * 4 * height) by (nonlinear_arith)
            requires
                0 <= width,
                1 <= height,
        ;
    }
}

/// A row that is put behind others is the last one, and leaves the others as they
/// were.
proof fn lemma_append_row(before: Seq<u8>, bytes: Seq<u8>, row: int)
    requires
        0 <= row,
        before.len() == row * bytes.len(),
    ensures
        (before + bytes).len() == (row + 1) * bytes.len(),
        row_bytes(before + bytes, bytes.len() as int, row) == bytes,
        forall|r: int|
            0 <= r < row ==> #[trigger] row_bytes(before + bytes, bytes.len() as int, r)
                == row_bytes(before, bytes.len() as int, r),
{
    let n = bytes.len() as int;
    assert((row + 1) * n == row * n + n) by (nonlinear_arith);
    assert(row_bytes(before + bytes, n, row) =~= bytes);
    assert forall|r: int| 0 <= r < row implies #[trigger] row_bytes(before + bytes, n, r)
        == row_bytes(before, n, r) by {
        assert(0 <= r * n && (r + 1) * n <= row * n && r * n <= (r + 1) * n) by (nonlinear_arith)
            requires
                0 <= r < row,
                0 <= n,
        ;
        assert(row_bytes(before + bytes, n, r) =~= row_bytes(before, n, r));
    }
}

/// What is read of a rectangle is that part of what is read of the whole framebuffer,
/// while the guest leaves the framebuffer alone. Where rows are longer than the
/// distance between them, the last ones may run out of the framebuffer: this is said
/// of every byte that lies within it.
pub proof fn law_region_is_part_of_framebuffer(
    contents: Map<u64, Set<u8>>,
    config: RamfbConfig,
    whole: Seq<u8>,
    x: u32,
    y: u32,
    width: u32,
    height: u32,
    part: Seq<u8>,
    row: int,
    i: int,
)
    requires
        fits_address_space(config),
        crate::display::guest_memory::quiet(
            contents,
            config.address as int,
            framebuffer_length(config),
        ),
        whole.len() == framebuffer_length(config),
        crate::display::guest_memory::reads_as(contents, config.address, whole),
        part.len() == region_length(width, height),
        0 <= row < height,
        0 <= i < width * 4,
        row_offset(config, x, y, row) + i < framebuffer_length(config),
        crate::display::guest_memory::reads_as(
            contents,
            row_address(config, x, y, row) as u64,
            row_bytes(part, width * 4, row),
        ),
    ensures
        part[row * (width * 4) + i] == whole[row_offset(config, x, y, row) + i],
{
    let n = width * 4;
    let s = config.stride as int;
    let offset = row_offset(config, x, y, row);
    assert(0 <= row * n && (row + 1) * n <= height * n && (row + 1) * n == row * n + n && height
        * n == width * 4 * height) by (nonlinear_arith)
        requires
            0 <= row < height,
            0 <= n,
            n == width * 4,
    ;
    assert(0 <= (y + row) * s) by (nonlinear_arith)
        requires
            0 <= y + row,
            0 <= s,
    ;
    let bytes = row_bytes(part, n, row);
    crate::display::guest_memory::law_quiet_reads_agree(
        contents,
        config.address,
        whole,
        row_address(config, x, y, row) as u64,
        bytes,
        offset + i,
        i,
    );
}

/// What is read of a rectangle is that part of what is read of the whole framebuffer, pixel
/// by pixel, while the guest leaves the framebuffer alone: byte `c` of the pixel in column
/// `column` and row `row` of the rectangle is byte `c` of the pixel in column `x + column`
/// and row `y + row` of the framebuffer.
pub proof fn law_pixels_of_a_region(
    contents: Map<u64, Set<u8>>,
    config: RamfbConfig,
    whole: Seq<u8>,
    x: u32,
    y: u32,
    width: u32,
    height: u32,
    part: Seq<u8>,
    column: int,
    row: int,
    c: int,
)
    requires
        config.address + config.stride * config.height <= u64::MAX,
        4 * config.width <= config.stride,
        x + width <= config.width,
        y + height <= config.height,
        crate::display::guest_memory::quiet(
            contents,
            config.address as int,
            config.stride * config.height,
        ),
        whole.len() == config.stride * config.height,
        crate::display::guest_memory::reads_as(contents, config.address, whole),
        part.len() == 4 * (width * height),
        0 <= column < width,
        0 <= row < height,
        0 <= c < 4,
        crate::display::guest_memory::reads_as(
            contents,
            row_address(config, x, y, row) as u64,
            row_bytes(part, width * 4, row),
        ),
    ensures
        part[4 * (row * width + column) + c] == whole[(y + row) * config.stride + 4 * (x + column)
            + c],
{
    let s = config.stride as int;
    let i = 4 * column + c;
    assert((y + row + 1) * s <= config.height * s && (y + row + 1) * s == (y + row) * s + s
        && config.height * s == s * config.height) by (nonlinear_arith)
        requires
            y + row + 1 <= config.height,
            0 <= s,
    ;
    assert(width * 4 * height == 4 * (width * height)) by (nonlinear_arith);
    assert(row * (width * 4) == 4 * (row * width)) by (nonlinear_arith);
    law_region_is_part_of_framebuffer(
        contents,
        config,
        whole,
        x,
        y,
        width,
        height,
        part,
        row,
        i,
    );
}

/// A rectangle can be counted wherever its edges, its bytes and the distance of its end
/// from the start of the framebuffer fit into machine words.
pub proof fn law_small_regions_are_countable(
    config: RamfbConfig,
    x: u32,
    y: u32,
    width: u32,
    height: u32,
)
    requires
        x + width <= u32::MAX,
        y + height <= u32::MAX,
        4 * (width * height) <= isize::MAX,
        (y + height) * config.stride + 4 * x <= usize::MAX,
    ensures
        region_countable(config, x, y, width, height),
{
    let s = config.stride as int;
    assert(width * 4 * height == 4 * (width * height)) by (nonlinear_arith);
    assert((y + 0) * s <= (y + height) * s) by (nonlinear_arith)
        requires
            0 <= height,
            0 <= s,
    ;
    assert((y + (height - 1)) * s <= (y + height) * s) by (nonlinear_arith)
        requires
            0 <= s,
    ;
}

/// Where memory holds the whole framebuffer, it holds every row of every rectangle within
/// it. For framebuffers whose rows do not run into each other.
pub proof fn law_held_framebuffer_gives_every_region(
    contents: Map<u64, Set<u8>>,
    config: RamfbConfig,
    x: u32,
    y: u32,
    width: u32,
    height: u32,
)
    requires
        config.address + config.stride * config.height <= u64::MAX,
        4 * config.width <= config.stride,
        x + width <= config.width,
        y + height <= config.height,
        width > 0,
        forall|at: u64|
            config.address <= at < config.address + config.stride * config.height
                ==> #[trigger] contents.dom().contains(at),
    ensures
        rows_held(config, x, y, width, height, contents),
{
    assert forall|row: int| 0 <= row < height implies row_address(config, x, y, row) <= u64::MAX
        && crate::display::guest_memory::all_held(
        contents,
        #[trigger] row_address(config, x, y, row) as u64,
        (width * 4) as nat,
    ) by {
        let s = config.stride as int;
        assert(0 <= (y + row) * s && (y + row + 1) * s <= config.height * s && (y + row + 1) * s
            == (y + row) * s + s && config.height * s == s * config.height) by (nonlinear_arith)
            requires
                0 <= y + row,
                y + row + 1 <= config.height,
                0 <= s,
        ;
        let address = row_address(config, x, y, row) as u64;
        assert(config.address <= address);
        assert(address + width * 4 <= config.address + s * config.height);
        crate::display::guest_memory::law_all_held(contents, address, (width * 4) as nat);
    }
}

/// A framebuffer takes as many bytes as its rows lie apart, for each row, and fits into the
/// address space where its end does. One more row takes as many bytes more.
pub proof fn law_size_of_a_framebuffer(config: RamfbConfig)
    ensures
        framebuffer_length(config) == config.stride * config.height,
        config.height < u32::MAX ==> framebuffer_length(
            RamfbConfig { height: (config.height + 1) as u32, ..config },
        ) == framebuffer_length(config) + config.stride,
        fits_address_space(config) <==> config.address + config.stride * config.height <= u64::MAX,
{
    let s = config.stride as int;
    let h = config.height as int;
    assert(s * (h + 1) == s * h + s) by (nonlinear_arith);
}

/// A rectangle is within the framebuffer where its right edge and its lower edge are; a
/// surface with a framebuffer has one of 32 bits per pixel that fits into the address
/// space.
pub proof fn law_regions_within(
    surface: SurfaceView,
    x: u32,
    y: u32,
    width: u32,
    height: u32,
)
    ensures
        region_inside(surface.config, x, y, width, height) <==> x + width <= surface.config.width
            && y + height <= surface.config.height,
        surface.wf() <==> (surface.initialized ==> surface.config.fourcc == 0x34325258
            && surface.config.address + surface.config.stride * surface.config.height
            <= u64::MAX),
{
}

} // verus!
