//! Video device: reads a framebuffer from memory one byte per cycle and
//! hands completed frames to the host, with cycle-based frame pacing.
use crate::bus_device::{BusDevice, BusDeviceError, SystemContext};
use crate::dram::dram_byte;
use crate::memory::byte_at;
use crate::memory_map::{addr_offset, spec_valid_dram_range};
use vstd::prelude::*;

verus! {

/// Pixel format of a framebuffer.
#[derive(Debug, Clone, Copy, PartialEq, Eq)]
pub enum VideoFormat {
    /// 4 bytes per pixel: red, green, blue, alpha.
    Rgba8,
    /// 3 bytes per pixel: red, green, blue.
    Rgb8,
    /// 2 bytes per pixel, little-endian: 5 bits red, 6 green, 5 blue.
    Rgb565,
    /// 1 byte per pixel: grayscale.
    R8,
}

/// Bytes per pixel of a format.
pub open spec fn spec_bytes_per_pixel(f: VideoFormat) -> u32 {
    match f {
        VideoFormat::Rgba8 => 4,
        VideoFormat::Rgb8 => 3,
        VideoFormat::Rgb565 => 2,
        VideoFormat::R8 => 1,
    }
}

/// Format named by the 8-bit format field, if any.
pub open spec fn spec_format_from_u8(v: u8) -> Option<VideoFormat> {
    if v == 0 {
        Some(VideoFormat::Rgba8)
    } else if v == 1 {
        Some(VideoFormat::Rgb8)
    } else if v == 2 {
        Some(VideoFormat::Rgb565)
    } else if v == 3 {
        Some(VideoFormat::R8)
    } else {
        None
    }
}

/// The 8-bit format field naming a format.
pub open spec fn spec_format_to_u8(f: VideoFormat) -> u8 {
    match f {
        VideoFormat::Rgba8 => 0,
        VideoFormat::Rgb8 => 1,
        VideoFormat::Rgb565 => 2,
        VideoFormat::R8 => 3,
    }
}

impl VideoFormat {
    /// Number of bytes per pixel.
    pub fn bytes_per_pixel(&self) -> (r: u32)
        ensures
            r == spec_bytes_per_pixel(*self),
    {
        match self {
            VideoFormat::Rgba8 => 4,
            VideoFormat::Rgb8 => 3,
            VideoFormat::Rgb565 => 2,
            VideoFormat::R8 => 1,
        }
    }

    /// Parse the 8-bit format field (0 = RGBA8, 1 = RGB8, 2 = RGB565, 3 = R8).
    pub fn from_u8(value: u8) -> (r: Option<Self>)
        ensures
            r == spec_format_from_u8(value),
    {
        match value {
            0 => Some(VideoFormat::Rgba8),
            1 => Some(VideoFormat::Rgb8),
            2 => Some(VideoFormat::Rgb565),
            3 => Some(VideoFormat::R8),
            _ => None,
        }
    }

    /// The 8-bit format field for this format.
    pub fn to_u8(self) -> (r: u8)
        ensures
            r == spec_format_to_u8(self),
    {
        match self {
            VideoFormat::Rgba8 => 0,
            VideoFormat::Rgb8 => 1,
            VideoFormat::Rgb565 => 2,
            VideoFormat::R8 => 3,
        }
    }
}

/// Image geometry and format decoded from the VIDEO_CONFIG register.
#[derive(Debug, Clone, Copy, PartialEq, Eq)]
pub struct VideoConfig {
    /// Width in pixels, 1 to 4096.
    pub width: u32,
    /// Height in pixels, 1 to 4096.
    pub height: u32,
    /// Pixel format.
    pub format: VideoFormat,
}

/// Decoding of the VIDEO_CONFIG register: bits 11:0 hold width - 1,
/// bits 23:12 height - 1, bits 31:24 the format; `None` for an unknown format.
pub open spec fn spec_config_from_register(value: u32) -> Option<VideoConfig> {
    match spec_format_from_u8(((value >> 24u32) & 0xFFu32) as u8) {
        Some(format) => Some(
            VideoConfig {
                width: ((value & 0xFFFu32) + 1) as u32,
                height: (((value >> 12u32) & 0xFFFu32) + 1) as u32,
                format,
            },
        ),
        None => None,
    }
}

/// Register encoding of a configuration.
pub open spec fn spec_config_to_register(c: VideoConfig) -> u32 {
    (((c.width - 1) as u32) | (((c.height - 1) as u32) << 12u32) | ((spec_format_to_u8(c.format) as u32) << 24u32)) as u32
}

/// Number of framebuffer bytes a configuration describes.
pub open spec fn spec_total_bytes(c: VideoConfig) -> int {
    c.width * c.height * spec_bytes_per_pixel(c.format)
}

impl VideoConfig {
    /// The configuration has dimensions in 1..=4096.
    pub open spec fn well_formed(&self) -> bool {
        1 <= self.width <= 4096 && 1 <= self.height <= 4096
    }

    /// Decode the VIDEO_CONFIG register.
    pub fn from_register(value: u32) -> (r: Option<Self>)
        ensures
            r == spec_config_from_register(value),
            r matches Some(c) ==> c.well_formed(),
    {
        let width_minus_1 = value & 0xFFF;
        let height_minus_1 = (value >> 12u32) & 0xFFF;
        let format_field = ((value >> 24u32) & 0xFF) as u8;
        assert(width_minus_1 <= 0xFFF) by (bit_vector)
            requires
                width_minus_1 == value & 0xFFF,
        ;
        assert(height_minus_1 <= 0xFFF) by (bit_vector)
            requires
                height_minus_1 == (value >> 12u32) & 0xFFF,
        ;
        let format = match VideoFormat::from_u8(format_field) {
            Some(f) => f,
            None => return None,
        };
        Some(VideoConfig { width: width_minus_1 + 1, height: height_minus_1 + 1, format })
    }

    /// Encode as a VIDEO_CONFIG register value.
    pub fn to_register(self) -> (r: u32)
        requires
            self.well_formed(),
        ensures
            r == spec_config_to_register(self),
    {
        let width_minus_1 = self.width - 1;
        let height_minus_1 = self.height - 1;
        let format_field = self.format.to_u8() as u32;
        width_minus_1 | (height_minus_1 << 12u32) | (format_field << 24u32)
    }

    /// Total framebuffer size in bytes.
    pub fn total_bytes(&self) -> (r: u32)
        requires
            self.well_formed(),
        ensures
            r == spec_total_bytes(*self),
    {
        let bpp = self.format.bytes_per_pixel();
        assert(self.width * self.height <= 4096 * 4096) by (nonlinear_arith)
            requires
                1 <= self.width <= 4096,
                1 <= self.height <= 4096,
        ;
        assert(self.width * self.height * bpp <= 4096 * 4096 * 4) by (nonlinear_arith)
            requires
                self.width * self.height <= 4096 * 4096,
                bpp <= 4,
        ;
        self.width * self.height * bpp
    }
}

/// Decoding then encoding a register with a valid format gives it back.
pub proof fn lemma_config_register_round_trip(value: u32)
    requires
        spec_config_from_register(value) is Some,
    ensures
        spec_config_to_register(spec_config_from_register(value).unwrap()) == value,
{
    let f = ((value >> 24u32) & 0xFFu32) as u8;
    assert(f as u32 == (value >> 24u32) & 0xFFu32) by (bit_vector)
        requires
            f == ((value >> 24u32) & 0xFFu32) as u8,
    ;
    let w = value & 0xFFFu32;
    let h = (value >> 12u32) & 0xFFFu32;
    assert(w <= 0xFFF && h <= 0xFFF) by (bit_vector)
        requires
            w == value & 0xFFFu32,
            h == (value >> 12u32) & 0xFFFu32,
    ;
    assert((w | (h << 12u32) | ((f as u32) << 24u32)) == value) by (bit_vector)
        requires
            w == value & 0xFFFu32,
            h == (value >> 12u32) & 0xFFFu32,
            f as u32 == (value >> 24u32) & 0xFFu32,
    ;
}

/// Encoding then decoding a well-formed configuration gives it back.
pub proof fn lemma_config_decode_after_encode(c: VideoConfig)
    requires
        c.well_formed(),
    ensures
        spec_config_from_register(spec_config_to_register(c)) == Some(c),
{
    let w = (c.width - 1) as u32;
    let h = (c.height - 1) as u32;
    let f = spec_format_to_u8(c.format) as u32;
    let v = spec_config_to_register(c);
    assert(v == w | (h << 12u32) | (f << 24u32));
    assert((v & 0xFFFu32) == w && ((v >> 12u32) & 0xFFFu32) == h && ((v >> 24u32) & 0xFFu32) == f)
        by (bit_vector)
        requires
            w <= 0xFFF,
            h <= 0xFFF,
            f <= 3,
            v == w | (h << 12u32) | (f << 24u32),
    ;
}

/// Present operation in progress: the framebuffer is read one byte per cycle.
pub struct ActivePresent {
    current_addr: u32,
    bytes_remaining: u32,
    pixel_data: Vec<u8>,
    config: VideoConfig,
}

impl ActivePresent {
    #[verifier::type_invariant]
    spec fn inv(&self) -> bool {
        &&& self.bytes_remaining > 0
        &&& self.config.well_formed()
        &&& self.pixel_data@.len() + self.bytes_remaining == spec_total_bytes(self.config)
    }
}

/// Target frame rate; never zero.
pub struct FrameRate {
    fps: u32,
}

impl FrameRate {
    #[verifier::type_invariant]
    spec fn inv(&self) -> bool {
        self.fps > 0
    }

    /// The rate in frames per second.
    pub closed spec fn spec_fps(&self) -> u32 {
        self.fps
    }

    fn get(&self) -> (r: u32)
        ensures
            r == self.spec_fps(),
            r > 0,
    {
        proof {
            use_type_invariant(self);
        }
        self.fps
    }
}

/// A frame whose bytes have all been read, waiting for the host to store it.
pub struct CompletedFrame {
    /// Configuration the frame was presented with.
    pub config: VideoConfig,
    /// Raw framebuffer bytes in the frame's own format.
    pub pixel_data: Vec<u8>,
    /// Device cycle count at which the last byte was read.
    pub cycle: u64,
}

/// Abstract state of a present in progress.
pub struct PresentView {
    pub current_addr: u32,
    pub bytes_remaining: u32,
    pub pixels: Seq<u8>,
    pub config: VideoConfig,
}

/// Abstract state of a completed frame.
pub struct FrameView {
    pub config: VideoConfig,
    pub pixels: Seq<u8>,
    pub cycle: u64,
}

/// Abstract state of the video device.
pub struct VideoView {
    pub video_addr: u32,
    pub video_config: u32,
    pub active: Option<PresentView>,
    pub target_fps: u32,
    pub last_frame_cycle: Option<u64>,
    pub current_cycle: u64,
    pub frame_index: u32,
    pub completed: Seq<FrameView>,
}

/// Assumed CPU clock, used to turn the frame rate into a cycle budget.
pub const CPU_FREQ_HZ: u64 = 100_000_000;

/// FRAME_READY: no frame stored yet, or a full frame period of cycles has
/// elapsed since the last stored frame.
pub open spec fn spec_frame_ready(s: VideoView) -> bool {
    match s.last_frame_cycle {
        None => true,
        Some(last) => (if s.current_cycle >= last { s.current_cycle - last } else { 0 }) >= CPU_FREQ_HZ
            / (s.target_fps as u64),
    }
}

/// Value of the VIDEO_STATUS register: bit 0 FRAME_READY, bit 1 PRESENT_READY.
pub open spec fn spec_video_status(s: VideoView) -> u32 {
    ((if spec_frame_ready(s) { 1u32 } else { 0u32 }) + (if s.active is None { 2u32 } else { 0u32 })) as u32
}

/// Result of a word read of register `offset`.
pub open spec fn spec_video_read(s: VideoView, offset: u32) -> Result<u32, BusDeviceError> {
    if offset == 0x00 {
        Ok(s.video_addr)
    } else if offset == 0x04 {
        Ok(s.video_config)
    } else if offset == 0x08 {
        Ok(spec_video_status(s))
    } else if offset == 0x0C {
        Err(BusDeviceError::ReadFromWriteOnly { offset })
    } else {
        Err(BusDeviceError::InvalidAddress { offset })
    }
}

/// State after a write to VIDEO_PRESENT: a present of the configured
/// framebuffer starts unless one is running or the configuration is invalid.
pub open spec fn spec_video_present(s: VideoView) -> VideoView {
    if s.active is Some {
        s
    } else {
        match spec_config_from_register(s.video_config) {
            None => s,
            Some(c) => VideoView {
                active: Some(
                    PresentView {
                        current_addr: s.video_addr,
                        bytes_remaining: spec_total_bytes(c) as u32,
                        pixels: Seq::empty(),
                        config: c,
                    },
                ),
                ..s
            },
        }
    }
}

/// Result and state after a word write of `value` to register `offset`.
pub open spec fn spec_video_write(s: VideoView, offset: u32, value: u32) -> (
    Result<(), BusDeviceError>,
    VideoView,
) {
    if offset == 0x00 {
        (Ok(()), VideoView { video_addr: value, ..s })
    } else if offset == 0x04 {
        (Ok(()), VideoView { video_config: value, ..s })
    } else if offset == 0x08 {
        (Err(BusDeviceError::WriteToReadOnly { offset }), s)
    } else if offset == 0x0C {
        (Ok(()), spec_video_present(s))
    } else {
        (Err(BusDeviceError::InvalidAddress { offset }), s)
    }
}

/// State after one clock cycle with memory `m`: the cycle counter advances
/// and, if a present is running, one framebuffer byte is read; reading the
/// last byte queues the completed frame.
pub open spec fn spec_video_step(s: VideoView, m: Map<u32, u8>) -> VideoView {
    let cycle = s.current_cycle.wrapping_add(1);
    match s.active {
        None => VideoView { current_cycle: cycle, ..s },
        Some(p) => {
            let pixels = p.pixels.push(dram_byte(m, p.current_addr));
            if p.bytes_remaining <= 1 {
                VideoView {
                    current_cycle: cycle,
                    active: None,
                    completed: s.completed.push(FrameView { config: p.config, pixels, cycle }),
                    ..s
                }
            } else {
                VideoView {
                    current_cycle: cycle,
                    active: Some(
                        PresentView {
                            current_addr: p.current_addr.wrapping_add(1),
                            bytes_remaining: (p.bytes_remaining - 1) as u32,
                            pixels,
                            config: p.config,
                        },
                    ),
                    ..s
                }
            }
        },
    }
}

/// Device state after `k` clock cycles over memory `m` (which the device
/// only reads).
pub open spec fn video_run(s: VideoView, m: Map<u32, u8>, k: nat) -> VideoView
    decreases k,
{
    if k == 0 {
        s
    } else {
        spec_video_step(video_run(s, m, (k - 1) as nat), m)
    }
}

/// The `n` bytes of memory starting at `addr`.
pub open spec fn framebuffer(m: Map<u32, u8>, addr: u32, n: int) -> Seq<u8> {
    Seq::new(n as nat, |k: int| byte_at(m, addr_offset(addr, k)))
}

/// The first `j` cycles of a present of `n` bytes from `addr`.
proof fn lemma_video_run_prefix(s: VideoView, m: Map<u32, u8>, addr: u32, n: u32, c: VideoConfig, j: nat)
    requires
        s.active == Some(PresentView { current_addr: addr, bytes_remaining: n, pixels: Seq::empty(), config: c }),
        spec_valid_dram_range(addr, n),
        j <= n,
    ensures
        ({
            let sj = video_run(s, m, j);
            &&& sj.video_addr == s.video_addr && sj.video_config == s.video_config
            &&& sj.target_fps == s.target_fps && sj.last_frame_cycle == s.last_frame_cycle
            &&& sj.frame_index == s.frame_index
            &&& j < n ==> sj.active == Some(
                PresentView {
                    current_addr: addr_offset(addr, j as int),
                    bytes_remaining: (n - j) as u32,
                    pixels: framebuffer(m, addr, j as int),
                    config: c,
                },
            ) && sj.completed == s.completed
            &&& j == n ==> sj.active is None && sj.completed.len() == s.completed.len() + 1
                && sj.completed.drop_last() == s.completed
                && sj.completed.last().config == c
                && sj.completed.last().pixels == framebuffer(m, addr, n as int)
        }),
    decreases j,
{
    if j > 0 {
        lemma_video_run_prefix(s, m, addr, n, c, (j - 1) as nat);
        let sp = video_run(s, m, (j - 1) as nat);
        assert(spec_valid_dram_range(addr_offset(addr, j - 1), 1));
        assert(framebuffer(m, addr, j - 1).push(dram_byte(m, addr_offset(addr, j - 1))) =~= framebuffer(m, addr, j as int));
        let sj = video_run(s, m, j);
        if j == n {
            assert(sj.completed.drop_last() =~= s.completed);
        }
    } else {
        assert(framebuffer(m, addr, 0) =~= Seq::<u8>::empty());
    }
}

/// A present of a framebuffer lying in DRAM reads exactly that
/// framebuffer: once started with `n` bytes to read from `addr`, after `n`
/// clock cycles the device is idle again, its registers are unchanged, and
/// one more frame is queued, with the present's configuration and the `n`
/// bytes of memory starting at `addr`.
pub proof fn lemma_present_reads_framebuffer(s: VideoView, m: Map<u32, u8>, addr: u32, n: u32, c: VideoConfig)
    requires
        s.active == Some(PresentView { current_addr: addr, bytes_remaining: n, pixels: Seq::empty(), config: c }),
        spec_valid_dram_range(addr, n),
    ensures
        ({
            let s2 = video_run(s, m, n as nat);
            &&& s2.active is None
            &&& s2.video_addr == s.video_addr && s2.video_config == s.video_config
            &&& s2.completed.len() == s.completed.len() + 1
            &&& s2.completed.drop_last() == s.completed
            &&& s2.completed.last().config == c
            &&& s2.completed.last().pixels == framebuffer(m, addr, n as int)
        }),
{
    lemma_video_run_prefix(s, m, addr, n, c, n as nat);
}

/// Writing VIDEO_PRESENT on an idle device with a valid configuration `c`
/// starts a present of the whole framebuffer at VIDEO_ADDR.
pub proof fn lemma_present_starts(s: VideoView, c: VideoConfig)
    requires
        s.active is None,
        spec_config_from_register(s.video_config) == Some(c),
    ensures
        spec_video_present(s).active == Some(
            PresentView {
                current_addr: s.video_addr,
                bytes_remaining: spec_total_bytes(c) as u32,
                pixels: Seq::empty(),
                config: c,
            },
        ),
{
}

/// Video device providing display output.
///
/// Register map (word access only):
/// - 0x00 VIDEO_ADDR: framebuffer address (read/write)
/// - 0x04 VIDEO_CONFIG: width - 1 in bits 11:0, height - 1 in bits 23:12,
///   format in bits 31:24 (read/write)
/// - 0x08 VIDEO_STATUS (read-only): bit 0 FRAME_READY, bit 1 PRESENT_READY
/// - 0x0C VIDEO_PRESENT (write-only): any write starts a present
///
/// A present reads the framebuffer one byte per clock cycle. When the last
/// byte is read the frame is queued for the host, which stores it and then
/// reports back with [`Video::frame_saved`]; frame pacing counts from there.
pub struct Video {
    video_addr: u32,
    video_config: u32,
    active_present: Option<ActivePresent>,
    target_fps: FrameRate,
    last_frame_cycle: Option<u64>,
    current_cycle: u64,
    frame_index: u32,
    completed_frames: Vec<CompletedFrame>,
}

impl View for Video {
    type V = VideoView;

    closed spec fn view(&self) -> VideoView {
        VideoView {
            video_addr: self.video_addr,
            video_config: self.video_config,
            active: match self.active_present {
                None => None,
                Some(p) => Some(
                    PresentView {
                        current_addr: p.current_addr,
                        bytes_remaining: p.bytes_remaining,
                        pixels: p.pixel_data@,
                        config: p.config,
                    },
                ),
            },
            target_fps: self.target_fps.spec_fps(),
            last_frame_cycle: self.last_frame_cycle,
            current_cycle: self.current_cycle,
            frame_index: self.frame_index,
            completed: self.completed_frames@.map_values(
                |f: CompletedFrame| FrameView { config: f.config, pixels: f.pixel_data@, cycle: f.cycle },
            ),
        }
    }
}

/// Freshly created device with the given frame rate: registers zero, idle,
/// no frame stored yet.
pub open spec fn spec_video_initial(fps: u32) -> VideoView {
    VideoView {
        video_addr: 0,
        video_config: 0,
        active: None,
        target_fps: fps,
        last_frame_cycle: None,
        current_cycle: 0,
        frame_index: 0,
        completed: Seq::empty(),
    }
}

impl Video {
    /// Create a device paced at 60 frames per second.
    pub fn new() -> (v: Self)
        ensures
            v@ == spec_video_initial(60),
    {
        Self::with_fps(60)
    }

    /// Create a device paced at `fps` frames per second.
    pub fn with_fps(fps: u32) -> (v: Self)
        requires
            fps > 0,
        ensures
            v@ == spec_video_initial(fps),
    {
        let v = Video {
            video_addr: 0,
            video_config: 0,
            active_present: None,
            target_fps: FrameRate { fps },
            last_frame_cycle: None,
            current_cycle: 0,
            frame_index: 0,
            completed_frames: Vec::new(),
        };
        assert(v@.completed =~= Seq::<FrameView>::empty());
        v
    }

    /// Whether a present is in progress.
    pub fn is_present_active(&self) -> (r: bool)
        ensures
            r == self@.active is Some,
    {
        self.active_present.is_some()
    }

    /// FRAME_READY status bit.
    fn is_frame_ready(&self) -> (r: bool)
        ensures
            r == spec_frame_ready(self@),
    {
        match self.last_frame_cycle {
            None => true,
            Some(last_cycle) => {
                let cycles_per_frame = CPU_FREQ_HZ / (self.target_fps.get() as u64);
                let elapsed_cycles = self.current_cycle.saturating_sub(last_cycle);
                elapsed_cycles >= cycles_per_frame
            },
        }
    }

    /// Start a present from the configured registers.
    pub fn start_present(&mut self)
        ensures
            final(self)@ == spec_video_present(old(self)@),
    {
        if self.is_present_active() {
            return;
        }
        let config = match VideoConfig::from_register(self.video_config) {
            Some(c) => c,
            None => return,
        };
        let total_bytes = config.total_bytes();
        assert(total_bytes > 0) by (nonlinear_arith)
            requires
                total_bytes == config.width * config.height * spec_bytes_per_pixel(config.format),
                config.width >= 1,
                config.height >= 1,
                spec_bytes_per_pixel(config.format) >= 1,
        ;
        let p = ActivePresent {
            current_addr: self.video_addr,
            bytes_remaining: total_bytes,
            pixel_data: Vec::new(),
            config,
        };
        assert(p.pixel_data@ =~= Seq::<u8>::empty());
        self.active_present = Some(p);
    }

    /// Advance one cycle: count it and read one framebuffer byte if presenting.
    fn step(&mut self, ctx: &mut SystemContext)
        ensures
            final(self)@ == spec_video_step(old(self)@, old(ctx).mem()),
            final(ctx).mem() == old(ctx).mem(),
            *final(final(ctx).memory) == *final(old(ctx).memory),
    {
        let cycle = self.current_cycle.wrapping_add(1);
        self.current_cycle = cycle;
        let p = match self.active_present.take() {
            Some(p) => p,
            None => return,
        };
        proof {
            use_type_invariant(&p);
        }
        let ActivePresent { current_addr, bytes_remaining, mut pixel_data, config } = p;
        let byte = ctx.read_byte(current_addr);
        pixel_data.push(byte);
        if bytes_remaining == 1 {
            let ghost pixels = pixel_data@;
            self.completed_frames.push(CompletedFrame { config, pixel_data, cycle });
            proof {
                assert(self@.completed =~= old(self)@.completed.push(
                    FrameView { config, pixels, cycle },
                ));
            }
        } else {
            self.active_present = Some(
                ActivePresent {
                    current_addr: current_addr.wrapping_add(1),
                    bytes_remaining: bytes_remaining - 1,
                    pixel_data,
                    config,
                },
            );
        }
    }

    /// Number of frames stored so far.
    pub fn frame_index(&self) -> (r: u32)
        ensures
            r == self@.frame_index,
    {
        self.frame_index
    }

    /// Remove and return the oldest completed frame, if any.
    pub fn take_completed_frame(&mut self) -> (r: Option<CompletedFrame>)
        ensures
            (match r {
                None => old(self)@.completed.len() == 0 && final(self)@ == old(self)@,
                Some(f) => {
                    &&& old(self)@.completed.len() > 0
                    &&& f.config == old(self)@.completed[0].config
                    &&& f.pixel_data@ == old(self)@.completed[0].pixels
                    &&& f.cycle == old(self)@.completed[0].cycle
                    &&& final(self)@ == (VideoView { completed: old(self)@.completed.drop_first(), ..old(self)@ })
                },
            }),
    {
        if self.completed_frames.len() == 0 {
            return None;
        }
        let f = self.completed_frames.remove(0);
        proof {
            assert(self@.completed =~= old(self)@.completed.drop_first());
        }
        Some(f)
    }

    /// Record that the host stored a frame completed at `cycle`: the frame
    /// counter advances and frame pacing restarts from that cycle.
    pub fn frame_saved(&mut self, cycle: u64)
        ensures
            final(self)@ == (VideoView {
                frame_index: old(self)@.frame_index.wrapping_add(1),
                last_frame_cycle: Some(cycle),
                ..old(self)@
            }),
    {
        self.frame_index = self.frame_index.wrapping_add(1);
        self.last_frame_cycle = Some(cycle);
    }
}

impl Default for Video {
    fn default() -> (v: Self)
        ensures
            v@ == spec_video_initial(60),
    {
        Self::new()
    }
}

impl BusDevice for Video {
    fn read_word(&mut self, ctx: &mut SystemContext, offset: u32) -> (r: Result<
        u32,
        BusDeviceError,
    >)
        ensures
            r == spec_video_read(old(self)@, offset),
            final(self)@ == old(self)@,
            final(ctx).mem() == old(ctx).mem(),
    {
        match offset {
            0x00 => Ok(self.video_addr),
            0x04 => Ok(self.video_config),
            0x08 => {
                let frame: u32 = if self.is_frame_ready() { 1 } else { 0 };
                let present: u32 = if !self.is_present_active() { 2 } else { 0 };
                Ok(frame + present)
            },
            0x0C => Err(BusDeviceError::ReadFromWriteOnly { offset }),
            _ => Err(BusDeviceError::InvalidAddress { offset }),
        }
    }

    fn write_word(&mut self, ctx: &mut SystemContext, offset: u32, value: u32) -> (r: Result<
        (),
        BusDeviceError,
    >)
        ensures
            (r, final(self)@) == spec_video_write(old(self)@, offset, value),
            final(ctx).mem() == old(ctx).mem(),
    {
        match offset {
            0x00 => {
                self.video_addr = value;
                Ok(())
            },
            0x04 => {
                self.video_config = value;
                Ok(())
            },
            0x08 => Err(BusDeviceError::WriteToReadOnly { offset }),
            0x0C => {
                self.start_present();
                Ok(())
            },
            _ => Err(BusDeviceError::InvalidAddress { offset }),
        }
    }

    open spec fn spec_size(&self) -> u32 {
        16
    }

    fn size(&self) -> (r: u32)
        ensures
            r == 16,
    {
        16
    }

    fn name(&self) -> (r: &str)
        ensures
            r@ == "Video"@,
    {
        "Video"
    }

    /// Registers, present state and pacing return to their initial values;
    /// the frame counter and frames awaiting the host are kept.
    fn reset(&mut self, ctx: &mut SystemContext)
        ensures
            final(self)@ == (VideoView {
                video_addr: 0,
                video_config: 0,
                active: None,
                last_frame_cycle: None,
                current_cycle: 0,
                ..old(self)@
            }),
            final(ctx).mem() == old(ctx).mem(),
    {
        self.active_present = None;
        self.video_addr = 0;
        self.video_config = 0;
        self.last_frame_cycle = None;
        self.current_cycle = 0;
    }

    fn clock_cycle(&mut self, ctx: &mut SystemContext)
        ensures
            final(self)@ == spec_video_step(old(self)@, old(ctx).mem()),
            final(ctx).mem() == old(ctx).mem(),
    {
        self.step(ctx);
    }
}

/// RGBA8 bytes of pixel `p` of framebuffer bytes `d` in format `f`
/// (RGB565 channels are widened to 8 bits by replicating their top bits).
pub open spec fn spec_rgba_pixel(f: VideoFormat, d: Seq<u8>, p: int) -> Seq<u8> {
    match f {
        VideoFormat::Rgba8 => seq![d[4 * p], d[4 * p + 1], d[4 * p + 2], d[4 * p + 3]],
        VideoFormat::Rgb8 => seq![d[3 * p], d[3 * p + 1], d[3 * p + 2], 255u8],
        VideoFormat::Rgb565 => {
            let v = ((d[2 * p] as u16) | ((d[2 * p + 1] as u16) << 8u16)) as u16;
            let r = ((v >> 11u16) & 0x1Fu16) as u8;
            let g = ((v >> 5u16) & 0x3Fu16) as u8;
            let b = (v & 0x1Fu16) as u8;
            seq![
                ((r << 3u8) | (r >> 2u8)) as u8,
                ((g << 2u8) | (g >> 4u8)) as u8,
                ((b << 3u8) | (b >> 2u8)) as u8,
                255u8,
            ]
        },
        VideoFormat::R8 => seq![d[p], d[p], d[p], 255u8],
    }
}

/// RGBA8 bytes of the first `n` pixels.
pub open spec fn spec_rgba_prefix(f: VideoFormat, d: Seq<u8>, n: nat) -> Seq<u8>
    decreases n,
{
    if n == 0 {
        Seq::empty()
    } else {
        spec_rgba_prefix(f, d, (n - 1) as nat) + spec_rgba_pixel(f, d, n - 1)
    }
}

/// RGBA8 image of framebuffer bytes `d` in format `f`: RGBA8 data is kept
/// as it is; other formats are converted pixel by pixel over the whole
/// pixels the data holds, with alpha 255.
pub open spec fn spec_to_rgba8(f: VideoFormat, d: Seq<u8>) -> Seq<u8> {
    match f {
        VideoFormat::Rgba8 => d,
        _ => spec_rgba_prefix(f, d, d.len() / (spec_bytes_per_pixel(f) as nat)),
    }
}

proof fn lemma_rgba_prefix_len(f: VideoFormat, d: Seq<u8>, n: nat)
    ensures
        spec_rgba_prefix(f, d, n).len() == 4 * n,
    decreases n,
{
    if n > 0 {
        lemma_rgba_prefix_len(f, d, (n - 1) as nat);
    }
}

/// Convert framebuffer bytes of the given format to RGBA8.
pub fn to_rgba8(format: VideoFormat, pixel_data: &[u8]) -> (r: Vec<u8>)
    ensures
        r@ == spec_to_rgba8(format, pixel_data@),
        format != VideoFormat::Rgba8 ==> r@.len() == 4 * (pixel_data@.len() / (spec_bytes_per_pixel(format) as nat)),
{
    proof {
        lemma_rgba_prefix_len(format, pixel_data@, pixel_data@.len() / (spec_bytes_per_pixel(format) as nat));
    }
    let mut rgba: Vec<u8> = Vec::new();
    match format {
        VideoFormat::Rgba8 => {
            let mut i: usize = 0;
            while i < pixel_data.len()
                invariant
                    i <= pixel_data.len(),
                    rgba@ == pixel_data@.subrange(0, i as int),
                decreases pixel_data.len() - i,
            {
                rgba.push(pixel_data[i]);
                i = i + 1;
                assert(rgba@ =~= pixel_data@.subrange(0, i as int));
            }
            assert(pixel_data@.subrange(0, pixel_data@.len() as int) =~= pixel_data@);
        },
        VideoFormat::Rgb8 => {
            let n = pixel_data.len() / 3;
            let mut p: usize = 0;
            while p < n
                invariant
                    n == pixel_data@.len() / 3,
                    p <= n,
                    rgba@ == spec_rgba_prefix(format, pixel_data@, p as nat),
                    format == VideoFormat::Rgb8,
                decreases n - p,
            {
                assert(3 * p + 3 <= pixel_data.len()) by (nonlinear_arith)
                    requires
                        p < n,
                        n == pixel_data.len() / 3,
                ;
                let i = 3 * p;
                rgba.push(pixel_data[i]);
                rgba.push(pixel_data[i + 1]);
                rgba.push(pixel_data[i + 2]);
                rgba.push(255);
                proof {
                    reveal_with_fuel(spec_rgba_prefix, 2);
                }
                p = p + 1;
                assert(rgba@ =~= spec_rgba_prefix(format, pixel_data@, p as nat));
            }
        },
        VideoFormat::Rgb565 => {
            let n = pixel_data.len() / 2;
            let mut p: usize = 0;
            while p < n
                invariant
                    n == pixel_data@.len() / 2,
                    p <= n,
                    rgba@ == spec_rgba_prefix(format, pixel_data@, p as nat),
                    format == VideoFormat::Rgb565,
                decreases n - p,
            {
                assert(2 * p + 2 <= pixel_data.len()) by (nonlinear_arith)
                    requires
                        p < n,
                        n == pixel_data.len() / 2,
                ;
                let i = 2 * p;
                let v: u16 = (pixel_data[i] as u16) | ((pixel_data[i + 1] as u16) << 8u16);
                let r = ((v >> 11u16) & 0x1F) as u8;
                let g = ((v >> 5u16) & 0x3F) as u8;
                let b = (v & 0x1F) as u8;
                rgba.push((r << 3u8) | (r >> 2u8));
                rgba.push((g << 2u8) | (g >> 4u8));
                rgba.push((b << 3u8) | (b >> 2u8));
                rgba.push(255);
                p = p + 1;
                assert(rgba@ =~= spec_rgba_prefix(format, pixel_data@, p as nat));
            }
        },
        VideoFormat::R8 => {
            let n = pixel_data.len();
            let mut p: usize = 0;
            while p < n
                invariant
                    n == pixel_data@.len(),
                    p <= n,
                    rgba@ == spec_rgba_prefix(format, pixel_data@, p as nat),
                    format == VideoFormat::R8,
                decreases n - p,
            {
                let gray = pixel_data[p];
                rgba.push(gray);
                rgba.push(gray);
                rgba.push(gray);
                rgba.push(255);
                p = p + 1;
                assert(rgba@ =~= spec_rgba_prefix(format, pixel_data@, p as nat));
            }
            assert(pixel_data@.len() / 1 == pixel_data@.len()) by (nonlinear_arith);
        },
    }
    rgba
}

/// Bytes `4p .. 4p + 4` of the first `n` converted pixels are pixel `p`'s.
proof fn lemma_rgba_prefix_index(f: VideoFormat, d: Seq<u8>, n: nat, p: int, j: int)
    requires
        0 <= p < n,
        0 <= j < 4,
    ensures
        spec_rgba_prefix(f, d, n)[4 * p + j] == spec_rgba_pixel(f, d, p)[j],
    decreases n,
{
    lemma_rgba_prefix_len(f, d, (n - 1) as nat);
    if p < n - 1 {
        lemma_rgba_prefix_index(f, d, (n - 1) as nat, p, j);
    }
}

/// The channels of an RGB565 halfword given by its low byte `lo` and high
/// byte `hi`, widened to eight bits.
proof fn lemma_rgb565_widen(lo: u8, hi: u8)
    by (bit_vector)
    ensures
        ({
            let v = ((lo as u16) | ((hi as u16) << 8u16)) as u16;
            let r = ((v >> 11u16) & 0x1Fu16) as u8;
            let g = ((v >> 5u16) & 0x3Fu16) as u8;
            let b = (v & 0x1Fu16) as u8;
            let h = lo + 256 * hi;
            &&& ((r << 3u8) | (r >> 2u8)) as u8 == (h / 2048) * 8 + (h / 2048) / 4
            &&& ((g << 2u8) | (g >> 4u8)) as u8 == ((h / 32) % 64) * 4 + ((h / 32) % 64) / 16
            &&& ((b << 3u8) | (b >> 2u8)) as u8 == (h % 32) * 8 + (h % 32) / 4
        }),
{
}

/// RGB565 frames are converted channel by channel: for pixel `p`, whose
/// little-endian halfword is `h`, red is the top five bits of `h`
/// (bits 15..11), green the middle six (10..5) and blue the low five
/// (4..0), each widened to eight bits by repeating its top bits
/// (`x * 8 + x / 4` for five bits, `x * 4 + x / 16` for six), and alpha is
/// 255. For example `[0x00, 0xF8]` (pure red) becomes `[255, 0, 0, 255]`.
pub proof fn lemma_rgb565_channels(d: Seq<u8>, p: int)
    requires
        0 <= p < d.len() / 2,
    ensures
        ({
            let out = spec_to_rgba8(VideoFormat::Rgb565, d);
            let h = d[2 * p] + 256 * d[2 * p + 1];
            let red = h / 2048;
            let green = (h / 32) % 64;
            let blue = h % 32;
            &&& out.len() == 4 * (d.len() / 2)
            &&& out[4 * p] == red * 8 + red / 4
            &&& out[4 * p + 1] == green * 4 + green / 16
            &&& out[4 * p + 2] == blue * 8 + blue / 4
            &&& out[4 * p + 3] == 255
        }),
{
    let n = d.len() / 2;
    lemma_rgba_prefix_len(VideoFormat::Rgb565, d, n);
    assert(spec_bytes_per_pixel(VideoFormat::Rgb565) == 2);
    lemma_rgba_prefix_index(VideoFormat::Rgb565, d, n, p, 0);
    lemma_rgba_prefix_index(VideoFormat::Rgb565, d, n, p, 1);
    lemma_rgba_prefix_index(VideoFormat::Rgb565, d, n, p, 2);
    lemma_rgba_prefix_index(VideoFormat::Rgb565, d, n, p, 3);
    lemma_rgb565_widen(d[2 * p], d[2 * p + 1]);
}

/// Frame pacing: once a frame is recorded as stored at cycle `c`
/// ([`Video::frame_saved`]), FRAME_READY (bit 0 of VIDEO_STATUS) is clear
/// while fewer than `CPU_FREQ_HZ / fps` cycles have passed since `c` and
/// set once that many have; before `c` it is set only when that period is
/// zero cycles long.
pub proof fn lemma_frame_ready_paced_from_last_frame(s: VideoView, c: u64)
    requires
        s.target_fps > 0,
    ensures
        ({
            let saved = VideoView { last_frame_cycle: Some(c), ..s };
            let ready = spec_video_status(saved) % 2 == 1;
            &&& c <= s.current_cycle ==> (ready <==> s.current_cycle - c >= CPU_FREQ_HZ / (s.target_fps as u64))
            &&& s.current_cycle < c ==> (ready <==> CPU_FREQ_HZ / (s.target_fps as u64) == 0)
        }),
{
}

} // verus!
