//! Audio device: reads batches of 16-bit little-endian PCM samples from
//! memory by DMA and hands them to the host, with back pressure paced by
//! elapsed host time.
use crate::bus_device::{BusDevice, BusDeviceError, SystemContext};
use crate::dram::dram_byte;
use crate::memory::{byte_at, le_u16};
use crate::memory_map::{addr_offset, spec_valid_dram_range};
use vstd::prelude::*;

verus! {

/// Sample rate of an audio stream.
#[derive(Debug, Clone, Copy, PartialEq, Eq, Structural)]
pub enum AudioSampleRate {
    Hz48000,
    Hz44100,
    Hz22050,
}

/// Rate in samples per second.
pub open spec fn spec_rate_hz(r: AudioSampleRate) -> u32 {
    match r {
        AudioSampleRate::Hz48000 => 48000,
        AudioSampleRate::Hz44100 => 44100,
        AudioSampleRate::Hz22050 => 22050,
    }
}

impl AudioSampleRate {
    /// Rate in samples per second.
    pub fn to_hz(&self) -> (r: u32)
        ensures
            r == spec_rate_hz(*self),
    {
        match self {
            AudioSampleRate::Hz48000 => 48000,
            AudioSampleRate::Hz44100 => 44100,
            AudioSampleRate::Hz22050 => 22050,
        }
    }
}

/// Channel layout of an audio stream.
#[derive(Debug, Clone, Copy, PartialEq, Eq, Structural)]
pub enum AudioChannels {
    Mono,
    Stereo,
}

/// Number of channels.
pub open spec fn spec_channel_count(c: AudioChannels) -> usize {
    match c {
        AudioChannels::Mono => 1,
        AudioChannels::Stereo => 2,
    }
}

impl AudioChannels {
    /// Number of channels.
    pub fn count(&self) -> (r: usize)
        ensures
            r == spec_channel_count(*self),
    {
        match self {
            AudioChannels::Mono => 1,
            AudioChannels::Stereo => 2,
        }
    }
}

/// Audio stream configuration.
///
/// Register encoding: bits 1:0 sample rate (0 = 48000 Hz, 1 = 44100 Hz,
/// 2 = 22050 Hz; 3 is invalid), bit 2 channels (0 = mono, 1 = stereo),
/// bits 18:3 sample count minus one.
#[derive(Debug, Clone, Copy, PartialEq, Eq, Structural)]
pub struct AudioConfig {
    pub sample_rate: AudioSampleRate,
    pub channels: AudioChannels,
    /// Samples per batch (per channel), 1 to 65536.
    pub sample_count: u32,
}

/// Decoding of a configuration register value.
pub open spec fn spec_audio_config(value: u32) -> Option<AudioConfig> {
    let rate = value & 3;
    let channels = if (value >> 2u32) & 1 == 0 { AudioChannels::Mono } else { AudioChannels::Stereo };
    let sample_count = (((value >> 3u32) & 0xFFFF) + 1) as u32;
    if rate == 0 {
        Some(AudioConfig { sample_rate: AudioSampleRate::Hz48000, channels, sample_count })
    } else if rate == 1 {
        Some(AudioConfig { sample_rate: AudioSampleRate::Hz44100, channels, sample_count })
    } else if rate == 2 {
        Some(AudioConfig { sample_rate: AudioSampleRate::Hz22050, channels, sample_count })
    } else {
        None
    }
}

/// Bytes one sample (all channels) takes: two per channel.
pub open spec fn spec_bytes_per_sample(c: AudioConfig) -> u32 {
    (2 * spec_channel_count(c.channels)) as u32
}

/// Bytes a batch takes.
pub open spec fn spec_buffer_bytes(c: AudioConfig) -> int {
    c.sample_count * spec_bytes_per_sample(c)
}

impl AudioConfig {
    /// The configuration is one a register value decodes to.
    pub open spec fn well_formed(&self) -> bool {
        1 <= self.sample_count <= 65536
    }

    /// Decode a configuration register value; `None` for an invalid sample rate.
    pub fn from_register(value: u32) -> (r: Option<Self>)
        ensures
            r == spec_audio_config(value),
            r matches Some(c) ==> c.well_formed(),
    {
        let rate = value & 3;
        let channels = if (value >> 2u32) & 1 == 0 { AudioChannels::Mono } else { AudioChannels::Stereo };
        assert((value >> 3u32) & 0xFFFF <= 0xFFFF) by (bit_vector);
        let sample_count = ((value >> 3u32) & 0xFFFF) + 1;
        if rate == 0 {
            Some(AudioConfig { sample_rate: AudioSampleRate::Hz48000, channels, sample_count })
        } else if rate == 1 {
            Some(AudioConfig { sample_rate: AudioSampleRate::Hz44100, channels, sample_count })
        } else if rate == 2 {
            Some(AudioConfig { sample_rate: AudioSampleRate::Hz22050, channels, sample_count })
        } else {
            None
        }
    }

    /// Encode as a configuration register value.
    pub fn to_register(&self) -> (r: u32)
        requires
            self.well_formed(),
        ensures
            spec_audio_config(r) == Some(*self),
    {
        let rate: u32 = match self.sample_rate {
            AudioSampleRate::Hz48000 => 0,
            AudioSampleRate::Hz44100 => 1,
            AudioSampleRate::Hz22050 => 2,
        };
        let ch: u32 = match self.channels {
            AudioChannels::Mono => 0,
            AudioChannels::Stereo => 1,
        };
        let n: u32 = self.sample_count - 1;
        let r = rate | (ch << 2u32) | (n << 3u32);
        assert(r & 3 == rate && (r >> 2u32) & 1 == ch && (r >> 3u32) & 0xFFFF == n) by (bit_vector)
            requires
                rate <= 2,
                ch <= 1,
                n <= 0xFFFF,
                r == rate | (ch << 2u32) | (n << 3u32),
        ;
        r
    }

    /// Bytes one sample (all channels) takes.
    pub fn bytes_per_sample(&self) -> (r: u32)
        ensures
            r == spec_bytes_per_sample(*self),
    {
        (2 * self.channels.count()) as u32
    }

    /// Bytes a batch takes.
    pub fn buffer_bytes(&self) -> (r: u32)
        requires
            self.well_formed(),
        ensures
            r == spec_buffer_bytes(*self),
    {
        let b = self.bytes_per_sample();
        assert(self.sample_count * b <= 65536 * 4) by (nonlinear_arith)
            requires
                self.sample_count <= 65536,
                b <= 4,
        ;
        self.sample_count * b
    }
}

/// Decoding a value the encoder produced gives the configuration back.
pub proof fn lemma_audio_config_round_trip(c: AudioConfig)
    requires
        c.well_formed(),
    ensures
        exists|v: u32| #[trigger] spec_audio_config(v) == Some(c),
{
    let rate: u32 = match c.sample_rate {
        AudioSampleRate::Hz48000 => 0,
        AudioSampleRate::Hz44100 => 1,
        AudioSampleRate::Hz22050 => 2,
    };
    let ch: u32 = match c.channels {
        AudioChannels::Mono => 0,
        AudioChannels::Stereo => 1,
    };
    let n: u32 = (c.sample_count - 1) as u32;
    let v = rate | (ch << 2u32) | (n << 3u32);
    assert(v & 3 == rate && (v >> 2u32) & 1 == ch && (v >> 3u32) & 0xFFFF == n) by (bit_vector)
        requires
            rate <= 2,
            ch <= 1,
            n <= 0xFFFF,
            v == rate | (ch << 2u32) | (n << 3u32),
    ;
    assert(spec_audio_config(v) == Some(c));
}

/// Abstract state of a DMA read in progress.
pub struct AudioDmaView {
    pub current_addr: u32,
    pub bytes_remaining: u32,
    pub data: Seq<u8>,
    pub config: AudioConfig,
}

/// Abstract state of the audio device.
pub struct AudioView {
    pub audio_addr: u32,
    pub audio_config: u32,
    pub active: Option<AudioDmaView>,
    /// Samples handed to the host in the current one-second window.
    pub samples_in_window: u32,
    /// Host time (microseconds) at which the current window began.
    pub window_start: Option<u64>,
    /// Samples per second the host may be ahead by, at 48000, 44100 and
    /// 22050 Hz.
    pub limits: (u32, u32, u32),
    /// Completed sample batches waiting for the host, oldest first.
    pub batches: Seq<Seq<i16>>,
    /// Valid configurations written, waiting for the host, oldest first.
    pub config_changes: Seq<AudioConfig>,
}

/// Length of a back-pressure window in microseconds.
pub const WINDOW_US: u64 = 1_000_000;

/// Most bytes a DMA reads per clock cycle.
pub const DMA_CHUNK_BYTES: u32 = 4;

/// Samples per second allowed ahead at `rate`.
pub open spec fn spec_rate_limit(limits: (u32, u32, u32), rate: AudioSampleRate) -> u32 {
    match rate {
        AudioSampleRate::Hz48000 => limits.0,
        AudioSampleRate::Hz44100 => limits.1,
        AudioSampleRate::Hz22050 => limits.2,
    }
}

/// SAMPLE_BUFFER_READY at host time `now`: no valid configuration, or a
/// full window has passed since the current one began, or fewer samples
/// than the rate's limit were handed over in it.
pub open spec fn spec_buffer_ready(s: AudioView, now: u64) -> bool {
    match spec_audio_config(s.audio_config) {
        None => true,
        Some(c) => {
            let elapsed = match s.window_start {
                None => 0,
                Some(start) => if now >= start { (now - start) as u64 } else { 0 },
            };
            elapsed >= WINDOW_US || s.samples_in_window < spec_rate_limit(s.limits, c.sample_rate)
        },
    }
}

/// Value of AUDIO_STATUS: bit 0 DMA_READY, bit 1 SAMPLE_BUFFER_READY.
pub open spec fn spec_audio_status(s: AudioView, now: u64) -> u32 {
    ((if s.active is None { 1u32 } else { 0u32 }) + (if spec_buffer_ready(s, now) { 2u32 } else { 0u32 })) as u32
}

/// Result of a word read of register `offset` at host time `now`.
pub open spec fn spec_audio_read(s: AudioView, offset: u32, now: u64) -> Result<u32, BusDeviceError> {
    if offset == 0x00 {
        Ok(s.audio_addr)
    } else if offset == 0x04 {
        Ok(s.audio_config)
    } else if offset == 0x08 {
        Ok(spec_audio_status(s, now))
    } else if offset == 0x0C {
        Err(BusDeviceError::ReadFromWriteOnly { offset })
    } else {
        Err(BusDeviceError::InvalidAddress { offset })
    }
}

/// State after a write to AUDIO_DMA: a read of one batch from AUDIO_ADDR
/// starts unless one is running or the configuration is invalid.
pub open spec fn spec_audio_start(s: AudioView) -> AudioView {
    if s.active is Some {
        s
    } else {
        match spec_audio_config(s.audio_config) {
            None => s,
            Some(c) => AudioView {
                active: Some(
                    AudioDmaView {
                        current_addr: s.audio_addr,
                        bytes_remaining: spec_buffer_bytes(c) as u32,
                        data: Seq::empty(),
                        config: c,
                    },
                ),
                ..s
            },
        }
    }
}

/// State after a write to AUDIO_CONFIG: the window restarts, and a valid
/// configuration is queued for the host. A read in progress keeps its own.
pub open spec fn spec_config_write(s: AudioView, value: u32) -> AudioView {
    AudioView {
        audio_config: value,
        samples_in_window: 0,
        window_start: None,
        config_changes: match spec_audio_config(value) {
            Some(c) => s.config_changes.push(c),
            None => s.config_changes,
        },
        ..s
    }
}

/// Result and state after a word write of `value` to register `offset`.
pub open spec fn spec_audio_write(s: AudioView, offset: u32, value: u32) -> (
    Result<(), BusDeviceError>,
    AudioView,
) {
    if offset == 0x00 {
        (Ok(()), AudioView { audio_addr: value, ..s })
    } else if offset == 0x04 {
        (Ok(()), spec_config_write(s, value))
    } else if offset == 0x08 {
        (Err(BusDeviceError::WriteToReadOnly { offset }), s)
    } else if offset == 0x0C {
        (Ok(()), spec_audio_start(s))
    } else {
        (Err(BusDeviceError::InvalidAddress { offset }), s)
    }
}

/// The `n` signed 16-bit little-endian samples at the start of `data`.
pub open spec fn spec_decode_samples(data: Seq<u8>, n: nat) -> Seq<i16> {
    Seq::new(n, |k: int| le_u16(data[2 * k], data[2 * k + 1]) as i16)
}

/// Bytes read in one cycle when `remaining` are left.
pub open spec fn spec_chunk_len(remaining: u32) -> u32 {
    if remaining < DMA_CHUNK_BYTES { remaining } else { DMA_CHUNK_BYTES }
}

/// The `n` bytes read from memory starting at `addr` (each through the
/// DRAM check, addresses wrapping).
pub open spec fn spec_chunk(m: Map<u32, u8>, addr: u32, n: u32) -> Seq<u8> {
    Seq::new(n as nat, |i: int| dram_byte(m, addr.wrapping_add(i as u32)))
}

/// State after a batch completes at host time `now`: the samples are
/// queued, and the window restarts when a full window has passed since it
/// began (or none began yet), else the batch is counted in it.
pub open spec fn spec_complete(s: AudioView, data: Seq<u8>, config: AudioConfig, now: u64) -> AudioView {
    let n = config.sample_count;
    let elapsed = match s.window_start {
        None => u64::MAX,
        Some(start) => if now >= start { (now - start) as u64 } else { 0 },
    };
    let samples = spec_decode_samples(data, (config.sample_count * spec_channel_count(config.channels)) as nat);
    if elapsed >= WINDOW_US {
        AudioView { active: None, window_start: Some(now), samples_in_window: n, batches: s.batches.push(samples), ..s }
    } else {
        AudioView {
            active: None,
            samples_in_window: if s.samples_in_window + n > u32::MAX { u32::MAX } else { (s.samples_in_window + n) as u32 },
            batches: s.batches.push(samples),
            ..s
        }
    }
}

/// State after one clock cycle with memory `m` at host time `now`: a read
/// in progress takes up to four more bytes, and the last ones complete the
/// batch.
pub open spec fn spec_audio_step(s: AudioView, m: Map<u32, u8>, now: u64) -> AudioView {
    match s.active {
        None => s,
        Some(d) => {
            let n = spec_chunk_len(d.bytes_remaining);
            let d2 = AudioDmaView {
                current_addr: d.current_addr.wrapping_add(n),
                bytes_remaining: (d.bytes_remaining - n) as u32,
                data: d.data + spec_chunk(m, d.current_addr, n),
                config: d.config,
            };
            if d2.bytes_remaining == 0 {
                spec_complete(s, d2.data, d2.config, now)
            } else {
                AudioView { active: Some(d2), ..s }
            }
        },
    }
}

/// State after a reset: registers zero, idle, window cleared; the limits
/// and anything queued for the host are kept.
pub open spec fn spec_audio_reset(s: AudioView) -> AudioView {
    AudioView { audio_addr: 0, audio_config: 0, active: None, samples_in_window: 0, window_start: None, ..s }
}

/// A DMA read in progress.
struct ActiveDma {
    current_addr: u32,
    bytes_remaining: u32,
    sample_data: Vec<u8>,
    config: AudioConfig,
}

impl ActiveDma {
    #[verifier::type_invariant]
    spec fn inv(&self) -> bool {
        &&& self.bytes_remaining > 0
        &&& self.config.well_formed()
        &&& self.sample_data@.len() + self.bytes_remaining == spec_buffer_bytes(self.config)
    }
}

/// Device state after `k` clock cycles over memory `m`, all at host time `now`.
pub open spec fn audio_run(s: AudioView, m: Map<u32, u8>, now: u64, k: nat) -> AudioView
    decreases k,
{
    if k == 0 {
        s
    } else {
        spec_audio_step(audio_run(s, m, now, (k - 1) as nat), m, now)
    }
}

/// The `n` bytes of memory starting at `addr`.
pub open spec fn memory_bytes(m: Map<u32, u8>, addr: u32, n: int) -> Seq<u8> {
    Seq::new(n as nat, |k: int| byte_at(m, addr_offset(addr, k)))
}

/// The first `j` cycles of a batch read of `n` bytes from `addr`.
proof fn lemma_audio_run_prefix(s: AudioView, m: Map<u32, u8>, now: u64, addr: u32, n: u32, c: AudioConfig, j: nat)
    requires
        s.active == Some(AudioDmaView { current_addr: addr, bytes_remaining: n, data: Seq::empty(), config: c }),
        spec_valid_dram_range(addr, n),
        4 * (j as int) < n,
    ensures
        audio_run(s, m, now, j) == (AudioView {
            active: Some(
                AudioDmaView {
                    current_addr: addr_offset(addr, 4 * (j as int)),
                    bytes_remaining: (n - 4 * (j as int)) as u32,
                    data: memory_bytes(m, addr, 4 * (j as int)),
                    config: c,
                },
            ),
            ..s
        }),
    decreases j,
{
    if j > 0 {
        lemma_audio_run_prefix(s, m, now, addr, n, c, (j - 1) as nat);
        let a = addr_offset(addr, 4 * (j - 1));
        assert(spec_chunk(m, a, 4) =~= memory_bytes(m, addr, 4 * (j as int)).subrange(4 * (j - 1), 4 * (j as int))) by {
            assert forall|i: int| 0 <= i < 4 implies spec_chunk(m, a, 4)[i] == byte_at(m, addr_offset(addr, 4 * (j - 1) + i)) by {
                assert(spec_valid_dram_range(addr_offset(addr, 4 * (j - 1) + i), 1));
            }
        }
        assert(memory_bytes(m, addr, 4 * (j - 1)) + spec_chunk(m, a, 4) =~= memory_bytes(m, addr, 4 * (j as int)));
    } else {
        assert(memory_bytes(m, addr, 0) =~= Seq::<u8>::empty());
    }
}

/// Host time `now` lies within the back-pressure window begun at `start`:
/// less than one window length after it (or before it).
pub open spec fn spec_within_window(start: Option<u64>, now: u64) -> bool {
    match start {
        Some(st) => now < st + WINDOW_US,
        None => false,
    }
}

/// `a + b`, or `u32::MAX` when that does not fit.
pub open spec fn spec_saturating_sum(a: u32, b: u32) -> int {
    if a + b > u32::MAX { u32::MAX as int } else { a + b }
}

/// A batch read from a buffer lying in DRAM delivers exactly that buffer:
/// once started with `n` bytes to read from `addr` (four per cycle), after
/// `ceil(n / 4)` clock cycles the device is idle again and one more batch
/// is queued, holding the buffer's bytes decoded as signed 16-bit
/// little-endian samples (`sample_count` times the channel count of them).
/// The batch counts against back pressure: finished within the current
/// one-second window, its `sample_count` is added to the samples already
/// handed over in that window (saturating); otherwise a new window begins
/// at `now` holding just this batch's samples.
pub proof fn lemma_batch_delivers_buffer(s: AudioView, m: Map<u32, u8>, now: u64, addr: u32, c: AudioConfig)
    requires
        c.well_formed(),
        s.active == Some(
            AudioDmaView {
                current_addr: addr,
                bytes_remaining: spec_buffer_bytes(c) as u32,
                data: Seq::empty(),
                config: c,
            },
        ),
        spec_valid_dram_range(addr, spec_buffer_bytes(c) as u32),
    ensures
        ({
            let n = spec_buffer_bytes(c);
            let s2 = audio_run(s, m, now, ((n + 3) / 4) as nat);
            &&& s2.active is None
            &&& s2.audio_addr == s.audio_addr && s2.audio_config == s.audio_config
            &&& s2.batches == s.batches.push(
                spec_decode_samples(memory_bytes(m, addr, n), (c.sample_count * spec_channel_count(c.channels)) as nat),
            )
            &&& spec_within_window(s.window_start, now) ==> s2.window_start == s.window_start
                && s2.samples_in_window == spec_saturating_sum(s.samples_in_window, c.sample_count)
            &&& !spec_within_window(s.window_start, now) ==> s2.window_start == Some(now)
                && s2.samples_in_window == c.sample_count
        }),
{
    let n = spec_buffer_bytes(c);
    assert(n >= 2) by (nonlinear_arith)
        requires
            n == c.sample_count * spec_bytes_per_sample(c),
            c.sample_count >= 1,
            spec_bytes_per_sample(c) >= 2,
    ;
    assert(n <= 65536 * 4) by (nonlinear_arith)
        requires
            n == c.sample_count * spec_bytes_per_sample(c),
            c.sample_count <= 65536,
            spec_bytes_per_sample(c) <= 4,
    ;
    let steps = ((n + 3) / 4) as nat;
    let j = (steps - 1) as nat;
    lemma_audio_run_prefix(s, m, now, addr, n as u32, c, j);
    let r = (n - 4 * (j as int)) as u32;
    assert(1 <= r <= 4);
    let a = addr_offset(addr, 4 * (j as int));
    assert(spec_chunk(m, a, r) =~= memory_bytes(m, addr, n).subrange(4 * (j as int), n)) by {
        assert forall|i: int| 0 <= i < r implies spec_chunk(m, a, r)[i] == byte_at(m, addr_offset(addr, 4 * (j as int) + i)) by {
            assert(spec_valid_dram_range(addr_offset(addr, 4 * (j as int) + i), 1));
        }
    }
    assert(memory_bytes(m, addr, 4 * (j as int)) + spec_chunk(m, a, r) =~= memory_bytes(m, addr, n));
}

/// Audio device.
///
/// Register map (word access only):
/// - 0x00 AUDIO_ADDR: buffer address (read/write)
/// - 0x04 AUDIO_CONFIG: stream configuration, see [`AudioConfig`] (read/write)
/// - 0x08 AUDIO_STATUS (read-only): bit 0 DMA_READY, bit 1 SAMPLE_BUFFER_READY
/// - 0x0C AUDIO_DMA (write-only): any write starts reading one batch
///
/// A batch is read up to four bytes per clock cycle; when complete its
/// samples are queued for the host ([`Audio::take_sample_batch`]). Every
/// valid configuration written is queued too ([`Audio::take_config_change`]).
/// Back pressure: SAMPLE_BUFFER_READY clears once the samples handed over
/// within one second of host time reach the configured rate's limit.
pub struct Audio {
    audio_addr: u32,
    audio_config: u32,
    active_dma: Option<ActiveDma>,
    samples_in_current_window: u32,
    window_start_time_us: Option<u64>,
    rate_limits: (u32, u32, u32),
    sample_batches: Vec<Vec<i16>>,
    config_changes: Vec<AudioConfig>,
}

impl View for Audio {
    type V = AudioView;

    closed spec fn view(&self) -> AudioView {
        AudioView {
            audio_addr: self.audio_addr,
            audio_config: self.audio_config,
            active: match self.active_dma {
                None => None,
                Some(d) => Some(
                    AudioDmaView {
                        current_addr: d.current_addr,
                        bytes_remaining: d.bytes_remaining,
                        data: d.sample_data@,
                        config: d.config,
                    },
                ),
            },
            samples_in_window: self.samples_in_current_window,
            window_start: self.window_start_time_us,
            limits: self.rate_limits,
            batches: self.sample_batches@.map_values(|b: Vec<i16>| b@),
            config_changes: self.config_changes@,
        }
    }
}

/// A new device with the given limits: registers zero, idle, nothing queued.
pub open spec fn spec_audio_initial(limits: (u32, u32, u32)) -> AudioView {
    AudioView {
        audio_addr: 0,
        audio_config: 0,
        active: None,
        samples_in_window: 0,
        window_start: None,
        limits,
        batches: Seq::empty(),
        config_changes: Seq::empty(),
    }
}

/// Decode the first `n` samples of `data`.
fn decode_samples(data: &Vec<u8>, n: usize) -> (r: Vec<i16>)
    requires
        2 * n <= data@.len(),
    ensures
        r@ == spec_decode_samples(data@, n as nat),
{
    let len = data.len();
    let mut out: Vec<i16> = Vec::new();
    let mut k: usize = 0;
    while k < n
        invariant
            k <= n,
            len == data@.len(),
            2 * n <= data@.len(),
            out@ =~= spec_decode_samples(data@, k as nat),
        decreases n - k,
    {
        let lo = data[2 * k];
        let hi = data[2 * k + 1];
        let v: u16 = (lo as u16) | ((hi as u16) << 8u16);
        out.push(v as i16);
        k = k + 1;
        assert(out@ =~= spec_decode_samples(data@, k as nat));
    }
    out
}

impl Audio {
    /// Create a device whose host may be ahead by twice the sample rate.
    pub fn new() -> (a: Self)
        ensures
            a@ == spec_audio_initial((96000u32, 88200u32, 44100u32)),
    {
        Self::with_rate_limits(96000, 88200, 44100)
    }

    /// Create a device whose host may be ahead by the given numbers of
    /// samples per second at 48000, 44100 and 22050 Hz.
    pub fn with_rate_limits(limit_48000: u32, limit_44100: u32, limit_22050: u32) -> (a: Self)
        ensures
            a@ == spec_audio_initial((limit_48000, limit_44100, limit_22050)),
    {
        let a = Audio {
            audio_addr: 0,
            audio_config: 0,
            active_dma: None,
            samples_in_current_window: 0,
            window_start_time_us: None,
            rate_limits: (limit_48000, limit_44100, limit_22050),
            sample_batches: Vec::new(),
            config_changes: Vec::new(),
        };
        assert(a@.batches =~= Seq::<Seq<i16>>::empty());
        a
    }

    /// Whether a DMA read is in progress.
    pub fn is_dma_active(&self) -> (r: bool)
        ensures
            r == self@.active is Some,
    {
        self.active_dma.is_some()
    }

    /// SAMPLE_BUFFER_READY at host time `current_time_us`.
    fn is_sample_buffer_ready(&self, current_time_us: u64) -> (r: bool)
        ensures
            r == spec_buffer_ready(self@, current_time_us),
    {
        let config = match AudioConfig::from_register(self.audio_config) {
            Some(c) => c,
            None => return true,
        };
        let window_elapsed: u64 = match self.window_start_time_us {
            None => 0,
            Some(start) => current_time_us.saturating_sub(start),
        };
        if window_elapsed >= WINDOW_US {
            return true;
        }
        let limit = match config.sample_rate {
            AudioSampleRate::Hz48000 => self.rate_limits.0,
            AudioSampleRate::Hz44100 => self.rate_limits.1,
            AudioSampleRate::Hz22050 => self.rate_limits.2,
        };
        self.samples_in_current_window < limit
    }

    /// Start reading one batch from the configured registers.
    pub fn start_dma(&mut self)
        ensures
            final(self)@ == spec_audio_start(old(self)@),
    {
        if self.is_dma_active() {
            return;
        }
        let config = match AudioConfig::from_register(self.audio_config) {
            Some(c) => c,
            None => return,
        };
        let total_bytes = config.buffer_bytes();
        assert(total_bytes > 0) by (nonlinear_arith)
            requires
                total_bytes == config.sample_count * spec_bytes_per_sample(config),
                config.sample_count >= 1,
                spec_bytes_per_sample(config) >= 2,
        ;
        let d = ActiveDma { current_addr: self.audio_addr, bytes_remaining: total_bytes, sample_data: Vec::new(), config };
        assert(d.sample_data@ =~= Seq::<u8>::empty());
        self.active_dma = Some(d);
    }

    /// Handle a write of AUDIO_CONFIG.
    fn handle_config_write(&mut self, new_config: u32)
        ensures
            final(self)@ == spec_config_write(old(self)@, new_config),
    {
        self.audio_config = new_config;
        self.samples_in_current_window = 0;
        self.window_start_time_us = None;
        if let Some(config) = AudioConfig::from_register(new_config) {
            self.config_changes.push(config);
        }
    }

    /// Queue the samples of a completed batch and account for them.
    fn complete_batch(&mut self, sample_data: Vec<u8>, config: AudioConfig, current_time_us: u64)
        requires
            old(self)@.active is None,
            config.well_formed(),
            sample_data@.len() == spec_buffer_bytes(config),
        ensures
            final(self)@ == spec_complete(old(self)@, sample_data@, config, current_time_us),
    {
        let channel_count = config.channels.count();
        let sample_count = config.sample_count;
        assert(sample_count * channel_count <= 65536 * 2) by (nonlinear_arith)
            requires
                sample_count <= 65536,
                channel_count <= 2,
        ;
        let n: usize = sample_count as usize * channel_count;
        assert(2 * n == sample_data@.len()) by (nonlinear_arith)
            requires
                n == sample_count * channel_count,
                sample_data@.len() == sample_count * (2 * channel_count),
        ;
        let samples = decode_samples(&sample_data, n);
        let window_elapsed: u64 = match self.window_start_time_us {
            None => u64::MAX,
            Some(start) => current_time_us.saturating_sub(start),
        };
        if window_elapsed >= WINDOW_US {
            self.window_start_time_us = Some(current_time_us);
            self.samples_in_current_window = sample_count;
        } else {
            self.samples_in_current_window = self.samples_in_current_window.saturating_add(sample_count);
        }
        let ghost sv = samples@;
        self.sample_batches.push(samples);
        proof {
            assert(self@.batches =~= old(self)@.batches.push(sv));
        }
    }

    /// Read the next chunk of a DMA in progress, completing the batch when
    /// the last byte is read.
    fn dma_chunk(&mut self, ctx: &mut SystemContext)
        ensures
            final(self)@ == spec_audio_step(old(self)@, old(ctx).mem(), old(ctx).elapsed()),
            final(ctx).mem() == old(ctx).mem(),
            final(ctx).elapsed() == old(ctx).elapsed(),
            *final(final(ctx).memory) == *final(old(ctx).memory),
    {
        let d = match self.active_dma.take() {
            Some(d) => d,
            None => return,
        };
        proof {
            use_type_invariant(&d);
        }
        let ActiveDma { current_addr, bytes_remaining, mut sample_data, config } = d;
        let n: u32 = if bytes_remaining < DMA_CHUNK_BYTES { bytes_remaining } else { DMA_CHUNK_BYTES };
        let ghost before = sample_data@;
        let mut i: u32 = 0;
        while i < n
            invariant
                i <= n,
                sample_data@ == before + spec_chunk(ctx.mem(), current_addr, i),
                ctx.mem() == old(ctx).mem(),
            decreases n - i,
        {
            let byte = ctx.read_byte(current_addr.wrapping_add(i));
            sample_data.push(byte);
            i = i + 1;
            assert(sample_data@ =~= before + spec_chunk(ctx.mem(), current_addr, i));
        }
        if bytes_remaining - n == 0 {
            let now = ctx.elapsed_time_us();
            self.complete_batch(sample_data, config, now);
        } else {
            self.active_dma = Some(
                ActiveDma {
                    current_addr: current_addr.wrapping_add(n),
                    bytes_remaining: bytes_remaining - n,
                    sample_data,
                    config,
                },
            );
        }
    }

    /// Remove and return the oldest completed sample batch, if any.
    pub fn take_sample_batch(&mut self) -> (r: Option<Vec<i16>>)
        ensures
            (match r {
                None => old(self)@.batches.len() == 0 && final(self)@ == old(self)@,
                Some(b) => {
                    &&& old(self)@.batches.len() > 0
                    &&& b@ == old(self)@.batches[0]
                    &&& final(self)@ == (AudioView { batches: old(self)@.batches.drop_first(), ..old(self)@ })
                },
            }),
    {
        if self.sample_batches.len() == 0 {
            return None;
        }
        let b = self.sample_batches.remove(0);
        proof {
            assert(self@.batches =~= old(self)@.batches.drop_first());
        }
        Some(b)
    }

    /// Remove and return the oldest configuration change, if any.
    pub fn take_config_change(&mut self) -> (r: Option<AudioConfig>)
        ensures
            (match r {
                None => old(self)@.config_changes.len() == 0 && final(self)@ == old(self)@,
                Some(c) => {
                    &&& old(self)@.config_changes.len() > 0
                    &&& c == old(self)@.config_changes[0]
                    &&& final(self)@ == (AudioView { config_changes: old(self)@.config_changes.drop_first(), ..old(self)@ })
                },
            }),
    {
        if self.config_changes.len() == 0 {
            return None;
        }
        let c = self.config_changes.remove(0);
        proof {
            assert(self@.config_changes =~= old(self)@.config_changes.drop_first());
            assert(self@.batches =~= old(self)@.batches);
        }
        Some(c)
    }
}

impl Default for Audio {
    fn default() -> (a: Self)
        ensures
            a@ == spec_audio_initial((96000u32, 88200u32, 44100u32)),
    {
        Self::new()
    }
}

impl BusDevice for Audio {
    fn read_word(&mut self, ctx: &mut SystemContext, offset: u32) -> (r: Result<
        u32,
        BusDeviceError,
    >)
        ensures
            r == spec_audio_read(old(self)@, offset, old(ctx).elapsed()),
            final(self)@ == old(self)@,
            final(ctx).mem() == old(ctx).mem(),
    {
        match offset {
            0x00 => Ok(self.audio_addr),
            0x04 => Ok(self.audio_config),
            0x08 => {
                let dma_ready: u32 = if !self.is_dma_active() { 1 } else { 0 };
                let buffer_ready: u32 = if self.is_sample_buffer_ready(ctx.elapsed_time_us()) { 2 } else { 0 };
                Ok(dma_ready + buffer_ready)
            },
            0x0C => Err(BusDeviceError::ReadFromWriteOnly { offset }),
            _ => Err(BusDeviceError::InvalidAddress { offset }),
        }
    }

    fn write_word(&mut self, ctx: &mut SystemContext, offset: u32, value: u32) -> (r: Result<
        (),
        BusDeviceError,
    >)
        ensures
            (r, final(self)@) == spec_audio_write(old(self)@, offset, value),
            final(ctx).mem() == old(ctx).mem(),
    {
        match offset {
            0x00 => {
                self.audio_addr = value;
                Ok(())
            },
            0x04 => {
                self.handle_config_write(value);
                Ok(())
            },
            0x08 => Err(BusDeviceError::WriteToReadOnly { offset }),
            0x0C => {
                self.start_dma();
                Ok(())
            },
            _ => Err(BusDeviceError::InvalidAddress { offset }),
        }
    }

    open spec fn spec_size(&self) -> u32 {
        16
    }

    fn size(&self) -> (r: u32)
        ensures
            r == 16,
    {
        16
    }

    fn name(&self) -> (r: &str)
        ensures
            r@ == "Audio"@,
    {
        "Audio"
    }

    fn reset(&mut self, ctx: &mut SystemContext)
        ensures
            final(self)@ == spec_audio_reset(old(self)@),
            final(ctx).mem() == old(ctx).mem(),
    {
        self.audio_addr = 0;
        self.audio_config = 0;
        self.active_dma = None;
        self.samples_in_current_window = 0;
        self.window_start_time_us = None;
    }

    fn clock_cycle(&mut self, ctx: &mut SystemContext)
        ensures
            final(self)@ == spec_audio_step(old(self)@, old(ctx).mem(), old(ctx).elapsed()),
            final(ctx).mem() == old(ctx).mem(),
    {
        self.dma_chunk(ctx);
    }
}

} // verus!
