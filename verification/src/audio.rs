//! Recordings: their samples, the peaks that draw them, and how one is put together from
//! what a decoder delivers.

use vstd::prelude::*;

use crate::number::{push_decimal, push_three_digits, push_two_digits};
use crate::number::{decimal, zero_padded};
use crate::sample::is_a_number;
use crate::sample::{is_number, HIGHEST, LOWEST};
use crate::text::prefixed;

verus! {

/// Number of frames aggregated into one waveform peak bin.
pub const PEAK_BIN: usize = 512;

/// A recording.
pub struct AudioData {
    /// The name of the file it was read from.
    pub name: String,
    /// Interleaved samples, by rank.
    pub samples: Vec<i32>,
    pub channels: usize,
    pub sample_rate: u32,
    pub bits_per_sample: u32,
    /// Per channel: (min, max) per PEAK_BIN frames, by rank.
    pub peaks: Vec<Vec<(i32, i32)>>,
}

/// The number of whole frames in a number of interleaved samples.
pub open spec fn frame_count(samples: nat, channels: nat) -> nat {
    if channels == 0 {
        0
    } else {
        samples / channels
    }
}

/// The number of peak bins for a number of frames; the last one may be partly filled.
pub open spec fn bin_count(frames: nat) -> nat {
    (frames + PEAK_BIN - 1) as nat / PEAK_BIN as nat
}

/// The first frame after a peak bin.
pub open spec fn bin_end(bin: int, frames: nat) -> int {
    if (bin + 1) * PEAK_BIN <= frames {
        (bin + 1) * PEAK_BIN
    } else {
        frames as int
    }
}

/// The sample of a channel at a frame.
pub open spec fn sample_at(samples: Seq<i32>, channels: nat, ch: int, frame: int) -> i32 {
    samples[frame * channels + ch]
}

/// Whether `frame` lies in a stretch and holds the number `level` on a channel.
pub open spec fn reaches(
    samples: Seq<i32>,
    channels: nat,
    ch: int,
    from: int,
    to: int,
    level: i32,
    frame: int,
) -> bool {
    from <= frame < to && sample_at(samples, channels, ch, frame) == level && is_number(level)
}

/// Whether `low` and `high` are the least and the greatest number on a channel in the
/// frames `from..to`, the finite range taken for what has no lesser or greater one.
pub open spec fn are_extremes(
    samples: Seq<i32>,
    channels: nat,
    ch: int,
    from: int,
    to: int,
    low: i32,
    high: i32,
) -> bool {
    &&& low <= HIGHEST
    &&& high >= LOWEST
    &&& forall|f: int|
        from <= f < to && is_number(#[trigger] sample_at(samples, channels, ch, f)) ==> low
            <= sample_at(samples, channels, ch, f) <= high
    &&& low < HIGHEST ==> exists|f: int| #[trigger]
        reaches(samples, channels, ch, from, to, low, f)
    &&& high > LOWEST ==> exists|f: int| #[trigger]
        reaches(samples, channels, ch, from, to, high, f)
}

/// Whether `peaks` hold the extremes of the bins of one channel.
pub open spec fn are_channel_peaks(
    samples: Seq<i32>,
    channels: nat,
    ch: int,
    peaks: Seq<(i32, i32)>,
) -> bool {
    let frames = frame_count(samples.len(), channels);
    &&& peaks.len() == bin_count(frames)
    &&& forall|b: int|
        0 <= b < peaks.len() ==> are_extremes(
            samples,
            channels,
            ch,
            b * PEAK_BIN,
            bin_end(b, frames),
            (#[trigger] peaks[b]).0,
            peaks[b].1,
        )
}

impl AudioData {
    /// Whether there is a channel and the peaks are those of the samples.
    pub open spec fn wf(&self) -> bool {
        &&& self.channels > 0
        &&& self.peaks@.len() == self.channels
        &&& forall|ch: int|
            0 <= ch < self.channels ==> are_channel_peaks(
                self.samples@,
                self.channels as nat,
                ch,
                (#[trigger] self.peaks@[ch])@,
            )
    }

    /// The number of frames.
    pub open spec fn frames_spec(&self) -> nat {
        frame_count(self.samples@.len(), self.channels as nat)
    }

    /// The number of frames.
    pub fn frames(&self) -> (r: usize)
        ensures
            r == self.frames_spec(),
    {
        if self.channels == 0 {
            0
        } else {
            self.samples.len() / self.channels
        }
    }

    /// The name of the file that the recording was read from.
    pub fn file_name(&self) -> (r: String)
        ensures
            r@ == self.name@,
    {
        self.name.clone()
    }

    /// A recording, with the peaks of its samples.
    pub fn new(
        name: String,
        samples: Vec<i32>,
        channels: usize,
        sample_rate: u32,
        bits_per_sample: u32,
    ) -> (r: AudioData)
        requires
            channels > 0,
        ensures
            r.wf(),
            r.name@ == name@,
            r.samples@ == samples@,
            r.channels == channels,
            r.sample_rate == sample_rate,
            r.bits_per_sample == bits_per_sample,
    {
        let peaks = compute_peaks(samples.as_slice(), channels);
        AudioData { name, samples, channels, sample_rate, bits_per_sample, peaks }
    }
}

proof fn lemma_sample_index(samples: nat, channels: nat, ch: int, frame: int)
    requires
        0 <= ch < channels,
        0 <= frame < frame_count(samples, channels),
    ensures
        0 <= frame * channels + ch < samples,
        0 <= frame * channels,
{
    let frames = samples / channels;
    assert(0 <= frame * channels && frame * channels + channels <= frames * channels)
        by (nonlinear_arith)
        requires
            0 <= frame < frames,
            channels > 0,
    ;
    vstd::arithmetic::div_mod::lemma_fundamental_div_mod(samples as int, channels as int);
    assert(frames * channels <= samples) by (nonlinear_arith)
        requires
            samples == channels * frames + samples % channels,
            samples % channels >= 0,
            frames == samples / channels,
            channels > 0,
    ;
}

/// The extremes of a channel in the frames `from..to`.
pub fn extremes(samples: &[i32], channels: usize, ch: usize, from: usize, to: usize) -> (r: (
    i32,
    i32,
))
    requires
        ch < channels,
        to <= frame_count(samples@.len(), channels as nat),
    ensures
        are_extremes(samples@, channels as nat, ch as int, from as int, to as int, r.0, r.1),
{
    let len: usize = samples.len();
    let mut low: i32 = HIGHEST;
    let mut high: i32 = LOWEST;
    let mut f: usize = from;
    while f < to
        invariant
            from <= f,
            f <= to || (f == from && low == HIGHEST && high == LOWEST),
            len == samples@.len(),
            ch < channels,
            to <= frame_count(samples@.len(), channels as nat),
            are_extremes(samples@, channels as nat, ch as int, from as int, f as int, low, high),
        decreases to - f,
    {
        proof {
            lemma_sample_index(samples@.len(), channels as nat, ch as int, f as int);
        }
        let ghost (low0, high0) = (low, high);
        let s: i32 = samples[f * channels + ch];
        assert(s == sample_at(samples@, channels as nat, ch as int, f as int));
        if is_a_number(s) {
            if s < low {
                low = s;
            }
            if s > high {
                high = s;
            }
        }
        proof {
            lemma_extend(samples@, channels as nat, ch as int, from as int, f as int, low0, high0, low, high);
        }
        f = f + 1;
    }
    (low, high)
}

proof fn lemma_extend(
    samples: Seq<i32>,
    channels: nat,
    ch: int,
    from: int,
    f: int,
    low0: i32,
    high0: i32,
    low: i32,
    high: i32,
)
    requires
        from <= f,
        are_extremes(samples, channels, ch, from, f, low0, high0),
        ({
            let s = sample_at(samples, channels, ch, f);
            &&& low == if is_number(s) && s < low0 { s } else { low0 }
            &&& high == if is_number(s) && s > high0 { s } else { high0 }
        }),
    ensures
        are_extremes(samples, channels, ch, from, f + 1, low, high),
{
    let s = sample_at(samples, channels, ch, f);
    if low < HIGHEST {
        if low == low0 {
            let w = choose|w: int| #[trigger] reaches(samples, channels, ch, from, f, low0, w);
            assert(reaches(samples, channels, ch, from, f + 1, low, w));
        } else {
            assert(reaches(samples, channels, ch, from, f + 1, low, f));
        }
    }
    if high > LOWEST {
        if high == high0 {
            let w = choose|w: int| #[trigger] reaches(samples, channels, ch, from, f, high0, w);
            assert(reaches(samples, channels, ch, from, f + 1, high, w));
        } else {
            assert(reaches(samples, channels, ch, from, f + 1, high, f));
        }
    }
}

/// The extremes of two adjoining stretches give those of both.
pub proof fn lemma_join_extremes(
    samples: Seq<i32>,
    channels: nat,
    ch: int,
    from: int,
    mid: int,
    to: int,
    a: (i32, i32),
    b: (i32, i32),
)
    requires
        from <= mid <= to,
        are_extremes(samples, channels, ch, from, mid, a.0, a.1),
        are_extremes(samples, channels, ch, mid, to, b.0, b.1),
    ensures
        are_extremes(
            samples,
            channels,
            ch,
            from,
            to,
            if b.0 < a.0 {
                b.0
            } else {
                a.0
            },
            if b.1 > a.1 {
                b.1
            } else {
                a.1
            },
        ),
{
    let low = if b.0 < a.0 {
        b.0
    } else {
        a.0
    };
    let high = if b.1 > a.1 {
        b.1
    } else {
        a.1
    };
    if low < HIGHEST {
        if b.0 < a.0 {
            let w = choose|w: int| #[trigger] reaches(samples, channels, ch, mid, to, b.0, w);
            assert(reaches(samples, channels, ch, from, to, low, w));
        } else {
            let w = choose|w: int| #[trigger] reaches(samples, channels, ch, from, mid, a.0, w);
            assert(reaches(samples, channels, ch, from, to, low, w));
        }
    }
    if high > LOWEST {
        if b.1 > a.1 {
            let w = choose|w: int| #[trigger] reaches(samples, channels, ch, mid, to, b.1, w);
            assert(reaches(samples, channels, ch, from, to, high, w));
        } else {
            let w = choose|w: int| #[trigger] reaches(samples, channels, ch, from, mid, a.1, w);
            assert(reaches(samples, channels, ch, from, to, high, w));
        }
    }
}

fn channel_peaks(samples: &[i32], channels: usize, ch: usize) -> (r: Vec<(i32, i32)>)
    requires
        ch < channels,
    ensures
        are_channel_peaks(samples@, channels as nat, ch as int, r@),
{
    let frames: usize = samples.len() / channels;
    let mut peaks: Vec<(i32, i32)> = Vec::new();
    let mut start: usize = 0;
    while start < frames
        invariant
            ch < channels,
            frames == frame_count(samples@.len(), channels as nat),
            start == if peaks@.len() * PEAK_BIN <= frames {
                (peaks@.len() * PEAK_BIN) as int
            } else {
                frames as int
            },
            start == frames || start == peaks@.len() * PEAK_BIN,
            peaks@.len() <= bin_count(frames as nat),
            start == frames ==> peaks@.len() == bin_count(frames as nat),
            forall|b: int|
                0 <= b < peaks@.len() ==> are_extremes(
                    samples@,
                    channels as nat,
                    ch as int,
                    b * PEAK_BIN,
                    bin_end(b, frames as nat),
                    (#[trigger] peaks@[b]).0,
                    peaks@[b].1,
                ),
        decreases frames - start,
    {
        let end: usize = if frames - start > PEAK_BIN {
            start + PEAK_BIN
        } else {
            frames
        };
        assert(end == bin_end(peaks@.len() as int, frames as nat));
        peaks.push(extremes(samples, channels, ch, start, end));
        start = end;
    }
    peaks
}

/// The peaks of all channels.
pub fn compute_peaks(samples: &[i32], channels: usize) -> (r: Vec<Vec<(i32, i32)>>)
    requires
        channels > 0,
    ensures
        r@.len() == channels,
        forall|ch: int|
            0 <= ch < channels ==> are_channel_peaks(
                samples@,
                channels as nat,
                ch,
                (#[trigger] r@[ch])@,
            ),
{
    let mut peaks: Vec<Vec<(i32, i32)>> = Vec::new();
    let mut ch: usize = 0;
    while ch < channels
        invariant
            ch <= channels,
            peaks@.len() == ch,
            forall|c: int|
                0 <= c < ch ==> are_channel_peaks(
                    samples@,
                    channels as nat,
                    c,
                    (#[trigger] peaks@[c])@,
                ),
        decreases channels - ch,
    {
        peaks.push(channel_peaks(samples, channels, ch));
        ch = ch + 1;
    }
    peaks
}

/// A time: hours only where there are any, and milliseconds.
pub open spec fn time_text(secs: nat, ms: nat) -> Seq<char> {
    let minutes_on = zero_padded(secs / 60 % 60, 2) + ":"@ + zero_padded(secs % 60, 2) + "."@
        + zero_padded(ms, 3);
    if secs / 3600 > 0 {
        decimal(secs / 3600) + ":"@ + minutes_on
    } else {
        minutes_on
    }
}

/// A time of whole seconds and milliseconds as text.
pub fn format_time(secs: u64, ms: u64) -> (r: String)
    ensures
        r@ == time_text(secs as nat, ms as nat),
{
    let h: u64 = secs / 3600;
    let m: u64 = secs / 60 % 60;
    let s: u64 = secs % 60;
    let mut out = String::new();
    if h > 0 {
        push_decimal(&mut out, h);
        out.append(":");
    }
    push_two_digits(&mut out, m);
    out.append(":");
    push_two_digits(&mut out, s);
    out.append(".");
    push_three_digits(&mut out, ms);
    assert(out@ =~= time_text(secs as nat, ms as nat));
    out
}

/// What a container says of the track to decode.
pub struct TrackInfo {
    pub id: u32,
    pub sample_rate: Option<u32>,
    pub channels: Option<usize>,
    pub bits_per_sample: Option<u32>,
}

/// What came of reading the next packet.
pub enum Packet {
    /// A packet of the track with this id.
    Data { track_id: u32 },
    EndOfFile,
    /// The list of tracks changed.
    ResetRequired,
    Failed(String),
}

/// What to do after a packet was read.
pub enum Step {
    /// Decode the packet.
    Decode,
    /// Read the next packet.
    Skip,
    /// Stop reading: everything is there.
    Done,
    /// Give up.
    Fail(String),
}

/// What came of decoding a packet.
pub enum Decoded {
    /// Interleaved samples, by rank.
    Samples(Vec<i32>),
    /// The packet is damaged.
    Corrupt,
    Failed(String),
}

/// A recording that is being read.
pub struct Loader {
    pub track_id: u32,
    pub sample_rate: u32,
    pub channels: usize,
    pub bits_per_sample: u32,
    pub samples: Vec<i32>,
}

/// The bits per sample of a track that does not say.
pub const DEFAULT_BITS: u32 = 16;

impl Loader {
    /// Why a track cannot be read.
    pub open spec fn refusal(track: Option<TrackInfo>) -> Option<Seq<char>> {
        match track {
            None => Some("No audio track found"@),
            Some(t) => if t.sample_rate is None {
                Some("Unknown sample rate"@)
            } else if t.channels is None {
                Some("Unknown channel layout"@)
            } else {
                None
            },
        }
    }

    /// Starts to read the default track of a container.
    pub fn new(track: Option<TrackInfo>) -> (r: Result<Loader, String>)
        ensures
            match r {
                Ok(loader) => {
                    &&& Loader::refusal(track) is None
                    &&& loader.track_id == track->0.id
                    &&& Some(loader.sample_rate) == track->0.sample_rate
                    &&& Some(loader.channels) == track->0.channels
                    &&& loader.bits_per_sample == match track->0.bits_per_sample {
                        Some(bits) => bits,
                        None => DEFAULT_BITS,
                    }
                    &&& loader.samples@ == Seq::<i32>::empty()
                },
                Err(e) => Loader::refusal(track) == Some(e@),
            },
    {
        let track = match track {
            Some(track) => track,
            None => return Err("No audio track found".to_string()),
        };
        let sample_rate = match track.sample_rate {
            Some(sample_rate) => sample_rate,
            None => return Err("Unknown sample rate".to_string()),
        };
        let channels = match track.channels {
            Some(channels) => channels,
            None => return Err("Unknown channel layout".to_string()),
        };
        let bits_per_sample = match track.bits_per_sample {
            Some(bits) => bits,
            None => DEFAULT_BITS,
        };
        Ok(
            Loader {
                track_id: track.id,
                sample_rate,
                channels,
                bits_per_sample,
                samples: Vec::new(),
            },
        )
    }

    /// Decides what to do with what was read. Packets of other tracks are passed over.
    pub fn on_packet(&self, packet: Packet) -> (r: Step)
        ensures
            match packet {
                Packet::Data { track_id } => if track_id == self.track_id {
                    r is Decode
                } else {
                    r is Skip
                },
                Packet::EndOfFile => r is Done,
                Packet::ResetRequired => r is Done,
                Packet::Failed(e) => r is Fail && r->Fail_0@ == "Read error: "@ + e@,
            },
    {
        match packet {
            Packet::Data { track_id } => {
                if track_id == self.track_id {
                    Step::Decode
                } else {
                    Step::Skip
                }
            },
            Packet::EndOfFile => Step::Done,
            Packet::ResetRequired => Step::Done,
            Packet::Failed(e) => Step::Fail(prefixed("Read error: ", e.as_str())),
        }
    }

    /// Takes in what was decoded. Damaged packets are passed over.
    pub fn on_decoded(&mut self, decoded: Decoded) -> (r: Result<(), String>)
        ensures
            match decoded {
                Decoded::Samples(samples) => {
                    &&& r is Ok
                    &&& final(self).samples@ == old(self).samples@ + samples@
                },
                Decoded::Corrupt => r is Ok && final(self).samples@ == old(self).samples@,
                Decoded::Failed(e) => {
                    &&& r is Err
                    &&& r->Err_0@ == "Decode error: "@ + e@
                    &&& final(self).samples@ == old(self).samples@
                },
            },
            final(self).track_id == old(self).track_id,
            final(self).sample_rate == old(self).sample_rate,
            final(self).channels == old(self).channels,
            final(self).bits_per_sample == old(self).bits_per_sample,
    {
        match decoded {
            Decoded::Samples(samples) => {
                let mut samples = samples;
                self.samples.append(&mut samples);
                Ok(())
            },
            Decoded::Corrupt => Ok(()),
            Decoded::Failed(e) => Err(prefixed("Decode error: ", e.as_str())),
        }
    }

    /// The recording, once everything was read; there is none without samples.
    pub fn finish(self, name: String) -> (r: Result<AudioData, String>)
        requires
            self.channels > 0 || self.samples@.len() == 0,
        ensures
            match r {
                Ok(audio) => {
                    &&& self.samples@.len() > 0
                    &&& audio.wf()
                    &&& audio.name@ == name@
                    &&& audio.samples@ == self.samples@
                    &&& audio.channels == self.channels
                    &&& audio.sample_rate == self.sample_rate
                    &&& audio.bits_per_sample == self.bits_per_sample
                },
                Err(e) => self.samples@.len() == 0 && e@ == "File contains no audio"@,
            },
    {
        if self.samples.len() == 0 {
            return Err("File contains no audio".to_string());
        }
        Ok(
            AudioData::new(
                name,
                self.samples,
                self.channels,
                self.sample_rate,
                self.bits_per_sample,
            ),
        )
    }
}

/// The peaks of a channel hold each of its samples: that of a frame lies between the two of the
/// 512 frames it belongs to, unless it is no number.
pub proof fn peaks_hold_samples(audio: AudioData, ch: int, frame: int)
    requires
        audio.wf(),
        0 <= ch < audio.channels,
        0 <= frame < audio.frames_spec(),
        is_number(audio.samples@[frame * audio.channels + ch]),
    ensures
        audio.peaks@.len() == audio.channels,
        frame / 512 < audio.peaks@[ch]@.len(),
        audio.peaks@[ch]@[frame / 512].0 <= audio.samples@[frame * audio.channels + ch],
        audio.samples@[frame * audio.channels + ch] <= audio.peaks@[ch]@[frame / 512].1,
{
    let c = audio.channels as nat;
    let b = frame / 512;
    let frames = audio.frames_spec();
    let peaks = audio.peaks@[ch]@;
    assert(are_channel_peaks(audio.samples@, c, ch, peaks));
    assert(b < bin_count(frames));
    assert(b * PEAK_BIN <= frame < bin_end(b, frames));
    assert(are_extremes(audio.samples@, c, ch, b * PEAK_BIN, bin_end(b, frames), peaks[b].0, peaks[b].1));
    assert(sample_at(audio.samples@, c, ch, frame) == audio.samples@[frame * audio.channels + ch]);
}

/// There are no more peaks than it takes to hold all frames.
pub proof fn peaks_are_as_many_as_needed(frames: nat)
    ensures
        bin_count(frames) * 512 >= frames,
        frames > 0 ==> (bin_count(frames) - 1) * 512 < frames,
        frames == 0 ==> bin_count(frames) == 0,
{
}

/// Extremes are reached: where a channel has a finite number in a stretch, the least and the
/// greatest are numbers of that stretch, and no other lies beyond them.
pub proof fn extremes_are_of_the_stretch(
    samples: Seq<i32>,
    channels: nat,
    ch: int,
    from: int,
    to: int,
    low: i32,
    high: i32,
    frame: int,
)
    requires
        are_extremes(samples, channels, ch, from, to, low, high),
        from <= frame < to,
        LOWEST <= samples[frame * channels + ch] <= HIGHEST,
    ensures
        low <= samples[frame * channels + ch] <= high,
        exists|f: int| from <= f < to && low == #[trigger] samples[f * channels + ch],
        exists|f: int| from <= f < to && high == #[trigger] samples[f * channels + ch],
{
    let s = sample_at(samples, channels, ch, frame);
    assert(is_number(s));
    if low < HIGHEST {
        let w = choose|w: int| #[trigger] reaches(samples, channels, ch, from, to, low, w);
        assert(samples[w * channels + ch] == low);
    } else {
        assert(samples[frame * channels + ch] == low);
    }
    if high > LOWEST {
        let w = choose|w: int| #[trigger] reaches(samples, channels, ch, from, to, high, w);
        assert(samples[w * channels + ch] == high);
    } else {
        assert(samples[frame * channels + ch] == high);
    }
}

/// A stretch without a number has the extremes that every number improves on.
pub proof fn nothing_has_no_extremes(
    samples: Seq<i32>,
    channels: nat,
    ch: int,
    from: int,
    to: int,
    low: i32,
    high: i32,
)
    requires
        are_extremes(samples, channels, ch, from, to, low, high),
        forall|f: int|
            from <= f < to ==> !is_number(#[trigger] samples[f * channels + ch]),
    ensures
        low == HIGHEST,
        high == LOWEST,
{
    if low < HIGHEST {
        let w = choose|w: int| #[trigger] reaches(samples, channels, ch, from, to, low, w);
        assert(!is_number(samples[w * channels + ch]));
    }
    if high > LOWEST {
        let w = choose|w: int| #[trigger] reaches(samples, channels, ch, from, to, high, w);
        assert(!is_number(samples[w * channels + ch]));
    }
}

/// A time is told in minutes and seconds of two digits and milliseconds of three, and in hours
/// before them where there are any.
pub proof fn times_are_told(h: nat, m: nat, s: nat, ms: nat)
    requires
        m < 60,
        s < 60,
    ensures
        time_text(h * 3600 + m * 60 + s, ms) == (if h > 0 {
            decimal(h) + ":"@
        } else {
            Seq::empty()
        }) + (zero_padded(m, 2) + ":"@ + zero_padded(s, 2) + "."@ + zero_padded(ms, 3)),
{
    let secs = h * 3600 + m * 60 + s;
    assert(secs / 3600 == h);
    assert(secs / 60 == h * 60 + m);
    assert(secs / 60 % 60 == m);
    assert(secs % 60 == s);
    let on = zero_padded(m, 2) + ":"@ + zero_padded(s, 2) + "."@ + zero_padded(ms, 3);
    assert(Seq::<char>::empty() + on =~= on);
}

/// A container is refused for what it lacks, and for nothing else: a track, its sample rate, its
/// channels.
pub proof fn containers_are_refused(track: Option<TrackInfo>)
    ensures
        track is None ==> Loader::refusal(track) == Some("No audio track found"@),
        track matches Some(t) ==> {
            &&& t.sample_rate is None ==> Loader::refusal(track) == Some("Unknown sample rate"@)
            &&& t.sample_rate is Some && t.channels is None ==> Loader::refusal(track) == Some(
                "Unknown channel layout"@,
            )
            &&& t.sample_rate is Some && t.channels is Some ==> Loader::refusal(track) is None
        },
{
}

/// A peak is that of its own 512 frames, as far as there are any.
pub proof fn peaks_are_of_their_frames(audio: AudioData, ch: int, bin: int, end: int)
    requires
        audio.wf(),
        0 <= ch < audio.channels,
        0 <= bin < audio.peaks@[ch]@.len(),
        bin * 512 + 512 <= audio.frames_spec() ==> end == bin * 512 + 512,
        bin * 512 + 512 > audio.frames_spec() ==> end == audio.frames_spec(),
    ensures
        are_extremes(
            audio.samples@,
            audio.channels as nat,
            ch,
            bin * 512,
            end,
            audio.peaks@[ch]@[bin].0,
            audio.peaks@[ch]@[bin].1,
        ),
        audio.peaks@[ch]@.len() == bin_count(audio.frames_spec()),
{
    let peaks = audio.peaks@[ch]@;
    assert(are_channel_peaks(audio.samples@, audio.channels as nat, ch, peaks));
    assert(end == bin_end(bin, audio.frames_spec()));
    assert(are_extremes(
        audio.samples@,
        audio.channels as nat,
        ch,
        bin * PEAK_BIN,
        bin_end(bin, audio.frames_spec()),
        peaks[bin].0,
        peaks[bin].1,
    ));
}

/// A track that does not say has 16 bits per sample, and a peak stands for 512 frames.
pub proof fn recordings_by_default()
    ensures
        DEFAULT_BITS == 16,
        PEAK_BIN == 512,
{
}

} // verus!
