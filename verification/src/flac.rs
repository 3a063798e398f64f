//! FLAC streams.

use flacenc::component::BitRepr;
use flacenc::error::Verify;
use vstd::arithmetic::power2::pow2;
use vstd::prelude::*;

verus! {

/// The number of samples in a stream whose frames can be numbered, at most.
pub const MAX_SAMPLES: u64 = 0x800_0000_0000;

/// The highest sample rate that the encoder takes.
pub const MAX_SAMPLE_RATE: u32 = 96_000;

/// The number of channels that a stream has, at most.
pub const MAX_CHANNELS: usize = 8;

/// The number that bytes stand for, the most significant first.
pub open spec fn big_endian(bytes: Seq<u8>) -> nat
    decreases bytes.len(),
{
    if bytes.len() == 0 {
        0
    } else {
        big_endian(bytes.drop_last()) * 256 + bytes.last() as nat
    }
}

/// The MD5 digest that the encoder computes of samples: of as many low bytes of each as hold
/// its bits. Where the last frame is incomplete and its block holds whole frames before it, its
/// samples are taken twice.
pub uninterp spec fn pcm_md5(samples: Seq<i32>, channels: nat, bits: nat) -> Seq<u8>;

/// Whether the encoder takes a stream of these properties.
pub open spec fn is_supported(channels: nat, bits: nat, sample_rate: nat) -> bool {
    &&& 1 <= channels <= MAX_CHANNELS
    &&& sample_rate <= MAX_SAMPLE_RATE
    &&& bits % 4 == 0 || bits % 4 == 1
}

/// Whether the samples are integers of `bits` bits.
pub open spec fn fit(samples: Seq<i32>, bits: nat) -> bool {
    let full = pow2((bits - 1) as nat) as int;
    forall|i: int| 0 <= i < samples.len() ==> -full <= #[trigger] samples[i] < full
}

/// The sample rate, the number of channels, the bits per sample and the number of frames, as
/// the header of a stream packs them.
pub open spec fn packed_properties(
    samples: nat,
    channels: nat,
    bits: nat,
    sample_rate: nat,
) -> nat {
    sample_rate * pow2(44) + (channels - 1) as nat * pow2(41) + (bits - 1) as nat * pow2(36)
        + samples / channels % pow2(36)
}

/// The number of blocks that a stream's frames are cut into: of 4096 each, but for the last.
pub open spec fn block_count(frames: nat) -> nat {
    (frames + 4095) / 4096
}

/// Whether `bytes` are those of a FLAC stream of samples with this MD5 digest: they begin with
/// the signature and the one metadata block STREAMINFO, and behind it lies each block, the
/// first begun by the sync code of a stream of fixed block size, and none shorter than the
/// 8 bytes of its header and footer. The smallest block size, the frame sizes, and what else
/// the blocks hold are left open.
pub open spec fn is_stream_of(
    bytes: Seq<u8>,
    samples: nat,
    digest: Seq<u8>,
    channels: nat,
    bits: nat,
    sample_rate: nat,
) -> bool {
    &&& bytes.len() >= 42
    &&& bytes.subrange(0, 8) == seq![0x66u8, 0x4c, 0x61, 0x43, 0x80, 0, 0, 34]
    &&& bytes.subrange(10, 12) == seq![0x10u8, 0]
    &&& big_endian(bytes.subrange(18, 26)) == packed_properties(
        samples,
        channels,
        bits,
        sample_rate,
    )
    &&& bytes.subrange(26, 42) == digest
    &&& bytes.len() >= 42 + 8 * block_count(samples / channels)
    &&& samples >= channels ==> bytes.subrange(42, 44) == seq![0xffu8, 0xf8]
}

/// What went wrong in the encoder, with its own words.
pub enum FlacFailure {
    Config(String),
    Encoding(String),
    Serialization(String),
}

/// The default configuration of `flacenc` (`config::Encoder::default` through
/// `Verify::into_verified`), applied by `encode_with_fixed_block_size` to a
/// `MemSource::from_samples`, and `BitRepr::write` of the stream to a `ByteSink`.
///
/// The stream has the header of these samples, and behind it one block for every 4096 frames or
/// part of them. What the blocks hold but for the first one's sync code is left unsaid, as it
/// rests on floating-point arithmetic. Properties that the encoder does not support are
/// refused while encoding. Others may be refused too: the encoder asks the machine how many
/// threads it has, and fails with that request (or waits forever where FLACENC_WORKERS in the
/// environment asks for none). Samples out of range and frame numbers out of
/// range, which end its threads in a panic, are left out.
#[verifier::external_body]
pub(crate) fn stream_bytes(
    samples: &[i32],
    channels: usize,
    bits: usize,
    sample_rate: u32,
) -> (r: Result<Vec<u8>, FlacFailure>)
    requires
        16 <= bits <= 24,
        samples@.len() <= MAX_SAMPLES,
        fit(samples@, bits as nat),
    ensures
        r matches Ok(bytes) ==> is_supported(channels as nat, bits as nat, sample_rate as nat)
            && is_stream_of(
            bytes@,
            samples@.len(),
            pcm_md5(samples@, channels as nat, bits as nat),
            channels as nat,
            bits as nat,
            sample_rate as nat,
        ),
        !is_supported(channels as nat, bits as nat, sample_rate as nat) ==> r matches Err(
            FlacFailure::Encoding(_),
        ),
{
    let config = flacenc::config::Encoder::default().into_verified();
    let config = config.map_err(|e| FlacFailure::Config(format!("{e:?}")))?;
    let rate = sample_rate as usize;
    let source = flacenc::source::MemSource::from_samples(samples, channels, bits, rate);
    let stream = flacenc::encode_with_fixed_block_size(&config, source, config.block_size)
        .map_err(|e| FlacFailure::Encoding(format!("{e:?}")))?;
    let mut sink = flacenc::bitsink::ByteSink::new();
    stream.write(&mut sink).map_err(|e| FlacFailure::Serialization(format!("{e:?}")))?;
    Ok(sink.as_slice().to_vec())
}

/// What the user is told of a failure.
pub open spec fn failure_message(failure: FlacFailure) -> Seq<char> {
    match failure {
        FlacFailure::Config(e) => "Encoder config error: "@ + e@,
        FlacFailure::Encoding(e) => "FLAC encoding failed: "@ + e@,
        FlacFailure::Serialization(e) => "FLAC serialization failed: "@ + e@,
    }
}

/// What the user is told of a failure.
pub fn failure_text(failure: FlacFailure) -> (r: String)
    ensures
        r@ == failure_message(failure),
{
    let mut out = String::new();
    match failure {
        FlacFailure::Config(e) => {
            out.append("Encoder config error: ");
            out.append(e.as_str());
            assert(out@ =~= "Encoder config error: "@ + e@);
        },
        FlacFailure::Encoding(e) => {
            out.append("FLAC encoding failed: ");
            out.append(e.as_str());
            assert(out@ =~= "FLAC encoding failed: "@ + e@);
        },
        FlacFailure::Serialization(e) => {
            out.append("FLAC serialization failed: ");
            out.append(e.as_str());
            assert(out@ =~= "FLAC serialization failed: "@ + e@);
        },
    }
    out
}

/// Whether `bytes` begin like a FLAC stream, block sizes included.
pub open spec fn is_flac(bytes: Seq<u8>) -> bool {
    bytes.len() > 12 && bytes.subrange(0, 4) == seq![0x66u8, 0x4c, 0x61, 0x43]
}

/// `bytes` with the smallest block size of a FLAC stream set to its largest.
pub open spec fn with_fixed_block_size(bytes: Seq<u8>) -> Seq<u8> {
    if is_flac(bytes) {
        bytes.update(8, bytes[10]).update(9, bytes[11])
    } else {
        bytes
    }
}

/// Sets the smallest block size of a FLAC stream to its largest.
///
/// The encoder records the (shorter) final block in the smallest block size, but the FLAC
/// format excludes the last block: a stream of fixed block size has both sizes equal, and
/// strict decoders reject the frames otherwise.
pub fn fix_block_size(bytes: &mut Vec<u8>)
    ensures
        final(bytes)@ == with_fixed_block_size(old(bytes)@),
{
    if bytes.len() > 12 {
        assert(is_flac(bytes@) <==> bytes@[0] == 0x66 && bytes@[1] == 0x4c && bytes@[2] == 0x61
            && bytes@[3] == 0x43) by {
            let head = bytes@.subrange(0, 4);
            assert(head[0] == bytes@[0] && head[1] == bytes@[1] && head[2] == bytes@[2] && head[3]
                == bytes@[3]);
            if bytes@[0] == 0x66 && bytes@[1] == 0x4c && bytes@[2] == 0x61 && bytes@[3] == 0x43 {
                assert(head =~= seq![0x66u8, 0x4c, 0x61, 0x43]);
            }
        }
        if bytes[0] == 0x66 && bytes[1] == 0x4c && bytes[2] == 0x61 && bytes[3] == 0x43 {
            let high: u8 = bytes[10];
            let low: u8 = bytes[11];
            bytes.set(8, high);
            bytes.set(9, low);
        }
    }
}

/// What becomes of an encoder's result: its bytes with equal block sizes, or what the user is
/// told of its failure.
pub fn finish_encoding(result: Result<Vec<u8>, FlacFailure>) -> (r: Result<Vec<u8>, String>)
    ensures
        match (result, r) {
            (Ok(bytes), Ok(fixed)) => fixed@ == with_fixed_block_size(bytes@),
            (Err(failure), Err(e)) => e@ == failure_message(failure),
            _ => false,
        },
{
    match result {
        Ok(bytes) => {
            let mut bytes = bytes;
            fix_block_size(&mut bytes);
            Ok(bytes)
        },
        Err(failure) => Err(failure_text(failure)),
    }
}

/// Encodes interleaved samples as a FLAC stream of fixed block size.
pub fn encode_flac(samples: &[i32], channels: usize, bits: usize, sample_rate: u32) -> (r: Result<
    Vec<u8>,
    String,
>)
    requires
        16 <= bits <= 24,
        samples@.len() <= MAX_SAMPLES,
        fit(samples@, bits as nat),
    ensures
        match r {
            Ok(bytes) => {
                &&& is_supported(channels as nat, bits as nat, sample_rate as nat)
                &&& is_stream_of(
                    bytes@,
                    samples@.len(),
                    pcm_md5(samples@, channels as nat, bits as nat),
                    channels as nat,
                    bits as nat,
                    sample_rate as nat,
                )
                &&& bytes@.subrange(8, 10) == bytes@.subrange(10, 12)
            },
            Err(e) => exists|failure: FlacFailure|
                e@ == #[trigger] failure_message(failure) && (!is_supported(
                    channels as nat,
                    bits as nat,
                    sample_rate as nat,
                ) ==> failure is Encoding),
        },
{
    let result = stream_bytes(samples, channels, bits, sample_rate);
    proof {
        if result is Ok {
            let raw = result->Ok_0@;
            assert(raw.subrange(0, 4) =~= raw.subrange(0, 8).subrange(0, 4));
            assert(seq![0x66u8, 0x4c, 0x61, 0x43, 0x80, 0, 0, 34].subrange(0, 4) =~= seq![
                0x66u8,
                0x4c,
                0x61,
                0x43,
            ]);
            let fixed = with_fixed_block_size(raw);
            assert(fixed.subrange(0, 8) =~= raw.subrange(0, 8));
            assert(fixed.subrange(10, 12) =~= raw.subrange(10, 12));
            assert(fixed.subrange(18, 26) =~= raw.subrange(18, 26));
            assert(fixed.subrange(26, 42) =~= raw.subrange(26, 42));
            if samples@.len() >= channels {
                vstd::arithmetic::div_mod::lemma_div_non_zero(
                    samples@.len() as int,
                    channels as int,
                );
                assert(block_count(samples@.len() / channels as nat) >= 1);
                assert(fixed.subrange(42, 44) =~= raw.subrange(42, 44));
            }
            assert(fixed.subrange(8, 10) =~= fixed.subrange(10, 12));
        }
    }
    finish_encoding(result)
}

} // verus!
