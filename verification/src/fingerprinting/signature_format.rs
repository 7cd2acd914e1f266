//! In-memory representation of a fingerprint and its binary wire encoding.

use std::collections::HashMap;
use vstd::prelude::*;
use base64::Engine;
use crate::fingerprinting::little_endian::{le16, le32, push_u16_le, push_u32_le};

verus! {

broadcast use vstd::std_specs::hash::group_hash_axioms;

/// A single detected frequency peak.
#[derive(Clone, Copy, Debug)]
pub struct FrequencyPeak {
    /// Index of the FFT pass in which this peak was detected, relative to
    /// the start of the signal.
    pub fft_pass_number: u32,
    /// Log-scaled magnitude of the peak.
    pub peak_magnitude: u16,
    /// FFT bin (frequency, corrected and rescaled) at which the peak occurred.
    pub corrected_peak_frequency_bin: u16,
}

/// The four frequency ranges that the fingerprint format buckets peaks
/// into, ordered from low to high.
#[derive(Hash, PartialEq, Eq, Structural, Debug, Clone, Copy, PartialOrd, Ord)]
pub enum FrequencyBand {
    /// 250 Hz – 520 Hz.
    _250_520,
    /// 520 Hz – 1450 Hz.
    _520_1450,
    /// 1450 Hz – 3500 Hz.
    _1450_3500,
    /// 3500 Hz – 5500 Hz.
    _3500_5500,
}

impl FrequencyBand {
    /// The band's number in the wire format (0 for the lowest band).
    pub open spec fn spec_id(self) -> u8 {
        match self {
            FrequencyBand::_250_520 => 0,
            FrequencyBand::_520_1450 => 1,
            FrequencyBand::_1450_3500 => 2,
            FrequencyBand::_3500_5500 => 3,
        }
    }

    /// The band's number in the wire format, which is also the key under
    /// which a [`DecodedSignature`] keeps the band's peaks.
    pub fn id(&self) -> (r: u8)
        ensures
            r == self.spec_id(),
            r < 4,
    {
        match self {
            FrequencyBand::_250_520 => 0,
            FrequencyBand::_520_1450 => 1,
            FrequencyBand::_1450_3500 => 2,
            FrequencyBand::_3500_5500 => 3,
        }
    }
}

/// The result of fingerprinting an audio clip: sample metadata plus every
/// detected frequency peak, grouped by band. The map is keyed by the band's
/// number ([`FrequencyBand::id`]).
pub struct DecodedSignature {
    /// Sample rate of the audio that was fingerprinted, in Hz.
    pub sample_rate_hz: u32,
    /// Number of PCM samples that were fingerprinted.
    pub number_samples: u32,
    /// Detected peaks, grouped by band number.
    pub frequency_band_to_sound_peaks: HashMap<u8, Vec<FrequencyPeak>>,
}

/// The sample rates that the wire format can express.
pub open spec fn is_supported_sample_rate(rate: u32) -> bool {
    rate == 8000 || rate == 11025 || rate == 16000 || rate == 32000 || rate == 44100 || rate == 48000
}

/// The code under which the wire format records a sample rate.
pub open spec fn sample_rate_code(rate: u32) -> u32 {
    if rate == 8000 {
        1
    } else if rate == 11025 {
        2
    } else if rate == 16000 {
        3
    } else if rate == 32000 {
        4
    } else if rate == 44100 {
        5
    } else if rate == 48000 {
        6
    } else {
        0
    }
}

/// The number of samples in 0.24 seconds of audio at `rate`, which the
/// format adds to the sample count.
pub open spec fn lead_in_samples(rate: u32) -> int {
    rate * 24 / 100
}

/// Within a band, peaks come in order of their FFT pass.
pub open spec fn peaks_are_ordered(s: Seq<FrequencyPeak>) -> bool {
    forall|a: int, b: int|
        0 <= a <= b < s.len() ==> #[trigger] s[a].fft_pass_number <= #[trigger] s[b].fft_pass_number
}

/// The FFT pass of the last peak of `s`, or 0 before the first peak.
pub open spec fn last_pass(s: Seq<FrequencyPeak>) -> u32 {
    if s.len() == 0 {
        0
    } else {
        s.last().fft_pass_number
    }
}

/// The record of one peak, given the pass of the peak before it: the pass
/// offset in one byte (preceded by an escape byte and the full pass number
/// when the offset would not fit below 255), then magnitude and bin.
pub open spec fn peak_record(p: FrequencyPeak, prev: u32) -> Seq<u8> {
    if p.fft_pass_number - prev >= 255 {
        seq![0xffu8] + le32(p.fft_pass_number) + seq![0u8] + le16(p.peak_magnitude) + le16(
            p.corrected_peak_frequency_bin,
        )
    } else {
        seq![(p.fft_pass_number - prev) as u8] + le16(p.peak_magnitude) + le16(
            p.corrected_peak_frequency_bin,
        )
    }
}

/// The records of all peaks of one band, in order.
pub open spec fn peaks_bytes(s: Seq<FrequencyPeak>) -> Seq<u8>
    decreases s.len(),
{
    if s.len() == 0 {
        seq![]
    } else {
        peaks_bytes(s.drop_last()) + peak_record(s.last(), last_pass(s.drop_last()))
    }
}

/// The number of zero bytes that bring a length of `n` to a multiple of four.
pub open spec fn padding_len(n: nat) -> nat {
    ((4 - n % 4) % 4) as nat
}

/// `n` zero bytes.
pub open spec fn zeros(n: nat) -> Seq<u8> {
    Seq::new(n, |i: int| 0u8)
}

/// The chunk of one band: its tag, the length of its peak records, the
/// records, and zero padding to a multiple of four bytes.
pub open spec fn band_chunk(band: u8, peaks: Seq<FrequencyPeak>) -> Seq<u8> {
    let records = peaks_bytes(peaks);
    le32((0x60030040 + band) as u32) + le32(records.len() as u32) + records + zeros(
        padding_len(records.len()),
    )
}

/// The chunks of the bands numbered below `n` that `m` holds, in increasing
/// band order.
pub open spec fn bands_bytes(m: Map<u8, Vec<FrequencyPeak>>, n: nat) -> Seq<u8>
    decreases n,
{
    if n == 0 {
        seq![]
    } else {
        let band = (n - 1) as u8;
        bands_bytes(m, (n - 1) as nat) + if m.contains_key(band) {
            band_chunk(band, m[band]@)
        } else {
            seq![]
        }
    }
}

/// The chunks of all bands that `m` holds, in increasing band order.
pub open spec fn body_bytes(m: Map<u8, Vec<FrequencyPeak>>) -> Seq<u8> {
    bands_bytes(m, 256)
}

/// Every band's peaks come in order of their FFT pass.
pub open spec fn all_bands_ordered(m: Map<u8, Vec<FrequencyPeak>>) -> bool {
    forall|band: u8| #[trigger] m.contains_key(band) ==> peaks_are_ordered(m[band]@)
}

/// The chunks of bands numbered below `k` come before those of the others.
pub proof fn lemma_bands_bytes_grow(m: Map<u8, Vec<FrequencyPeak>>, k: nat, n: nat)
    requires
        k <= n,
    ensures
        bands_bytes(m, k).len() <= bands_bytes(m, n).len(),
        bands_bytes(m, n).subrange(0, bands_bytes(m, k).len() as int) == bands_bytes(m, k),
    decreases n - k,
{
    if k < n {
        lemma_bands_bytes_grow(m, k, (n - 1) as nat);
        let a = bands_bytes(m, (n - 1) as nat);
        let b = bands_bytes(m, n);
        assert(b.subrange(0, a.len() as int) =~= a);
        assert(b.subrange(0, bands_bytes(m, k).len() as int) =~= a.subrange(
            0,
            bands_bytes(m, k).len() as int,
        ));
    }
}

/// The records of the peaks of one band.
fn encode_peaks(peaks: &Vec<FrequencyPeak>) -> (r: Vec<u8>)
    requires
        peaks_are_ordered(peaks@),
    ensures
        r@ == peaks_bytes(peaks@),
{
    let mut out: Vec<u8> = Vec::new();
    let mut prev: u32 = 0;
    let mut i: usize = 0;
    while i < peaks.len()
        invariant
            i <= peaks.len(),
            peaks_are_ordered(peaks@),
            out@ == peaks_bytes(peaks@.take(i as int)),
            prev == last_pass(peaks@.take(i as int)),
            i > 0 ==> prev == peaks@[i - 1].fft_pass_number,
        decreases peaks.len() - i,
    {
        let p = peaks[i];
        let pass = p.fft_pass_number;
        assert(prev <= pass) by {
            if i > 0 {
                assert(peaks@[i - 1].fft_pass_number <= peaks@[i as int].fft_pass_number);
            }
        }
        let ghost before = out@;
        let mut base = prev;
        if pass - prev >= 255 {
            out.push(0xffu8);
            push_u32_le(&mut out, pass);
            base = pass;
        }
        out.push((pass - base) as u8);
        push_u16_le(&mut out, p.peak_magnitude);
        push_u16_le(&mut out, p.corrected_peak_frequency_bin);
        proof {
            let t = peaks@.take(i + 1);
            assert(t.drop_last() =~= peaks@.take(i as int));
            assert(t.last() == p);
            assert(out@ =~= before + peak_record(p, prev));
        }
        prev = pass;
        i += 1;
    }
    assert(peaks@.take(peaks.len() as int) =~= peaks@);
    out
}

/// Appends the chunk of one band to `body`.
fn append_band(body: &mut Vec<u8>, band: u8, peaks: &Vec<FrequencyPeak>)
    requires
        peaks_are_ordered(peaks@),
        old(body)@.len() + band_chunk(band, peaks@).len() <= u32::MAX,
    ensures
        final(body)@ == old(body)@ + band_chunk(band, peaks@),
{
    let mut records = encode_peaks(peaks);
    let n = records.len();
    let ghost rec = records@;
    push_u32_le(body, 0x60030040u32 + band as u32);
    push_u32_le(body, n as u32);
    body.append(&mut records);
    let pad = (4 - n % 4) % 4;
    let ghost with_records = body@;
    let mut j: usize = 0;
    while j < pad
        invariant
            j <= pad,
            pad == padding_len(n as nat),
            body@ == with_records + zeros(j as nat),
        decreases pad - j,
    {
        body.push(0u8);
        j += 1;
        assert(body@ =~= with_records + zeros(j as nat));
    }
    assert(body@ =~= old(body)@ + band_chunk(band, peaks@));
}


/// The part of the encoding that the checksum covers: the header from its
/// size field on, then the band chunks.
pub open spec fn checked_bytes(rate: u32, number_samples: u32, body: Seq<u8>) -> Seq<u8> {
    let size = (body.len() + 8) as u32;
    le32(size) + le32(0x94119c00u32) + le32(0) + le32(0) + le32(0) + le32(
        sample_rate_code(rate) << 27u32,
    ) + le32(0) + le32(0) + le32((number_samples + lead_in_samples(rate)) as u32) + le32(
        0x7c0000u32,
    ) + le32(0x40000000u32) + le32(size) + body
}

/// The whole encoding: the first magic number, the CRC-32 of the checked
/// part, then the checked part.
pub open spec fn signature_bytes(rate: u32, number_samples: u32, body: Seq<u8>) -> Seq<u8> {
    let checked = checked_bytes(rate, number_samples, body);
    le32(0xcafe2580u32) + le32(crc32_checksum(checked)) + checked
}

/// The prefix of the URI form of a signature.
pub open spec fn data_uri_prefix() -> Seq<char> {
    "data:audio/vnd.shazam.sig;base64,"@
}

/// The CRC-32 checksum that `crc32fast::hash` computes of `bytes`.
pub uninterp spec fn crc32_checksum(bytes: Seq<u8>) -> u32;

/// The standard base64 encoding, with padding, that
/// `base64::engine::general_purpose::STANDARD.encode` makes of `bytes`.
pub uninterp spec fn base64_standard(bytes: Seq<u8>) -> Seq<char>;

/// Calls `crc32fast::hash`. The contract claims only that the result is the
/// checksum of exactly these bytes; which checksum that is stays unsaid.
#[verifier::external_body]
fn crc32(bytes: &[u8]) -> (r: u32)
    ensures
        r == crc32_checksum(bytes@),
{
    crc32fast::hash(bytes)
}

/// Calls `Engine::encode` on `base64::engine::general_purpose::STANDARD`.
/// The contract claims only that the text is the encoding of exactly these
/// bytes; the encoding itself stays unsaid. The call panics when the length
/// of the encoding does not fit in `usize`, which `requires` leaves out.
#[verifier::external_body]
fn base64_encode(bytes: &[u8]) -> (r: String)
    requires
        4 * ((bytes@.len() + 2) / 3) <= usize::MAX,
    ensures
        r@ == base64_standard(bytes@),
{
    base64::engine::general_purpose::STANDARD.encode(bytes)
}

/// The code of a supported sample rate.
fn sample_rate_code_of(rate: u32) -> (r: u32)
    requires
        is_supported_sample_rate(rate),
    ensures
        r == sample_rate_code(rate),
        1 <= r <= 6,
{
    if rate == 8000 {
        1
    } else if rate == 11025 {
        2
    } else if rate == 16000 {
        3
    } else if rate == 32000 {
        4
    } else if rate == 44100 {
        5
    } else {
        6
    }
}

impl DecodedSignature {
    /// The inputs on which the encoding is defined: a sample rate the format
    /// can express, a sample count that still fits once the lead-in is
    /// added, every band's peaks in pass order, and an encoding whose length
    /// fits the format's 32-bit size fields.
    pub open spec fn encodable(&self) -> bool {
        let m = self.frequency_band_to_sound_peaks@;
        &&& is_supported_sample_rate(self.sample_rate_hz)
        &&& self.number_samples + lead_in_samples(self.sample_rate_hz) <= u32::MAX
        &&& all_bands_ordered(m)
        &&& 56 + body_bytes(m).len() <= u32::MAX
    }

    /// The binary wire encoding of this signature.
    pub open spec fn encoded(&self) -> Seq<u8> {
        signature_bytes(
            self.sample_rate_hz,
            self.number_samples,
            body_bytes(self.frequency_band_to_sound_peaks@),
        )
    }

    /// The length of the text that base64 makes of the encoding (which is
    /// 56 bytes longer than the band chunks) fits in `usize`.
    pub open spec fn uri_fits(&self) -> bool {
        4 * ((56 + body_bytes(self.frequency_band_to_sound_peaks@).len() + 2) / 3) <= usize::MAX
    }

    /// Encodes this signature into the binary wire format: header, band
    /// chunks in increasing band order, and the CRC-32 of everything after
    /// the checksum field.
    pub fn encode_to_binary(&self) -> (r: Vec<u8>)
        requires
            self.encodable(),
        ensures
            r@ == self.encoded(),
    {
        let m = &self.frequency_band_to_sound_peaks;
        let ghost full = body_bytes(m@);
        let mut body: Vec<u8> = Vec::new();
        let mut k: u16 = 0;
        while k < 256
            invariant
                k <= 256,
                self.encodable(),
                m == &self.frequency_band_to_sound_peaks,
                full == body_bytes(m@),
                body@ == bands_bytes(m@, k as nat),
            decreases 256 - k,
        {
            let band = k as u8;
            proof {
                lemma_bands_bytes_grow(m@, (k + 1) as nat, 256);
                assert(band == ((k + 1) as nat - 1) as u8);
            }
            match m.get(&band) {
                Some(peaks) => {
                    assert(m@.contains_key(band));
                    append_band(&mut body, band, peaks);
                },
                None => {},
            }
            k += 1;
        }
        let size = body.len() as u32 + 8;
        let code = sample_rate_code_of(self.sample_rate_hz);
        let lead_in = self.sample_rate_hz / 25 * 6;
        assert(lead_in == lead_in_samples(self.sample_rate_hz));
        assert((15u32 << 19u32) == 0x780000u32) by (bit_vector);
        let mut checked: Vec<u8> = Vec::new();
        push_u32_le(&mut checked, size);
        push_u32_le(&mut checked, 0x94119c00u32);
        push_u32_le(&mut checked, 0);
        push_u32_le(&mut checked, 0);
        push_u32_le(&mut checked, 0);
        push_u32_le(&mut checked, code << 27u32);
        push_u32_le(&mut checked, 0);
        push_u32_le(&mut checked, 0);
        push_u32_le(&mut checked, self.number_samples + lead_in);
        push_u32_le(&mut checked, (15u32 << 19u32) + 0x40000u32);
        push_u32_le(&mut checked, 0x40000000u32);
        push_u32_le(&mut checked, size);
        checked.append(&mut body);
        assert(checked@ =~= checked_bytes(self.sample_rate_hz, self.number_samples, full));
        let crc = crc32(checked.as_slice());
        let mut out: Vec<u8> = Vec::new();
        push_u32_le(&mut out, 0xcafe2580u32);
        push_u32_le(&mut out, crc);
        out.append(&mut checked);
        assert(out@ =~= self.encoded());
        out
    }

    /// Encodes this signature to the `data:audio/vnd.shazam.sig;base64,...`
    /// URI form: the prefix, then the base64 text of the binary encoding.
    pub fn encode_to_uri(&self) -> (r: String)
        requires
            self.encodable(),
            self.uri_fits(),
        ensures
            r@ == data_uri_prefix() + base64_standard(self.encoded()),
    {
        let binary = self.encode_to_binary();
        let text = base64_encode(binary.as_slice());
        let mut uri = String::from_str("data:audio/vnd.shazam.sig;base64,");
        uri.append(text.as_str());
        uri
    }
}


} // verus!
