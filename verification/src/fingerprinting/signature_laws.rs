//! What the wire encoding guarantees: the layout of its header, the
//! alignment of its chunks, and that reading the chunks back gives the
//! peaks of every band.

use vstd::prelude::*;
use crate::fingerprinting::little_endian::{
    le16, le32, lemma_read_le16_at, lemma_read_le32_at, read_le16, read_le32,
};
use crate::fingerprinting::signature_format::{
    all_bands_ordered, band_chunk, bands_bytes, body_bytes, checked_bytes, crc32_checksum,
    lead_in_samples, padding_len, peak_record, peaks_are_ordered, peaks_bytes, sample_rate_code,
    zeros, DecodedSignature, FrequencyPeak,
};

verus! {

/// Each band chunk fills a whole number of four-byte words.
pub proof fn lemma_band_chunk_aligned(band: u8, peaks: Seq<FrequencyPeak>)
    ensures
        band_chunk(band, peaks).len() % 4 == 0,
{
    let n = peaks_bytes(peaks).len();
    assert((8 + n + (4 - n % 4) % 4) % 4 == 0) by (nonlinear_arith);
}

/// The band chunks together fill a whole number of four-byte words.
pub proof fn lemma_bands_bytes_aligned(m: Map<u8, Vec<FrequencyPeak>>, n: nat)
    ensures
        bands_bytes(m, n).len() % 4 == 0,
    decreases n,
{
    if n > 0 {
        lemma_bands_bytes_aligned(m, (n - 1) as nat);
        let band = (n - 1) as u8;
        if m.contains_key(band) {
            lemma_band_chunk_aligned(band, m[band]@);
        }
    }
}

/// The layout of an encoded signature: it is 56 header bytes followed by
/// the band chunks and fills whole four-byte words; reading its header
/// words back gives the first magic number, the CRC-32 of everything from
/// byte 8 on, the length less 48 (twice), the second magic number, the
/// sample-rate code, the sample count with the lead-in added, and the fixed
/// words (zero at bytes 16, 20, 24, 32 and 36, 0x7c0000 at 44 and
/// 0x40000000 at 48) whatever the sample count and the peaks.
pub proof fn lemma_encoded_layout(sig: &DecodedSignature)
    requires
        sig.encodable(),
    ensures
        ({
            let e = sig.encoded();
            let body = body_bytes(sig.frequency_band_to_sound_peaks@);
            &&& e.len() == 56 + body.len()
            &&& e.len() % 4 == 0
            &&& e.subrange(56, e.len() as int) == body
            &&& read_le32(e, 0) == 0xcafe2580u32
            &&& read_le32(e, 4) == crc32_checksum(e.subrange(8, e.len() as int))
            &&& read_le32(e, 8) == e.len() - 48
            &&& read_le32(e, 12) == 0x94119c00u32
            &&& read_le32(e, 16) == 0
            &&& read_le32(e, 20) == 0
            &&& read_le32(e, 24) == 0
            &&& read_le32(e, 28) == sample_rate_code(sig.sample_rate_hz) << 27u32
            &&& read_le32(e, 32) == 0
            &&& read_le32(e, 36) == 0
            &&& read_le32(e, 40) == sig.number_samples + lead_in_samples(sig.sample_rate_hz)
            &&& read_le32(e, 44) == 0x7c0000u32
            &&& read_le32(e, 48) == 0x40000000u32
            &&& read_le32(e, 52) == e.len() - 48
        }),
{
    let e = sig.encoded();
    let m = sig.frequency_band_to_sound_peaks@;
    let body = body_bytes(m);
    let rate = sig.sample_rate_hz;
    let checked = checked_bytes(rate, sig.number_samples, body);
    let size = (body.len() + 8) as u32;
    lemma_bands_bytes_aligned(m, 256);
    assert(e.subrange(8, e.len() as int) =~= checked);
    assert(e.subrange(56, e.len() as int) =~= body);
    assert(e.subrange(0, 4) =~= le32(0xcafe2580u32));
    lemma_read_le32_at(e, 0, 0xcafe2580u32);
    assert(e.subrange(4, 8) =~= le32(crc32_checksum(checked)));
    lemma_read_le32_at(e, 4, crc32_checksum(checked));
    assert(e.subrange(8, 12) =~= le32(size));
    lemma_read_le32_at(e, 8, size);
    assert(e.subrange(12, 16) =~= le32(0x94119c00u32));
    lemma_read_le32_at(e, 12, 0x94119c00u32);
    assert(e.subrange(28, 32) =~= le32(sample_rate_code(rate) << 27u32));
    lemma_read_le32_at(e, 28, sample_rate_code(rate) << 27u32);
    let samples = (sig.number_samples + lead_in_samples(rate)) as u32;
    assert(e.subrange(40, 44) =~= le32(samples));
    lemma_read_le32_at(e, 40, samples);
    assert(e.subrange(52, 56) =~= le32(size));
    lemma_read_le32_at(e, 52, size);
    assert(e.subrange(16, 20) =~= le32(0));
    lemma_read_le32_at(e, 16, 0);
    assert(e.subrange(20, 24) =~= le32(0));
    lemma_read_le32_at(e, 20, 0);
    assert(e.subrange(24, 28) =~= le32(0));
    lemma_read_le32_at(e, 24, 0);
    assert(e.subrange(32, 36) =~= le32(0));
    lemma_read_le32_at(e, 32, 0);
    assert(e.subrange(36, 40) =~= le32(0));
    lemma_read_le32_at(e, 36, 0);
    assert(e.subrange(44, 48) =~= le32(0x7c0000u32));
    lemma_read_le32_at(e, 44, 0x7c0000u32);
    assert(e.subrange(48, 52) =~= le32(0x40000000u32));
    lemma_read_le32_at(e, 48, 0x40000000u32);
}

/// A peak's record gives the peak back, knowing the pass of the peak before
/// it: an escape byte announces the full pass number and otherwise the
/// first byte is the offset from the previous pass; magnitude and bin
/// follow.
pub proof fn lemma_peak_record_decodes(p: FrequencyPeak, prev: u32)
    requires
        prev <= p.fft_pass_number,
    ensures
        ({
            let r = peak_record(p, prev);
            let at: int = if r[0] == 0xffu8 { 5 } else { 0 };
            &&& r[0] == 0xffu8 ==> read_le32(r, 1) == p.fft_pass_number && r[5] == 0
            &&& r[0] != 0xffu8 ==> prev + r[0] == p.fft_pass_number
            &&& r.len() == at + 5
            &&& read_le16(r, at + 1) == p.peak_magnitude
            &&& read_le16(r, at + 3) == p.corrected_peak_frequency_bin
        }),
{
    let r = peak_record(p, prev);
    if p.fft_pass_number - prev >= 255 {
        assert(r.subrange(1, 5) =~= le32(p.fft_pass_number));
        lemma_read_le32_at(r, 1, p.fft_pass_number);
        assert(r.subrange(6, 8) =~= le16(p.peak_magnitude));
        lemma_read_le16_at(r, 6, p.peak_magnitude);
        assert(r.subrange(8, 10) =~= le16(p.corrected_peak_frequency_bin));
        lemma_read_le16_at(r, 8, p.corrected_peak_frequency_bin);
    } else {
        assert(r.subrange(1, 3) =~= le16(p.peak_magnitude));
        lemma_read_le16_at(r, 1, p.peak_magnitude);
        assert(r.subrange(3, 5) =~= le16(p.corrected_peak_frequency_bin));
        lemma_read_le16_at(r, 3, p.corrected_peak_frequency_bin);
    }
}


/// A map with no bands has no band chunks: its signature encodes to the
/// 56-byte header alone.
pub proof fn lemma_no_bands_no_chunks(m: Map<u8, Vec<FrequencyPeak>>, n: nat)
    requires
        m.dom().is_empty(),
    ensures
        bands_bytes(m, n) == Seq::<u8>::empty(),
    decreases n,
{
    if n > 0 {
        lemma_no_bands_no_chunks(m, (n - 1) as nat);
        assert(!m.dom().contains((n - 1) as u8));
        assert(bands_bytes(m, n) =~= Seq::<u8>::empty());
    }
}


/// The records of the peaks of `s`, read front to back, when the pass
/// before the first of them is `prev`.
pub open spec fn records_from(s: Seq<FrequencyPeak>, prev: u32) -> Seq<u8>
    decreases s.len(),
{
    if s.len() == 0 {
        seq![]
    } else {
        peak_record(s[0], prev) + records_from(s.drop_first(), s[0].fft_pass_number)
    }
}

/// The pass of the last peak of `s`, or `prev` when `s` is empty.
pub open spec fn last_pass_after(s: Seq<FrequencyPeak>, prev: u32) -> u32 {
    if s.len() == 0 {
        prev
    } else {
        s.last().fft_pass_number
    }
}

/// Reads a band's peak records back, given the pass before the first of
/// them: a record opens either with the offset from the previous pass
/// (below 255) or with the escape byte 0xff, the full pass number and then
/// the offset from it; magnitude and bin follow. `None` when the bytes are
/// not a sequence of records.
pub open spec fn decode_records(b: Seq<u8>, prev: u32) -> Option<Seq<FrequencyPeak>>
    decreases b.len(),
{
    if b.len() == 0 {
        Some(seq![])
    } else if b[0] == 0xffu8 {
        if b.len() < 10 || read_le32(b, 1) + b[5] > u32::MAX {
            None
        } else {
            let pass = (read_le32(b, 1) + b[5]) as u32;
            let p = FrequencyPeak {
                fft_pass_number: pass,
                peak_magnitude: read_le16(b, 6),
                corrected_peak_frequency_bin: read_le16(b, 8),
            };
            match decode_records(b.skip(10), pass) {
                Some(rest) => Some(seq![p] + rest),
                None => None,
            }
        }
    } else {
        if b.len() < 5 || prev + b[0] > u32::MAX {
            None
        } else {
            let pass = (prev + b[0]) as u32;
            let p = FrequencyPeak {
                fft_pass_number: pass,
                peak_magnitude: read_le16(b, 1),
                corrected_peak_frequency_bin: read_le16(b, 3),
            };
            match decode_records(b.skip(5), pass) {
                Some(rest) => Some(seq![p] + rest),
                None => None,
            }
        }
    }
}

/// Adding a peak at the end adds its record at the end.
proof fn lemma_records_from_push(s: Seq<FrequencyPeak>, p: FrequencyPeak, prev: u32)
    ensures
        records_from(s.push(p), prev) == records_from(s, prev) + peak_record(
            p,
            last_pass_after(s, prev),
        ),
    decreases s.len(),
{
    if s.len() == 0 {
        let e = Seq::<FrequencyPeak>::empty();
        assert(s.push(p).drop_first() =~= e);
        assert(s.push(p)[0] == p);
        assert(records_from(e, p.fft_pass_number) =~= Seq::<u8>::empty());
        assert(records_from(s.push(p), prev) =~= peak_record(p, prev));
    } else {
        let t = s.drop_first();
        lemma_records_from_push(t, p, s[0].fft_pass_number);
        assert(s.push(p).drop_first() =~= t.push(p));
        if t.len() > 0 {
            assert(t.last() == s.last());
        }
        assert(records_from(s.push(p), prev) =~= records_from(s, prev) + peak_record(
            p,
            last_pass_after(s, prev),
        ));
    }
}

/// The records built back to front are the records read front to back.
proof fn lemma_peaks_bytes_front_to_back(s: Seq<FrequencyPeak>)
    ensures
        peaks_bytes(s) == records_from(s, 0),
    decreases s.len(),
{
    if s.len() > 0 {
        let init = s.drop_last();
        lemma_peaks_bytes_front_to_back(init);
        lemma_records_from_push(init, s.last(), 0);
        assert(init.push(s.last()) =~= s);
    }
}

/// Reading the records of ordered peaks back gives the peaks.
proof fn lemma_records_from_decode(s: Seq<FrequencyPeak>, prev: u32)
    requires
        peaks_are_ordered(s),
        s.len() > 0 ==> prev <= s[0].fft_pass_number,
    ensures
        decode_records(records_from(s, prev), prev) == Some(s),
    decreases s.len(),
{
    if s.len() > 0 {
        let p = s[0];
        let t = s.drop_first();
        let rec = peak_record(p, prev);
        let rest = records_from(t, p.fft_pass_number);
        let b = records_from(s, prev);
        assert(peaks_are_ordered(t)) by {
            assert forall|a: int, c: int| 0 <= a <= c < t.len() implies #[trigger] t[a].fft_pass_number
                <= #[trigger] t[c].fft_pass_number by {
                assert(t[a] == s[a + 1]);
                assert(t[c] == s[c + 1]);
            }
        }
        if t.len() > 0 {
            assert(t[0] == s[1]);
            assert(s[0].fft_pass_number <= s[1].fft_pass_number);
        }
        lemma_records_from_decode(t, p.fft_pass_number);
        lemma_peak_record_decodes(p, prev);
        assert(b =~= rec + rest);
        assert(b.skip(rec.len() as int) =~= rest);
        if p.fft_pass_number - prev >= 255 {
            assert(b[0] == 0xffu8);
            assert(b.subrange(0, 10) =~= rec);
            assert(read_le32(b, 1) == read_le32(rec, 1));
            assert(b[5] == rec[5]);
            assert(read_le16(b, 6) == read_le16(rec, 6));
            assert(read_le16(b, 8) == read_le16(rec, 8));
        } else {
            assert(b[0] == rec[0]);
            assert(read_le16(b, 1) == read_le16(rec, 1));
            assert(read_le16(b, 3) == read_le16(rec, 3));
        }
        let decoded = decode_records(b, prev).unwrap();
        assert(decoded =~= s);
    }
}

/// A band's chunk loses nothing: reading its peak records back, starting
/// from pass 0, gives exactly the band's peaks.
pub proof fn lemma_band_records_decode(s: Seq<FrequencyPeak>)
    requires
        peaks_are_ordered(s),
    ensures
        decode_records(peaks_bytes(s), 0) == Some(s),
{
    lemma_peaks_bytes_front_to_back(s);
    lemma_records_from_decode(s, 0);
}


/// The chunks of the bands numbered from `k` on that `m` holds, in
/// increasing band order.
pub open spec fn bands_bytes_from(m: Map<u8, Vec<FrequencyPeak>>, k: nat) -> Seq<u8>
    decreases 256 - k,
{
    if k >= 256 {
        seq![]
    } else {
        (if m.contains_key(k as u8) {
            band_chunk(k as u8, m[k as u8]@)
        } else {
            seq![]
        }) + bands_bytes_from(m, k + 1)
    }
}

/// The tag and the peaks of each band numbered from `k` on that `m` holds,
/// in increasing band order.
pub open spec fn band_entries_from(m: Map<u8, Vec<FrequencyPeak>>, k: nat) -> Seq<
    (u32, Seq<FrequencyPeak>),
>
    decreases 256 - k,
{
    if k >= 256 {
        seq![]
    } else {
        (if m.contains_key(k as u8) {
            seq![((0x60030040 + k) as u32, m[k as u8]@)]
        } else {
            seq![]
        }) + band_entries_from(m, k + 1)
    }
}

/// Reads band chunks back: each is a tag, the length of its records, the
/// records and zero padding to four bytes. `None` when the bytes are not a
/// sequence of such chunks.
pub open spec fn decode_chunks(b: Seq<u8>) -> Option<Seq<(u32, Seq<FrequencyPeak>)>>
    decreases b.len(),
{
    if b.len() == 0 {
        Some(seq![])
    } else if b.len() < 8 {
        None
    } else {
        let n = read_le32(b, 4) as nat;
        let end = 8 + n + padding_len(n);
        if end > b.len() || b.subrange(8 + n as int, end as int) != zeros(padding_len(n)) {
            None
        } else {
            match (decode_records(b.subrange(8, 8 + n as int), 0), decode_chunks(b.skip(end as int))) {
                (Some(peaks), Some(rest)) => Some(seq![(read_le32(b, 0), peaks)] + rest),
                _ => None,
            }
        }
    }
}

/// The chunks built from the lowest band up are the chunks read from any
/// band on, after those below it.
proof fn lemma_bands_bytes_split(m: Map<u8, Vec<FrequencyPeak>>, n: nat)
    requires
        n <= 256,
    ensures
        bands_bytes(m, n) + bands_bytes_from(m, n) == bands_bytes_from(m, 0),
    decreases n,
{
    if n > 0 {
        lemma_bands_bytes_split(m, (n - 1) as nat);
        assert(bands_bytes(m, n) + bands_bytes_from(m, n) =~= bands_bytes(m, (n - 1) as nat)
            + bands_bytes_from(m, (n - 1) as nat));
    } else {
        assert(bands_bytes(m, 0) + bands_bytes_from(m, 0) =~= bands_bytes_from(m, 0));
    }
}

/// A band's chunk reads back as its tag and peaks, ahead of whatever the
/// bytes after it read back as.
proof fn lemma_chunk_decode(band: u8, peaks: Seq<FrequencyPeak>, rest: Seq<u8>)
    requires
        peaks_are_ordered(peaks),
        band_chunk(band, peaks).len() <= u32::MAX,
        decode_chunks(rest) is Some,
    ensures
        decode_chunks(band_chunk(band, peaks) + rest) == Some(
            seq![((0x60030040 + band) as u32, peaks)] + decode_chunks(rest).unwrap(),
        ),
{
    let records = peaks_bytes(peaks);
    let n = records.len();
    let b = band_chunk(band, peaks) + rest;
    let tag = (0x60030040 + band) as u32;
    assert(b.subrange(0, 4) =~= le32(tag));
    lemma_read_le32_at(b, 0, tag);
    assert(b.subrange(4, 8) =~= le32(n as u32));
    lemma_read_le32_at(b, 4, n as u32);
    let end = 8 + n + padding_len(n);
    assert(b.subrange(8, 8 + n as int) =~= records);
    assert(b.subrange(8 + n as int, end as int) =~= zeros(padding_len(n)));
    assert(b.skip(end as int) =~= rest);
    lemma_band_records_decode(peaks);
}

/// Reading the chunks from band `k` on back gives each band's tag and peaks.
proof fn lemma_bands_from_decode(m: Map<u8, Vec<FrequencyPeak>>, k: nat)
    requires
        k <= 256,
        all_bands_ordered(m),
        bands_bytes_from(m, k).len() <= u32::MAX,
    ensures
        decode_chunks(bands_bytes_from(m, k)) == Some(band_entries_from(m, k)),
    decreases 256 - k,
{
    if k < 256 {
        let band = k as u8;
        let rest = bands_bytes_from(m, k + 1);
        let b = bands_bytes_from(m, k);
        lemma_bands_from_decode(m, k + 1);
        if m.contains_key(band) {
            let peaks = m[band]@;
            assert(b =~= band_chunk(band, peaks) + rest);
            lemma_chunk_decode(band, peaks, rest);
            assert(band_entries_from(m, k) =~= seq![((0x60030040 + k) as u32, peaks)]
                + band_entries_from(m, k + 1));
        } else {
            assert(b =~= rest);
            assert(band_entries_from(m, k) =~= band_entries_from(m, k + 1));
        }
    }
}

/// The encoding loses nothing: after its 56 header bytes, the band chunks
/// read back as the tag and the peaks of every band the signature holds, in
/// increasing band order.
pub proof fn lemma_encoded_bands_decode(sig: &DecodedSignature)
    requires
        sig.encodable(),
    ensures
        ({
            let e = sig.encoded();
            decode_chunks(e.subrange(56, e.len() as int)) == Some(
                band_entries_from(sig.frequency_band_to_sound_peaks@, 0),
            )
        }),
{
    let m = sig.frequency_band_to_sound_peaks@;
    lemma_encoded_layout(sig);
    lemma_bands_bytes_split(m, 256);
    assert(bands_bytes_from(m, 256) =~= Seq::<u8>::empty());
    assert(body_bytes(m) =~= bands_bytes_from(m, 0));
    lemma_bands_from_decode(m, 0);
}

} // verus!
