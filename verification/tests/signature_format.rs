use std::collections::HashMap;

use shazamio_core::fingerprinting::signature_format::{DecodedSignature, FrequencyBand, FrequencyPeak};

fn peak(pass: u32, magnitude: u16, bin: u16) -> FrequencyPeak {
    FrequencyPeak {
        fft_pass_number: pass,
        peak_magnitude: magnitude,
        corrected_peak_frequency_bin: bin,
    }
}

fn sample_signature() -> DecodedSignature {
    let mut bands = HashMap::new();
    // Inserted high band first: the encoding must still list band 0 first.
    bands.insert(
        FrequencyBand::_520_1450.id(),
        vec![peak(10, 500, 300), peak(10, 501, 301), peak(300, 2, 3)],
    );
    bands.insert(FrequencyBand::_250_520.id(), vec![peak(0, 7, 8)]);
    DecodedSignature {
        sample_rate_hz: 16000,
        number_samples: 32000,
        frequency_band_to_sound_peaks: bands,
    }
}

const SAMPLE_BYTES: [u8; 100] = [
    128, 37, 254, 202, 50, 66, 84, 151, 52, 0, 0, 0, 0, 156, 17, 148, 0, 0, 0, 0, 0, 0, 0, 0, 0,
    0, 0, 0, 0, 0, 0, 24, 0, 0, 0, 0, 0, 0, 0, 0, 0, 140, 0, 0, 0, 0, 124, 0, 0, 0, 0, 64, 52, 0,
    0, 0, 64, 0, 3, 96, 5, 0, 0, 0, 0, 7, 0, 8, 0, 0, 0, 0, 65, 0, 3, 96, 20, 0, 0, 0, 10, 244,
    1, 44, 1, 0, 245, 1, 45, 1, 255, 44, 1, 0, 0, 0, 2, 0, 3, 0,
];

fn read_u32(bytes: &[u8], at: usize) -> u32 {
    u32::from_le_bytes([bytes[at], bytes[at + 1], bytes[at + 2], bytes[at + 3]])
}

#[test]
fn encode_to_binary_gives_the_wire_bytes() {
    let bytes = sample_signature().encode_to_binary();
    assert_eq!(bytes, SAMPLE_BYTES.to_vec());
}

#[test]
fn encode_to_binary_header_fields() {
    let bytes = sample_signature().encode_to_binary();
    assert_eq!(bytes.len() % 4, 0);
    assert_eq!(read_u32(&bytes, 0), 0xcafe2580);
    assert_eq!(read_u32(&bytes, 4), 0x97544232);
    assert_eq!(read_u32(&bytes, 8), bytes.len() as u32 - 48);
    assert_eq!(read_u32(&bytes, 12), 0x94119c00);
    assert_eq!(read_u32(&bytes, 28), 3 << 27);
    assert_eq!(read_u32(&bytes, 40), 32000 + 3840);
    assert_eq!(read_u32(&bytes, 44), (15 << 19) + 0x40000);
    assert_eq!(read_u32(&bytes, 48), 0x40000000);
    assert_eq!(read_u32(&bytes, 52), bytes.len() as u32 - 48);
}

#[test]
fn encode_to_binary_with_no_peaks_is_the_header() {
    let sig = DecodedSignature {
        sample_rate_hz: 16000,
        number_samples: 32000,
        frequency_band_to_sound_peaks: HashMap::new(),
    };
    let bytes = sig.encode_to_binary();
    assert_eq!(
        bytes,
        vec![
            128, 37, 254, 202, 104, 162, 197, 230, 8, 0, 0, 0, 0, 156, 17, 148, 0, 0, 0, 0, 0, 0,
            0, 0, 0, 0, 0, 0, 0, 0, 0, 24, 0, 0, 0, 0, 0, 0, 0, 0, 0, 140, 0, 0, 0, 0, 124, 0, 0,
            0, 0, 64, 8, 0, 0, 0
        ]
    );
}

#[test]
fn encode_to_binary_records_each_sample_rate() {
    let rates: [(u32, u32); 6] = [
        (8000, 1),
        (11025, 2),
        (16000, 3),
        (32000, 4),
        (44100, 5),
        (48000, 6),
    ];
    for (rate, code) in rates {
        let sig = DecodedSignature {
            sample_rate_hz: rate,
            number_samples: 1000,
            frequency_band_to_sound_peaks: HashMap::new(),
        };
        let bytes = sig.encode_to_binary();
        assert_eq!(read_u32(&bytes, 28), code << 27);
        // The lead-in is the float expression of the wire format.
        let lead_in = (rate as f32 * 0.24) as u32;
        assert_eq!(read_u32(&bytes, 40), 1000 + lead_in);
    }
}

#[test]
fn encode_to_binary_pads_band_chunks() {
    let mut bands = HashMap::new();
    bands.insert(FrequencyBand::_3500_5500.id(), vec![peak(3, 1, 2)]);
    let sig = DecodedSignature {
        sample_rate_hz: 8000,
        number_samples: 0,
        frequency_band_to_sound_peaks: bands,
    };
    let bytes = sig.encode_to_binary();
    assert_eq!(bytes.len(), 56 + 8 + 8);
    assert_eq!(read_u32(&bytes, 56), 0x60030043);
    assert_eq!(read_u32(&bytes, 60), 5);
    assert_eq!(&bytes[64..72], &[3, 1, 0, 2, 0, 0, 0, 0]);
}

#[test]
fn encode_to_binary_escapes_long_gaps() {
    let mut bands = HashMap::new();
    bands.insert(0u8, vec![peak(254, 1, 1), peak(509, 2, 2)]);
    let sig = DecodedSignature {
        sample_rate_hz: 48000,
        number_samples: 0,
        frequency_band_to_sound_peaks: bands,
    };
    let bytes = sig.encode_to_binary();
    // 254 fits in the offset byte; 509 - 254 = 255 does not.
    assert_eq!(read_u32(&bytes, 60), 5 + 10);
    assert_eq!(&bytes[64..79], &[254, 1, 0, 1, 0, 255, 253, 1, 0, 0, 0, 2, 0, 2, 0]);
}

#[test]
fn encode_to_uri_is_prefix_and_base64() {
    let uri = sample_signature().encode_to_uri();
    assert_eq!(
        uri,
        "data:audio/vnd.shazam.sig;base64,gCX+yjJCVJc0AAAAAJwRlAAAAAAAAAAAAAAAAAAAABgAAAAAAAAAAACMAAAAAHwAAAAAQDQAAABAAANgBQAAAAAHAAgAAAAAQQADYBQAAAAK9AEsAQD1AS0B/ywBAAAAAgADAA=="
    );
}

#[test]
fn frequency_band_ids_follow_their_order() {
    let bands = [
        FrequencyBand::_250_520,
        FrequencyBand::_520_1450,
        FrequencyBand::_1450_3500,
        FrequencyBand::_3500_5500,
    ];
    for (i, band) in bands.iter().enumerate() {
        assert_eq!(band.id() as usize, i);
    }
    assert!(FrequencyBand::_250_520 < FrequencyBand::_3500_5500);
    assert!(FrequencyBand::_1450_3500 > FrequencyBand::_520_1450);
}

/// Reads band chunks back: (tag, [(pass, magnitude, bin)]) for each chunk.
fn read_chunks(body: &[u8]) -> Vec<(u32, Vec<(u32, u16, u16)>)> {
    let mut out = Vec::new();
    let mut at = 0;
    while at < body.len() {
        let tag = read_u32(body, at);
        let n = read_u32(body, at + 4) as usize;
        let records = &body[at + 8..at + 8 + n];
        let mut peaks = Vec::new();
        let mut prev = 0u32;
        let mut i = 0;
        while i < records.len() {
            if records[i] == 0xff {
                prev = read_u32(records, i + 1);
                i += 5;
            }
            let pass = prev + records[i] as u32;
            let magnitude = u16::from_le_bytes([records[i + 1], records[i + 2]]);
            let bin = u16::from_le_bytes([records[i + 3], records[i + 4]]);
            peaks.push((pass, magnitude, bin));
            prev = pass;
            i += 5;
        }
        out.push((tag, peaks));
        at += 8 + n + (4 - n % 4) % 4;
    }
    out
}

#[test]
fn encoded_chunks_read_back_as_the_peaks() {
    let bytes = sample_signature().encode_to_binary();
    assert_eq!(
        read_chunks(&bytes[56..]),
        vec![
            (0x60030040, vec![(0, 7, 8)]),
            (0x60030041, vec![(10, 500, 300), (10, 501, 301), (300, 2, 3)]),
        ]
    );
}
