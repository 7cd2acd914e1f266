use std::collections::HashMap;

use shazamio_core::fingerprinting::signature_format::DecodedSignature;
use shazamio_core::{Recognizer, SearchParams};

#[test]
fn recognizer_uses_its_own_duration_without_options() {
    let recognizer = Recognizer::new(Some(12));
    assert_eq!(recognizer.search_params(None).segment_duration_seconds, 12);
    let given = SearchParams::new(Some(3));
    assert_eq!(recognizer.search_params(Some(given)).segment_duration_seconds, 3);
}

#[test]
fn recognizer_defaults_to_ten_seconds() {
    let recognizer = Recognizer::new(None);
    assert_eq!(recognizer.search_params(None).segment_duration_seconds, 10);
}

#[test]
fn finish_recognition_reports_a_failed_fingerprint() {
    let r = Recognizer::finish_recognition(Err("cannot decode".to_string()));
    match r {
        Err(e) => assert_eq!(e.to_string(), "cannot decode"),
        Ok(_) => panic!("expected an error"),
    }
}

#[test]
fn finish_recognition_converts_the_payload() {
    let decoded = DecodedSignature {
        sample_rate_hz: 16000,
        number_samples: 16000,
        frequency_band_to_sound_peaks: HashMap::new(),
    };
    let sig = Recognizer::finish_recognition(Ok(decoded)).unwrap();
    assert_eq!(sig.signature.samples, 1000);
    assert_eq!(sig.geolocation.altitude, 300);
    assert_eq!(sig.timezone, "Europe/Paris");
    assert!(sig.signature.uri.starts_with("data:audio/vnd.shazam.sig;base64,"));
}
