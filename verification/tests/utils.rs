use std::collections::HashMap;

use shazamio_core::fingerprinting::communication;
use shazamio_core::fingerprinting::signature_format::DecodedSignature;
use shazamio_core::utils::{convert_signature, unwrap_decoded_signature};

#[test]
fn convert_signature_maps_all_fields() {
    let comm_signature = communication::Signature {
        geolocation: communication::GeolocationResponse {
            altitude: 300,
            latitude: 45,
            longitude: 2,
        },
        signature: communication::SignatureSong {
            samples: 10000,
            timestamp: 1700000000,
            uri: "data:audio/vnd.shazam.sig;base64,AA==".to_string(),
        },
        timestamp: 1700000000,
        timezone: "Europe/Paris".to_string(),
    };

    let signature = convert_signature(comm_signature);

    assert_eq!(signature.geolocation.altitude, 300);
    assert_eq!(signature.geolocation.latitude, 45);
    assert_eq!(signature.geolocation.longitude, 2);
    assert_eq!(signature.signature.samples, 10000);
    assert_eq!(
        signature.signature.uri,
        "data:audio/vnd.shazam.sig;base64,AA=="
    );
    assert_eq!(signature.timestamp, 1700000000);
    assert_eq!(signature.timezone, "Europe/Paris");
}

#[test]
fn unwrap_decoded_signature_builds_valid_uri_and_sample_duration() {
    let decoded = DecodedSignature {
        sample_rate_hz: 16000,
        number_samples: 32000,
        frequency_band_to_sound_peaks: HashMap::new(),
    };

    let comm_signature = unwrap_decoded_signature(decoded).unwrap();

    assert!(
        comm_signature
            .signature
            .uri
            .starts_with("data:audio/vnd.shazam.sig;base64,")
    );
    // 32000 samples at 16 kHz is 2000 ms.
    assert_eq!(comm_signature.signature.samples, 2000);
}

#[test]
fn unwrap_decoded_signature_fills_the_fixed_fields() {
    let decoded = DecodedSignature {
        sample_rate_hz: 44100,
        number_samples: 441,
        frequency_band_to_sound_peaks: HashMap::new(),
    };

    let p = unwrap_decoded_signature(decoded).unwrap();

    assert_eq!(p.geolocation.altitude, 300);
    assert_eq!(p.geolocation.latitude, 45);
    assert_eq!(p.geolocation.longitude, 2);
    assert_eq!(p.timezone, "Europe/Paris");
    assert_eq!(p.signature.samples, 10);
    assert_eq!(p.signature.timestamp, p.timestamp);
}
