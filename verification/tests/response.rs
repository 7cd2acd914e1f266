use shazamio_core::{Geolocation, Signature, SignatureSong};

#[test]
fn can_create_signature_structs() {
    let geo = Geolocation::new(100, 10, 20);
    let song = SignatureSong::new(1024, 123, "test://uri".to_string());
    let sig = Signature::new(geo, song, 456, "UTC".to_string());

    assert_eq!(sig.timestamp, 456);
    assert_eq!(sig.timezone, "UTC");
    assert_eq!(sig.signature.samples, 1024);
}

#[test]
fn signature_structs_keep_every_field() {
    let geo = Geolocation::new(-5, -90, 127);
    let song = SignatureSong::new(7, 8, "u".to_string());
    let sig = Signature::new(geo, song, 9, "Asia/Tokyo".to_string());

    assert_eq!(sig.geolocation.altitude, -5);
    assert_eq!(sig.geolocation.latitude, -90);
    assert_eq!(sig.geolocation.longitude, 127);
    assert_eq!(sig.signature.timestamp, 8);
    assert_eq!(sig.signature.uri, "u");
    assert_eq!(sig.timezone, "Asia/Tokyo");
}
