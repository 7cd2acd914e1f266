//! The request payload that carries a signature to the discovery API.

use std::time::{Duration, SystemTime, SystemTimeError, UNIX_EPOCH};
use vstd::prelude::*;
use crate::fingerprinting::signature_format::{
    base64_standard, data_uri_prefix, is_supported_sample_rate, DecodedSignature,
};

verus! {

/// The fixed location sent with every request.
pub struct GeolocationResponse {
    /// Altitude in meters.
    pub altitude: i16,
    /// Latitude in degrees.
    pub latitude: i8,
    /// Longitude in degrees.
    pub longitude: i8,
}

/// The fingerprint part of the payload.
pub struct SignatureSong {
    /// Duration of the fingerprinted audio, in milliseconds.
    pub samples: u32,
    /// Milliseconds since the Unix epoch, truncated to 32 bits.
    pub timestamp: u32,
    /// The signature in URI form.
    pub uri: String,
}

/// The payload sent to identify a track.
pub struct Signature {
    /// The fixed location.
    pub geolocation: GeolocationResponse,
    /// The fingerprint.
    pub signature: SignatureSong,
    /// Milliseconds since the Unix epoch, truncated to 32 bits.
    pub timestamp: u32,
    /// The timezone sent with the request.
    pub timezone: String,
}

/// The whole milliseconds of audio in `number_samples` samples at `rate` Hz.
pub open spec fn duration_ms(number_samples: u32, rate: u32) -> int {
    number_samples * 1000 / (rate as int)
}

/// `p` is the payload for `sig` made at `timestamp_ms` milliseconds since
/// the Unix epoch: the fixed location (altitude 300, latitude 45,
/// longitude 2) and timezone `Europe/Paris`, the audio's duration, the
/// timestamp truncated to 32 bits (twice), and the signature's URI form.
pub open spec fn is_payload_at(sig: &DecodedSignature, timestamp_ms: u128, p: Signature) -> bool {
    &&& p.geolocation.altitude == 300
    &&& p.geolocation.latitude == 45
    &&& p.geolocation.longitude == 2
    &&& p.signature.samples == duration_ms(sig.number_samples, sig.sample_rate_hz)
    &&& p.signature.timestamp == timestamp_ms as u32
    &&& p.signature.uri@ == data_uri_prefix() + base64_standard(sig.encoded())
    &&& p.timestamp == timestamp_ms as u32
    &&& p.timezone@ == "Europe/Paris"@
}

/// The system clock's time, as `std::time` represents it.
#[verifier::external_type_specification]
#[verifier::external_body]
pub struct ExSystemTime(SystemTime);

/// The error `SystemTime::duration_since` returns for a time before the
/// reference point.
#[verifier::external_type_specification]
#[verifier::external_body]
pub struct ExSystemTimeError(SystemTimeError);

/// Calls `SystemTime::now`. Nothing is claimed of the result: it is the
/// current time.
#[verifier::external_body]
fn system_time_now() -> (r: SystemTime) {
    SystemTime::now()
}

/// Calls `SystemTime::duration_since` with `UNIX_EPOCH`. Nothing is claimed
/// of the result; the contract leaves unsaid that it fails exactly when
/// `time` stands before the epoch, as `SystemTime` is opaque here.
#[verifier::external_body]
fn duration_since_unix_epoch(time: &SystemTime) -> (r: Result<Duration, SystemTimeError>) {
    time.duration_since(UNIX_EPOCH)
}

/// Calls `Duration::as_millis`. Nothing is claimed of the result, as
/// `Duration` is opaque here; it is the whole milliseconds of `d`.
#[verifier::external_body]
fn whole_millis(d: &Duration) -> (r: u128) {
    d.as_millis()
}

/// Calls `to_string` on the clock's error. Nothing is claimed of the
/// message.
#[verifier::external_body]
fn time_error_message(e: &SystemTimeError) -> (r: String) {
    e.to_string()
}

/// Builds the payload for `sig` as made at `timestamp_ms` milliseconds
/// since the Unix epoch.
pub fn signature_at(sig: &DecodedSignature, timestamp_ms: u128) -> (r: Signature)
    requires
        sig.encodable(),
        sig.uri_fits(),
    ensures
        is_payload_at(sig, timestamp_ms, r),
{
    let rate = sig.sample_rate_hz;
    assert(is_supported_sample_rate(rate));
    let scaled: u64 = (sig.number_samples as u64) * 1000;
    let samples: u64 = scaled / (rate as u64);
    assert(samples <= u32::MAX) by (nonlinear_arith)
        requires
            samples as int == scaled as int / rate as int,
            scaled as int == sig.number_samples as int * 1000,
            rate >= 8000,
            sig.number_samples <= u32::MAX,
    ;
    let timestamp = timestamp_ms as u32;
    Signature {
        geolocation: GeolocationResponse { altitude: 300, latitude: 45, longitude: 2 },
        signature: SignatureSong {
            samples: samples as u32,
            timestamp,
            uri: sig.encode_to_uri(),
        },
        timestamp,
        timezone: String::from_str("Europe/Paris"),
    }
}

/// Builds the payload for `sig` as made now. It fails, with the clock's
/// message, only when the system clock stands before the Unix epoch.
pub fn get_signature_json(sig: &DecodedSignature) -> (r: Result<Signature, String>)
    requires
        sig.encodable(),
        sig.uri_fits(),
    ensures
        r matches Ok(p) ==> exists|timestamp_ms: u128| #[trigger] is_payload_at(sig, timestamp_ms, p),
{
    let now = system_time_now();
    match duration_since_unix_epoch(&now) {
        Ok(elapsed) => {
            let payload = signature_at(sig, whole_millis(&elapsed));
            let ghost made = payload;
            let r: Result<Signature, String> = Ok(payload);
            assert(r->Ok_0 == made);
            r
        },
        Err(e) => Err(time_error_message(&e)),
    }
}

} // verus!
