//! Turning a fingerprint into the public [`Signature`] type.

use vstd::prelude::*;
use crate::errors::SignatureError;
use crate::fingerprinting::communication;
use crate::fingerprinting::communication::{get_signature_json, is_payload_at};
use crate::fingerprinting::signature_format::DecodedSignature;
use crate::response::{Geolocation, Signature, SignatureSong};

verus! {

/// The public signature that carries the same fields as the payload `p`.
pub open spec fn converted(p: communication::Signature) -> Signature {
    Signature {
        geolocation: Geolocation {
            altitude: p.geolocation.altitude,
            latitude: p.geolocation.latitude,
            longitude: p.geolocation.longitude,
        },
        signature: SignatureSong {
            samples: p.signature.samples,
            timestamp: p.signature.timestamp,
            uri: p.signature.uri,
        },
        timestamp: p.timestamp,
        timezone: p.timezone,
    }
}

/// Conversion moves every field of the payload to the same field of the
/// public signature: nothing is dropped, swapped or changed.
pub proof fn lemma_converted_keeps_fields(p: communication::Signature)
    ensures
        converted(p).geolocation.altitude == p.geolocation.altitude,
        converted(p).geolocation.latitude == p.geolocation.latitude,
        converted(p).geolocation.longitude == p.geolocation.longitude,
        converted(p).signature.samples == p.signature.samples,
        converted(p).signature.timestamp == p.signature.timestamp,
        converted(p).signature.uri@ == p.signature.uri@,
        converted(p).timestamp == p.timestamp,
        converted(p).timezone@ == p.timezone@,
{
}

/// Converts a request payload into the public [`Signature`] type, field for
/// field.
pub fn convert_signature(signature: communication::Signature) -> (r: Signature)
    ensures
        r == converted(signature),
        r.geolocation.altitude == signature.geolocation.altitude,
        r.geolocation.latitude == signature.geolocation.latitude,
        r.geolocation.longitude == signature.geolocation.longitude,
        r.signature.samples == signature.signature.samples,
        r.signature.timestamp == signature.signature.timestamp,
        r.signature.uri@ == signature.signature.uri@,
        r.timestamp == signature.timestamp,
        r.timezone@ == signature.timezone@,
{
    Signature::new(
        Geolocation::new(
            signature.geolocation.altitude,
            signature.geolocation.latitude,
            signature.geolocation.longitude,
        ),
        SignatureSong::new(
            signature.signature.samples,
            signature.signature.timestamp,
            signature.signature.uri,
        ),
        signature.timestamp,
        signature.timezone,
    )
}

/// Finalizes a fingerprint into the request payload, stamped with the
/// current time. It fails, carrying the clock's message, only when the
/// system clock stands before the Unix epoch.
pub fn unwrap_decoded_signature(data: DecodedSignature) -> (r: Result<
    communication::Signature,
    SignatureError,
>)
    requires
        data.encodable(),
        data.uri_fits(),
    ensures
        r matches Ok(p) ==> exists|timestamp_ms: u128| #[trigger] is_payload_at(&data, timestamp_ms, p),
{
    match get_signature_json(&data) {
        Ok(payload) => {
            let ghost made = payload;
            let r: Result<communication::Signature, SignatureError> = Ok(payload);
            assert(r->Ok_0 == made);
            r
        },
        Err(message) => Err(SignatureError::new(message)),
    }
}

} // verus!
