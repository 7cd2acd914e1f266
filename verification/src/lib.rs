//! # shazamio-core
//!
//! Audio fingerprint signatures in Shazam's format: the binary wire encoding
//! of detected frequency peaks, its URI form, and the request payload that
//! carries it. The contracts of the library are proved with Verus.

pub mod errors;
pub mod fingerprinting;
pub mod params;
pub mod response;
pub mod utils;

pub use crate::errors::SignatureError;
pub use crate::params::SearchParams;
pub use crate::response::{Geolocation, Signature, SignatureSong};

use vstd::prelude::*;
use crate::fingerprinting::communication;
use crate::fingerprinting::communication::is_payload_at;
use crate::fingerprinting::signature_format::DecodedSignature;
use crate::params::{segment_duration_or_default, DEFAULT_SEGMENT_DURATION_SECONDS};
use crate::utils::{convert_signature, converted, unwrap_decoded_signature};

verus! {

/// Generates signatures. It holds only the segment duration used when a
/// call gives no [`SearchParams`] of its own.
#[derive(Clone)]
pub struct Recognizer {
    segment_duration_seconds: u32,
}

impl Recognizer {
    /// The segment duration, in seconds, used when a call gives none.
    pub closed spec fn segment_duration(&self) -> u32 {
        self.segment_duration_seconds
    }

    /// Creates a `Recognizer`; the segment duration defaults to 10 seconds.
    pub fn new(segment_duration_seconds: Option<u32>) -> (r: Self)
        ensures
            r.segment_duration() == segment_duration_or_default(segment_duration_seconds),
            segment_duration_seconds matches Some(d) ==> r.segment_duration() == d,
            segment_duration_seconds is None ==> r.segment_duration() == 10,
    {
        let duration = match segment_duration_seconds {
            Some(d) => d,
            None => DEFAULT_SEGMENT_DURATION_SECONDS,
        };
        Self { segment_duration_seconds: duration }
    }

    /// The parameters a recognition runs with: those given, or else this
    /// recognizer's segment duration.
    pub fn search_params(&self, options: Option<SearchParams>) -> (r: SearchParams)
        ensures
            r.segment_duration_seconds == match options {
                Some(o) => o.segment_duration_seconds,
                None => self.segment_duration(),
            },
    {
        match options {
            Some(o) => o,
            None => SearchParams::new(Some(self.segment_duration_seconds)),
        }
    }

    /// What a recognition returns, given what fingerprinting the audio gave:
    /// a failure of fingerprinting becomes an error with its message;
    /// otherwise the fingerprint is finalized into a payload stamped with
    /// the current time and converted into a [`Signature`].
    pub fn finish_recognition(generated: Result<DecodedSignature, String>) -> (r: Result<
        Signature,
        SignatureError,
    >)
        requires
            generated matches Ok(d) ==> d.encodable() && d.uri_fits(),
        ensures
            generated matches Err(m) ==> r matches Err(e) && e.message() == m@,
            generated matches Ok(d) ==> (r matches Ok(s) ==> exists|timestamp_ms: u128, p: communication::Signature|
                #[trigger] is_payload_at(&d, timestamp_ms, p) && s == converted(p)),
    {
        match generated {
            Err(message) => Err(SignatureError::new(message)),
            Ok(data) => {
                let ghost d = data;
                match unwrap_decoded_signature(data) {
                    Ok(p) => {
                        let ghost q = p;
                        let s = convert_signature(p);
                        assert(exists|timestamp_ms: u128| is_payload_at(&d, timestamp_ms, q));
                        Ok(s)
                    },
                    Err(e) => Err(e),
                }
            },
        }
    }
}

} // verus!
