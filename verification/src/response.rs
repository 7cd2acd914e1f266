//! The public signature types returned by a recognition.

use vstd::prelude::*;

verus! {

/// A placeholder geolocation attached to every generated [`Signature`]:
/// the discovery API expects a location in each request, and a fixed one is
/// sent.
#[derive(Clone, Debug)]
pub struct Geolocation {
    /// Altitude in meters.
    pub altitude: i16,
    /// Latitude in degrees.
    pub latitude: i8,
    /// Longitude in degrees.
    pub longitude: i8,
}

/// The encoded audio fingerprint and sample metadata for a [`Signature`].
#[derive(Clone, Debug)]
pub struct SignatureSong {
    /// Duration of the fingerprinted segment, in milliseconds.
    pub samples: u32,
    /// Unix timestamp (milliseconds, truncated to 32 bits) at which the
    /// signature was generated.
    pub timestamp: u32,
    /// The fingerprint itself, as a `data:audio/vnd.shazam.sig;base64,...` URI.
    pub uri: String,
}

/// A complete audio signature, the payload that identifies a track.
#[derive(Clone, Debug)]
pub struct Signature {
    /// Placeholder location sent alongside the fingerprint.
    pub geolocation: Geolocation,
    /// The encoded audio fingerprint.
    pub signature: SignatureSong,
    /// Unix timestamp (milliseconds, truncated to 32 bits) at which the
    /// signature was generated.
    pub timestamp: u32,
    /// IANA timezone name sent alongside the fingerprint.
    pub timezone: String,
}

impl Geolocation {
    /// Creates a `Geolocation` from its components.
    pub fn new(altitude: i16, latitude: i8, longitude: i8) -> (r: Self)
        ensures
            r.altitude == altitude,
            r.latitude == latitude,
            r.longitude == longitude,
    {
        Self { altitude, latitude, longitude }
    }
}

impl SignatureSong {
    /// Creates a `SignatureSong` from its components.
    pub fn new(samples: u32, timestamp: u32, uri: String) -> (r: Self)
        ensures
            r.samples == samples,
            r.timestamp == timestamp,
            r.uri == uri,
    {
        Self { samples, timestamp, uri }
    }
}

impl Signature {
    /// Creates a `Signature` from its components.
    pub fn new(geolocation: Geolocation, signature: SignatureSong, timestamp: u32, timezone: String) -> (r: Self)
        ensures
            r.geolocation == geolocation,
            r.signature == signature,
            r.timestamp == timestamp,
            r.timezone == timezone,
    {
        Self { geolocation, signature, timestamp, timezone }
    }
}

} // verus!
