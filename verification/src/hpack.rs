//! HPACK header compression (RFC 7541) as an external collaborator: the
//! `fluke_hpack` crate does the encoding and decoding, and each side's
//! dynamic table is scoped one-to-one to a connection's lifetime. Header
//! bytes cross this boundary opaque — the codec itself never calls it.

use vstd::prelude::*;

verus! {

/// A decoded HTTP/2 header: one name/value pair.
#[derive(Debug, Clone, PartialEq)]
pub struct H2Header {
    pub name: String,
    pub value: String,
}

impl H2Header {
    /// A header with the given name and value.
    pub fn new(name: &str, value: &str) -> (r: Self)
        ensures
            r.name@ == name@,
            r.value@ == value@,
    {
        H2Header { name: name.to_string(), value: value.to_string() }
    }
}

/// The `fluke_hpack` decoder type, opaque to this crate's reasoning.
#[verifier::external_type_specification]
#[verifier::external_body]
pub struct ExFlukeDecoder<'a>(fluke_hpack::Decoder<'a>);

/// The `fluke_hpack` encoder type, opaque to this crate's reasoning.
#[verifier::external_type_specification]
#[verifier::external_body]
pub struct ExFlukeEncoder<'a>(fluke_hpack::Encoder<'a>);

/// HPACK decoder for a connection's header blocks. Wraps
/// `fluke_hpack::Decoder`, which keeps the dynamic-table state between
/// blocks of the same connection.
pub struct HpackDecoder {
    inner: fluke_hpack::Decoder<'static>,
}

impl HpackDecoder {
    /// Relies on `fluke_hpack::Decoder::new`: a fresh decoder holding the
    /// HPACK static table and an empty dynamic table.
    #[verifier::external_body]
    pub fn new() -> Self {
        HpackDecoder { inner: fluke_hpack::Decoder::new() }
    }

    /// Decode an HPACK-encoded header block into its name/value pairs, in
    /// order. Relies on `fluke_hpack::Decoder::decode`; the pairs depend on
    /// the decoder's dynamic-table state as well as on the bytes, so nothing
    /// is promised of what comes back — callers treat every outcome.
    #[verifier::external_body]
    pub fn decode(&mut self, data: &[u8]) -> Result<Vec<H2Header>, String> {
        let pairs = self.inner.decode(data).map_err(
            |e| format!("HPACK decode error: {:?}", e),
        )?;
        Ok(
            pairs.into_iter().map(
                |(name, value)|
                    H2Header {
                        name: String::from_utf8_lossy(&name).into_owned(),
                        value: String::from_utf8_lossy(&value).into_owned(),
                    },
            ).collect(),
        )
    }
}

impl Default for HpackDecoder {
    fn default() -> Self {
        Self::new()
    }
}

/// HPACK encoder for a connection's header blocks. Wraps
/// `fluke_hpack::Encoder`, which keeps the dynamic-table state between
/// blocks of the same connection.
pub struct HpackEncoder {
    inner: fluke_hpack::Encoder<'static>,
}

impl HpackEncoder {
    /// Relies on `fluke_hpack::Encoder::new`: a fresh encoder holding the
    /// HPACK static table and an empty dynamic table.
    #[verifier::external_body]
    pub fn new() -> Self {
        HpackEncoder { inner: fluke_hpack::Encoder::new() }
    }

    /// Encode headers into an HPACK header block. Relies on
    /// `fluke_hpack::Encoder::encode`; the bytes depend on the encoder's
    /// dynamic-table state as well as on the headers, so nothing is promised
    /// of them beyond what a decoder paired with this encoder makes of them.
    #[verifier::external_body]
    pub fn encode(&mut self, headers: &[H2Header]) -> Vec<u8> {
        let pairs: Vec<(&[u8], &[u8])> = headers.iter().map(
            |h| (h.name.as_bytes(), h.value.as_bytes()),
        ).collect();
        self.inner.encode(pairs)
    }
}

impl Default for HpackEncoder {
    fn default() -> Self {
        Self::new()
    }
}

} // verus!
