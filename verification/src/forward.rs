//! The proxy forwarder: building the upstream request URL, judging the
//! upstream status, and decoding an index response body according to its
//! declared content type and encoding.

use vstd::prelude::*;

use crate::errors::ServiceError;
use std::io::Read;
use vstd::utf8::{decode_utf8, valid_utf8};

verus! {

/// The only index media type this proxy accepts from upstream.
pub fn supported_content_type() -> (r: String)
    ensures
        r@ == "application/vnd.pypi.simple.v1+json"@,
{
    String::from_str("application/vnd.pypi.simple.v1+json")
}

/// The upstream URL for an inbound path and query:
/// `https://{pypi_index}/simple{path_and_query}`. The caller also sets the
/// outbound `Host` header to `pypi_index`.
pub fn build_upstream_url(pypi_index: &String, path_and_query: &String) -> (r: String)
    ensures
        r@ == "https://"@ + pypi_index@ + "/simple"@ + path_and_query@,
{
    let mut r = String::from_str("https://");
    r.append(pypi_index.as_str());
    r.append("/simple");
    r.append(path_and_query.as_str());
    proof {
        assert(r@ =~= "https://"@ + pypi_index@ + "/simple"@ + path_and_query@);
    }
    r
}

/// Judge the upstream status for a package request: success passes, 404
/// names the missing package, and any other status is surfaced as-is.
pub fn check_upstream_status(status: u16, package: &String) -> (r: Result<(), ServiceError>)
    ensures
        (r is Ok) == (200 <= status < 300),
        status == 404 ==> (r matches Err(ServiceError::PackageNotFound { package: p }) && p@
            == package@),
        !(200 <= status < 300) && status != 404 ==> (r matches Err(
            ServiceError::UpstreamStatus { status: s },
        ) && s == status),
{
    if 200 <= status && status < 300 {
        Ok(())
    } else if status == 404 {
        Err(ServiceError::PackageNotFound { package: package.clone() })
    } else {
        Err(ServiceError::UpstreamStatus { status })
    }
}

/// What one gzip member decompresses and UTF-8-decodes to, or `None`
/// when the bytes are not one well-formed gzip member whose content is
/// valid UTF-8; a function of the compressed bytes alone.
pub uninterp spec fn gunzip_result_of(bytes: Seq<u8>) -> Option<Seq<char>>;

/// Relies on `flate2::read::GzDecoder` driven by `std::io::Read::read_to_string`:
/// decompression is deterministic, so both whether the call succeeds and
/// the text it yields are functions of the input bytes alone; any
/// decompression or decoding failure reports `None`, and never panics.
#[verifier::external_body]
fn gunzip_to_text(body: &Vec<u8>) -> (r: Option<String>)
    ensures
        r.deep_view() == gunzip_result_of(body@),
{
    let mut decoder = flate2::read::GzDecoder::new(body.as_slice());
    let mut text = String::new();
    match decoder.read_to_string(&mut text) {
        Ok(_) => Some(text),
        Err(_) => None,
    }
}

/// Relies on `String::from_utf8`: it succeeds exactly on valid UTF-8 and
/// returns the decoded characters.
#[verifier::external_body]
fn bytes_to_text(body: Vec<u8>) -> (r: Option<String>)
    ensures
        (r is Some) == valid_utf8(body@),
        r matches Some(s) ==> s@ == decode_utf8(body@),
{
    String::from_utf8(body).ok()
}

/// Is this the content type the proxy supports?
pub open spec fn spec_content_type_ok(content_type: Option<Seq<char>>) -> bool {
    content_type == Some("application/vnd.pypi.simple.v1+json"@)
}

/// Decode an upstream index response body into text.
///
/// The content type must be exactly the PEP 691 JSON media type; any other
/// value, absent included, is a protocol failure. A `gzip` content
/// encoding is decompressed, any other declared encoding is refused, and
/// an absent one means the body is already text.
pub fn decode_index_body(
    content_type: &Option<String>,
    content_encoding: &Option<String>,
    body: Vec<u8>,
) -> (r: Result<String, ServiceError>)
    ensures
        !spec_content_type_ok(content_type.deep_view()) ==> (r matches Err(
            ServiceError::UpstreamProtocol { message },
        ) && message@
            == "This index only supports pep_691 client requests. TIP: are you using the latest pip version?"@),
        spec_content_type_ok(content_type.deep_view()) && content_encoding is None ==> {
            &&& valid_utf8(body@) ==> (r matches Ok(s) && s@ == decode_utf8(body@))
            &&& !valid_utf8(body@) ==> (r matches Err(ServiceError::UpstreamProtocol { message })
                && message@ == "Upstream response was not valid UTF-8"@)
        },
        spec_content_type_ok(content_type.deep_view()) && content_encoding.deep_view() == Some(
            "gzip"@,
        ) ==> {
            &&& (r is Ok) == (gunzip_result_of(body@) is Some)
            &&& r matches Ok(s) ==> Some(s@) == gunzip_result_of(body@)
            &&& r matches Err(e) ==> (e matches ServiceError::UpstreamProtocol { message }
                && message@ == "Upstream response was not valid gzip"@)
        },
        spec_content_type_ok(content_type.deep_view()) && (content_encoding matches Some(enc)
            && enc@ != "gzip"@) ==> (r matches Err(ServiceError::UpstreamProtocol { message })
            && message@ == "Unsupported upstream content encoding"@),
{
    let ok = match content_type {
        Some(ct) => {
            let supported = supported_content_type();
            crate::text::str_eq(ct.as_str(), supported.as_str())
        },
        None => false,
    };
    if !ok {
        return Err(
            ServiceError::UpstreamProtocol {
                message: String::from_str(
                    "This index only supports pep_691 client requests. TIP: are you using the latest pip version?",
                ),
            },
        );
    }
    match content_encoding {
        None => match bytes_to_text(body) {
            Some(text) => Ok(text),
            None => Err(
                ServiceError::UpstreamProtocol {
                    message: String::from_str("Upstream response was not valid UTF-8"),
                },
            ),
        },
        Some(enc) => {
            if crate::text::str_eq(enc.as_str(), "gzip") {
                match gunzip_to_text(&body) {
                    Some(text) => Ok(text),
                    None => Err(
                        ServiceError::UpstreamProtocol {
                            message: String::from_str("Upstream response was not valid gzip"),
                        },
                    ),
                }
            } else {
                Err(
                    ServiceError::UpstreamProtocol {
                        message: String::from_str("Unsupported upstream content encoding"),
                    },
                )
            }
        },
    }
}

} // verus!
