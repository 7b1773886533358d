use pypi_proxy::errors::ServiceError;
use pypi_proxy::forward::{
    build_upstream_url, check_upstream_status, decode_index_body, supported_content_type,
};
use std::io::Write;

fn gzip(text: &str) -> Vec<u8> {
    let mut encoder = flate2::write::GzEncoder::new(Vec::new(), flate2::Compression::default());
    encoder.write_all(text.as_bytes()).unwrap();
    encoder.finish().unwrap()
}

#[test]
fn test_build_upstream_url() {
    let url = build_upstream_url(&"test.pypi.org".to_string(), &"/numpy/".to_string());
    assert_eq!(url, "https://test.pypi.org/simple/numpy/".to_string());
}

#[test]
fn test_status_success_passes() {
    assert!(check_upstream_status(200, &"numpy".to_string()).is_ok());
    assert!(check_upstream_status(299, &"numpy".to_string()).is_ok());
}

#[test]
fn test_status_not_found_names_package() {
    match check_upstream_status(404, &"numpy".to_string()) {
        Err(ServiceError::PackageNotFound { package }) => {
            assert_eq!(package, "numpy".to_string())
        }
        _ => panic!("expected a package-not-found error"),
    }
    let err = check_upstream_status(404, &"numpy".to_string()).unwrap_err();
    assert_eq!(err.status_code(), 404);
    assert_eq!(err.message(), "Package numpy not found!".to_string());
}

#[test]
fn test_status_other_failures_surface_as_is() {
    match check_upstream_status(503, &"numpy".to_string()) {
        Err(ServiceError::UpstreamStatus { status }) => assert_eq!(status, 503),
        _ => panic!("expected the status to surface"),
    }
    assert_eq!(check_upstream_status(503, &"numpy".to_string()).unwrap_err().status_code(), 503);
}

#[test]
fn test_decode_rejects_wrong_content_type() {
    // An upstream 200 with `Content-Type: text/html` is a 5xx protocol
    // failure citing the content type, without the body being parsed.
    let r = decode_index_body(&Some("text/html".to_string()), &None, b"<html>".to_vec());
    match r {
        Err(err @ ServiceError::UpstreamProtocol { .. }) => {
            assert!(500 <= err.status_code() && err.status_code() <= 599);
            assert!(err.message().contains("only supports"));
        }
        _ => panic!("expected a protocol error"),
    }
}

#[test]
fn test_decode_rejects_absent_content_type() {
    assert!(decode_index_body(&None, &None, b"{}".to_vec()).is_err());
}

#[test]
fn test_decode_plain_body() {
    let ct = Some(supported_content_type());
    let r = decode_index_body(&ct, &None, b"{\"meta\":{}}".to_vec());
    assert_eq!(r.unwrap(), "{\"meta\":{}}".to_string());
}

#[test]
fn test_decode_rejects_invalid_utf8() {
    let ct = Some(supported_content_type());
    let r = decode_index_body(&ct, &None, vec![0xff, 0xfe, 0x00]);
    match r {
        Err(ServiceError::UpstreamProtocol { message }) => {
            assert!(message.contains("UTF-8"))
        }
        _ => panic!("expected a protocol error"),
    }
}

#[test]
fn test_decode_gzip_body() {
    let ct = Some(supported_content_type());
    let body = gzip("{\"name\":\"pkg\"}");
    let r = decode_index_body(&ct, &Some("gzip".to_string()), body);
    assert_eq!(r.unwrap(), "{\"name\":\"pkg\"}".to_string());
}

#[test]
fn test_decode_rejects_corrupt_gzip() {
    let ct = Some(supported_content_type());
    let r = decode_index_body(&ct, &Some("gzip".to_string()), b"not gzip at all".to_vec());
    match r {
        Err(ServiceError::UpstreamProtocol { message }) => assert!(message.contains("gzip")),
        _ => panic!("expected a protocol error"),
    }
}

#[test]
fn test_decode_rejects_other_encoding() {
    let ct = Some(supported_content_type());
    let r = decode_index_body(&ct, &Some("br".to_string()), b"{}".to_vec());
    match r {
        Err(ServiceError::UpstreamProtocol { message }) => {
            assert!(message.contains("encoding"))
        }
        _ => panic!("expected a protocol error"),
    }
}

#[test]
fn test_supported_content_type_value() {
    assert_eq!(supported_content_type(), "application/vnd.pypi.simple.v1+json".to_string());
}
