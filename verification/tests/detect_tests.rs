use unpdf::detect::{detect_format_from_bytes, is_pdf_bytes, is_valid_version};
use unpdf::error::Error;

#[test]
fn test_detect_valid_pdf() {
    let data = b"%PDF-1.7\n%\xe2\xe3\xcf\xd3";
    let format = detect_format_from_bytes(data).unwrap();
    assert_eq!(format.version, "1.7");
}

#[test]
fn test_detect_pdf_2_0() {
    let data = b"%PDF-2.0\n%\xe2\xe3\xcf\xd3";
    let format = detect_format_from_bytes(data).unwrap();
    assert_eq!(format.version, "2.0");
}

#[test]
fn test_detect_invalid_format() {
    let data = b"<!DOCTYPE html>";
    let result = detect_format_from_bytes(data);
    assert!(matches!(result, Err(Error::UnknownFormat)));
}

#[test]
fn test_detect_too_short() {
    let data = b"%PDF";
    let result = detect_format_from_bytes(data);
    assert!(matches!(result, Err(Error::UnknownFormat)));
}

#[test]
fn detect_test_is_pdf_bytes() {
    assert!(is_pdf_bytes(b"%PDF-1.4\n"));
    assert!(!is_pdf_bytes(b"Not a PDF"));
}

#[test]
fn test_version_validation() {
    assert!(is_valid_version("1.0"));
    assert!(is_valid_version("1.7"));
    assert!(is_valid_version("2.0"));
    assert!(!is_valid_version("10.0"));
    assert!(!is_valid_version("abc"));
}

#[test]
fn test_detect_format_empty_data() {
    let data: [u8; 0] = [];
    let result = detect_format_from_bytes(&data);
    assert!(result.is_err());
    assert!(matches!(result, Err(Error::UnknownFormat)));
}

#[test]
fn test_detect_format_too_short() {
    let data = b"%PDF-";
    let result = detect_format_from_bytes(data);
    assert!(result.is_err());
    assert!(matches!(result, Err(Error::UnknownFormat)));
}

#[test]
fn test_detect_format_unknown_magic() {
    let data = b"<!DOCTYPE html><html></html>";
    let result = detect_format_from_bytes(data);
    assert!(result.is_err());
    assert!(matches!(result, Err(Error::UnknownFormat)));
}

#[test]
fn test_detect_valid_pdf_17() {
    let data = b"%PDF-1.7\n%test";
    let format = detect_format_from_bytes(data).unwrap();
    assert_eq!(format.version, "1.7");
}

#[test]
fn test_detect_valid_pdf_20() {
    let data = b"%PDF-2.0\n%test";
    let format = detect_format_from_bytes(data).unwrap();
    assert_eq!(format.version, "2.0");
}

#[test]
fn lib_test_is_pdf_bytes() {
    assert!(is_pdf_bytes(b"%PDF-1.4\ntest"));
    assert!(!is_pdf_bytes(b"Not a PDF file"));
    assert!(!is_pdf_bytes(b""));
}

#[test]
fn detected_format_is_not_linearized() {
    let format = detect_format_from_bytes(b"%PDF-1.7\n...").unwrap();
    assert_eq!(format.version, "1.7");
    assert!(!format.linearized);
}

#[test]
fn malformed_version_is_unsupported() {
    match detect_format_from_bytes(b"%PDF-1x7 rest") {
        Err(Error::UnsupportedVersion(v)) => assert_eq!(v, "1x7"),
        other => panic!("unexpected: {:?}", other),
    }
    match detect_format_from_bytes(b"%PDF-\xff.7 rest") {
        Err(Error::UnsupportedVersion(v)) => assert_eq!(v, "\u{FFFD}.7"),
        other => panic!("unexpected: {:?}", other),
    }
}

#[test]
fn header_needs_digit_dot_digit() {
    assert!(is_pdf_bytes(b"%PDF-0.0"));
    assert!(is_pdf_bytes(b"%PDF-9.9 and more"));
    assert!(!is_pdf_bytes(b"%PDF-1,7"));
    assert!(!is_pdf_bytes(b"%PDF-a.7"));
    assert!(!is_pdf_bytes(b"%PDF-1.b"));
    assert!(!is_pdf_bytes(b"%PDF-1."));
    assert!(!is_pdf_bytes(b"%pdf-1.7"));
    assert!(!is_pdf_bytes(b" %PDF-1.7"));
}
