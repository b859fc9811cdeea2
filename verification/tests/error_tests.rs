use std::io;
use unpdf::error::Error;

#[test]
fn test_error_display() {
    let err = Error::Encrypted;
    assert_eq!(err.to_string(), "Document is encrypted");

    let err = Error::PageOutOfRange(10, 5);
    assert_eq!(
        err.to_string(),
        "Page 10 is out of range (document has 5 pages)"
    );
}

#[test]
fn test_io_error_conversion() {
    let io_err = io::Error::new(io::ErrorKind::NotFound, "file not found");
    let err: Error = io_err.into();
    assert!(matches!(err, Error::Io(_)));
}

#[test]
fn every_error_has_its_message() {
    let io_err = io::Error::new(io::ErrorKind::NotFound, "file not found");
    assert_eq!(Error::Io(io_err).to_string(), "I/O error: file not found");
    assert_eq!(
        Error::UnknownFormat.to_string(),
        "Unknown file format: not a valid PDF"
    );
    assert_eq!(
        Error::UnsupportedVersion("9x9".to_string()).to_string(),
        "Unsupported PDF version: 9x9"
    );
    assert_eq!(
        Error::PdfParse("bad xref".to_string()).to_string(),
        "PDF parsing error: bad xref"
    );
    assert_eq!(Error::InvalidPassword.to_string(), "Invalid password");
    assert_eq!(
        Error::Corrupted("trailer".to_string()).to_string(),
        "Corrupted PDF structure: trailer"
    );
    assert_eq!(
        Error::MissingObject("Root".to_string()).to_string(),
        "Missing required object: Root"
    );
    assert_eq!(
        Error::FontDecode("F1".to_string()).to_string(),
        "Font decoding error: F1"
    );
    assert_eq!(
        Error::ImageExtract("Im0".to_string()).to_string(),
        "Image extraction error: Im0"
    );
    assert_eq!(
        Error::Render("table".to_string()).to_string(),
        "Rendering error: table"
    );
    assert_eq!(
        Error::TextExtract("Page 3".to_string()).to_string(),
        "Text extraction error: Page 3"
    );
    assert_eq!(
        Error::PageOutOfRange(0, 4294967295).to_string(),
        "Page 0 is out of range (document has 4294967295 pages)"
    );
    assert_eq!(
        Error::InvalidPageRange("Invalid page number".to_string()).to_string(),
        "Invalid page range: Invalid page number"
    );
    assert_eq!(
        Error::ResourceNotFound("img9".to_string()).to_string(),
        "Resource not found: img9"
    );
    assert_eq!(
        Error::Encoding("utf-16".to_string()).to_string(),
        "Encoding error: utf-16"
    );
    assert_eq!(Error::Other("plain".to_string()).to_string(), "plain");
}
