//! Tests of the converter.

use unpdf::convert::{ConvertOptions, ConvertResult, OutputFormat, PdfConverter};
use unpdf::model::{Document, Page, Paragraph};
use unpdf::render::{ExtractionStats, PageSelection, RenderOptions};

#[test]
fn mod_test_convert_options_builder() {
    let options = ConvertOptions::new()
        .with_password("secret")
        .with_stats(true)
        .with_format(OutputFormat::Text);

    assert_eq!(options.password, Some("secret".to_string()));
    assert!(options.collect_stats);
    assert_eq!(options.output_format, OutputFormat::Text);
}

#[test]
fn converter_test_test_convert_options_builder() {
    let options = ConvertOptions::new()
        .with_password("secret123")
        .with_stats(true)
        .with_format(OutputFormat::Text);

    assert_eq!(options.password, Some("secret123".to_string()));
    assert!(options.collect_stats);
    assert_eq!(options.output_format, OutputFormat::Text);
}

#[test]
fn pdf_test_pdf_converter_extensions() {
    let converter = PdfConverter::new();
    assert_eq!(converter.supported_extensions(), vec!["pdf"]);
    assert!(converter.supports_extension("pdf"));
    assert!(converter.supports_extension("PDF"));
    assert!(!converter.supports_extension("docx"));
}

#[test]
fn converter_test_test_pdf_converter_extensions() {
    let converter = PdfConverter::new();

    assert_eq!(converter.supported_extensions(), vec!["pdf"]);
    assert!(converter.supports_extension("pdf"));
    assert!(converter.supports_extension("PDF"));
    assert!(!converter.supports_extension("doc"));
}

#[test]
fn pdf_test_pdf_converter_name() {
    let converter = PdfConverter::new();
    assert_eq!(converter.name(), "pdf");
}

#[test]
fn converter_test_test_pdf_converter_name() {
    let converter = PdfConverter::new();
    assert_eq!(converter.name(), "pdf");
}

#[test]
fn test_convert_result_methods() {
    let result = ConvertResult::new("# Hello".to_string(), Default::default());

    assert_eq!(result.content, "# Hello");
    assert_eq!(result.content_len(), 7);
    assert!(result.stats.is_none());
    assert_eq!(result.mime_type, "text/markdown");
}

#[test]
fn test_convert_result_with_stats() {
    let stats = ExtractionStats {
        page_count: 5,
        paragraph_count: 20,
        ..Default::default()
    };

    let result = ConvertResult::new("content".to_string(), Default::default()).with_stats(stats);

    assert!(result.stats.is_some());
    let stats = result.stats.unwrap();
    assert_eq!(stats.page_count, 5);
    assert_eq!(stats.paragraph_count, 20);
}

#[test]
fn test_convert_result_mime_types() {
    let md_result = ConvertResult::new("# Title".to_string(), Default::default())
        .with_mime_type("text/markdown");
    assert_eq!(md_result.mime_type, "text/markdown");

    let json_result =
        ConvertResult::new("{}".to_string(), Default::default()).with_mime_type("application/json");
    assert_eq!(json_result.mime_type, "application/json");

    let text_result = ConvertResult::new("plain text".to_string(), Default::default())
        .with_mime_type("text/plain");
    assert_eq!(text_result.mime_type, "text/plain");
}

#[test]
fn test_output_format_default() {
    let format = OutputFormat::default();
    assert_eq!(format, OutputFormat::Markdown);
}

fn small_document() -> Document {
    let mut doc = Document::new();
    doc.metadata.title = Some("Small".to_string());
    let mut page = Page::letter(1);
    page.add_paragraph(Paragraph::heading("Title", 1));
    page.add_paragraph(Paragraph::with_text("Body text"));
    doc.add_page(page);
    doc
}

#[test]
fn documents_are_converted_by_format() {
    let converter = PdfConverter::new();
    let doc = small_document();
    let markdown = converter
        .convert_document(&doc, &ConvertOptions::new())
        .unwrap();
    assert_eq!(markdown.content, "# Title\n\nBody text");
    assert_eq!(markdown.mime_type, "text/markdown");
    assert!(markdown.stats.is_none());
    assert_eq!(markdown.metadata.title.as_deref(), Some("Small"));

    let counted = converter
        .convert_document(&doc, &ConvertOptions::new().with_stats(true))
        .unwrap();
    let stats = counted.stats.unwrap();
    assert_eq!((stats.page_count, stats.heading_count, stats.paragraph_count), (1, 1, 1));
    assert_eq!((stats.word_count, stats.char_count), (4, 14));

    let text = converter
        .convert_document(&doc, &ConvertOptions::new().with_format(OutputFormat::Text))
        .unwrap();
    assert_eq!(text.content, "Title\n\nBody text");
    assert_eq!(text.mime_type, "text/plain");
}

#[test]
fn parse_options_for_a_conversion() {
    let converter = PdfConverter::new();
    let options = ConvertOptions::new()
        .with_password("pw")
        .with_render_options(RenderOptions::new().with_page_list(vec![2, 4]));
    let parse = converter.build_parse_options(&options, options.render.page_selection.clone());
    assert_eq!(parse.password.as_deref(), Some("pw"));
    assert!(parse.pages.includes(4));
    assert!(!parse.pages.includes(3));
    assert!(parse.parallel);
    let plain = converter.build_parse_options(&ConvertOptions::new(), PageSelection::All);
    assert!(plain.password.is_none());
}

#[test]
fn json_text_is_wrapped_as_it_is() {
    let result = PdfConverter::new().json_result(&small_document(), "{\"pages\":[]}".to_string());
    assert_eq!(result.content, "{\"pages\":[]}");
    assert_eq!(result.mime_type, "application/json");
    assert!(result.stats.is_none());
    assert_eq!(result.metadata.title.as_deref(), Some("Small"));
}
