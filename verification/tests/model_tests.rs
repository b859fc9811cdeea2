use unpdf::model::document::Timestamp;
use unpdf::model::{
    Alignment, Block, Document, InlineContent, ListInfo, ListStyle, Metadata, NumberStyle, Outline,
    OutlineItem, Page, Paragraph, Resource, ResourceType, Table, TableCell, TableRow, TextRun,
    TextStyle,
};

#[test]
fn test_document_new() {
    let doc = Document::new();
    assert!(doc.is_empty());
    assert_eq!(doc.page_count(), 0);
}

#[test]
fn test_metadata_frontmatter() {
    let mut metadata = Metadata::with_version("1.7");
    metadata.title = Some("Test Document".to_string());
    metadata.author = Some("John Doe".to_string());
    metadata.page_count = 10;

    let yaml = metadata.to_yaml_frontmatter();
    assert!(yaml.contains("title: \"Test Document\""));
    assert!(yaml.contains("author: \"John Doe\""));
    assert!(yaml.contains("pdf_version: \"1.7\""));
    assert!(yaml.contains("pages: 10"));
}

#[test]
fn test_outline() {
    let mut outline = Outline::new();
    let mut chapter1 = OutlineItem::new("Chapter 1", Some(1), 0);
    chapter1.add_child(OutlineItem::new("Section 1.1", Some(2), 1));
    chapter1.add_child(OutlineItem::new("Section 1.2", Some(5), 1));
    outline.add_item(chapter1);

    assert_eq!(outline.total_items(), 3);
}

#[test]
fn test_page_new() {
    let page = Page::new(1, 612000, 792000);
    assert_eq!(page.number, 1);
    assert_eq!(page.width, 612000);
    assert_eq!(page.height, 792000);
    assert!(page.is_empty());
}

#[test]
fn test_page_letter_a4() {
    let letter = Page::letter(1);
    assert!(!letter.is_landscape());

    let a4 = Page::a4(1);
    assert!(!a4.is_landscape());
}

#[test]
fn test_block_variants() {
    let img = Block::image("img1");
    assert!(img.is_image());
    assert!(!img.is_paragraph());
}

#[test]
fn test_paragraph_plain_text() {
    let mut p = Paragraph::new();
    p.add_text("Hello ");
    p.add_run(TextRun::bold("world"));
    p.add_text("!");

    assert_eq!(p.plain_text(), "Hello world!");
}

#[test]
fn test_heading() {
    let h1 = Paragraph::heading("Title", 1);
    assert!(h1.is_heading());
    assert_eq!(h1.heading_level(), Some(1));
}

#[test]
fn test_text_style() {
    let style = TextStyle::default();
    assert!(!style.has_styling());

    let bold_style = TextStyle {
        bold: true,
        ..Default::default()
    };
    assert!(bold_style.has_styling());
}

#[test]
fn test_list_info() {
    let bullet = ListInfo::bullet(0);
    assert_eq!(bullet.level, 0);

    let numbered = ListInfo::numbered(1, 5);
    assert_eq!(numbered.item_number, Some(5));
}

#[test]
fn test_resource_new() {
    let res = Resource::jpeg(vec![0xFF, 0xD8, 0xFF]);
    assert!(res.is_image());
    assert_eq!(res.mime_type, "image/jpeg");
    assert_eq!(res.extension(), "jpg");
}

#[test]
fn test_detect_mime_type() {
    // JPEG
    let jpeg_data = vec![0xFF, 0xD8, 0xFF, 0xE0, 0x00, 0x10, 0x4A, 0x46];
    assert_eq!(Resource::detect_mime_type(&jpeg_data), Some("image/jpeg"));

    // PNG
    let png_data = vec![0x89, 0x50, 0x4E, 0x47, 0x0D, 0x0A, 0x1A, 0x0A];
    assert_eq!(Resource::detect_mime_type(&png_data), Some("image/png"));

    // Unknown
    let unknown = vec![0x00, 0x00, 0x00, 0x00];
    assert_eq!(Resource::detect_mime_type(&unknown), None);
}

#[test]
fn test_suggested_filename() {
    let res = Resource::jpeg(vec![]).with_filename("photo.jpg");
    assert_eq!(res.suggested_filename("img1"), "photo.jpg");

    let res2 = Resource::png(vec![]);
    assert_eq!(res2.suggested_filename("img2"), "img2.png");
}

#[test]
fn test_table_new() {
    let table = Table::new();
    assert!(table.is_empty());
    assert_eq!(table.row_count(), 0);
    assert_eq!(table.column_count(), 0);
}

#[test]
fn test_table_with_data() {
    let mut table = Table::with_header(1);
    table.add_row(TableRow::header(vec![
        TableCell::text("Name"),
        TableCell::text("Age"),
    ]));
    table.add_row(TableRow::from_strings(&["Alice", "30"]));
    table.add_row(TableRow::from_strings(&["Bob", "25"]));

    assert_eq!(table.row_count(), 3);
    assert_eq!(table.column_count(), 2);
    assert_eq!(table.header().len(), 1);
    assert_eq!(table.body().len(), 2);
}

#[test]
fn test_merged_cells() {
    let mut table = Table::new();
    table.add_row(TableRow::new(vec![TableCell::text("Merged").colspan(2)]));

    assert!(table.has_merged_cells());
}

#[test]
fn test_cell_text() {
    let cell = TableCell::text("Hello");
    assert_eq!(cell.plain_text(), "Hello");
    assert!(!cell.is_empty());
}

#[test]
fn mime_types_by_magic_bytes() {
    assert_eq!(Resource::detect_mime_type(b"GIF87a.."), Some("image/gif"));
    assert_eq!(Resource::detect_mime_type(b"GIF89a.."), Some("image/gif"));
    assert_eq!(
        Resource::detect_mime_type(&[0x49, 0x49, 0x2A, 0x00, 0, 0, 0, 0]),
        Some("image/tiff")
    );
    assert_eq!(
        Resource::detect_mime_type(&[0x4D, 0x4D, 0x00, 0x2A, 0, 0, 0, 0]),
        Some("image/tiff")
    );
    assert_eq!(Resource::detect_mime_type(b"BM......"), Some("image/bmp"));
    assert_eq!(
        Resource::detect_mime_type(b"RIFF....WEBPVP8 "),
        Some("image/webp")
    );
    assert_eq!(Resource::detect_mime_type(b"RIFF....WAVE"), None);
    assert_eq!(Resource::detect_mime_type(b"RIFF...."), None);
    assert_eq!(
        Resource::detect_mime_type(&[0x00, 0x00, 0x00, 0x0C, 0x6A, 0x50, 0x20, 0x20]),
        Some("image/jp2")
    );
    assert_eq!(Resource::detect_mime_type(&[0xFF, 0xD8, 0xFF]), None);
}

#[test]
fn extensions_by_mime_type() {
    let cases = [
        ("image/gif", "gif"),
        ("image/tiff", "tiff"),
        ("image/bmp", "bmp"),
        ("image/webp", "webp"),
        ("image/jp2", "jp2"),
        ("image/jpeg2000", "jp2"),
        ("application/pdf", "pdf"),
        ("font/ttf", "ttf"),
        ("font/truetype", "ttf"),
        ("font/otf", "otf"),
        ("font/opentype", "otf"),
        ("font/woff", "woff"),
        ("font/woff2", "woff2"),
    ];
    for (mime, ext) in cases {
        assert_eq!(
            Resource::new(vec![], mime, ResourceType::Other).extension(),
            ext
        );
    }
    assert_eq!(Resource::image(vec![], "image/x-raw").extension(), "raw");
    assert_eq!(
        Resource::new(vec![], "application/octet-stream", ResourceType::Attachment).extension(),
        "bin"
    );
}

#[test]
fn resource_builders_set_their_fields() {
    let res = Resource::png(vec![1, 2, 3])
        .with_dimensions(640, 480)
        .with_color_space("RGB")
        .with_bits_per_component(8);
    assert_eq!(res.size(), 3);
    assert_eq!(res.width, Some(640));
    assert_eq!(res.height, Some(480));
    assert_eq!(res.color_space.as_deref(), Some("RGB"));
    assert_eq!(res.bits_per_component, Some(8));
    assert!(!res.is_font());
    assert_eq!(ResourceType::Attachment.to_string(), "attachment");
}

#[test]
fn plain_text_joins_blocks_and_pages_by_blank_lines() {
    let mut doc = Document::new();
    let mut page1 = Page::letter(1);
    page1.add_paragraph(Paragraph::with_text("One"));
    page1.add_block(Block::HorizontalRule);
    let mut table = Table::new();
    table.add_row(TableRow::from_strings(&["a", "b"]));
    table.add_row(TableRow::from_strings(&["c", "d"]));
    page1.add_table(table);
    doc.add_page(page1);
    let mut page2 = Page::a4(2);
    let mut p = Paragraph::with_text("Two");
    p.add_line_break();
    p.add_text("lines");
    page2.add_paragraph(p);
    doc.add_page(page2);

    assert_eq!(doc.plain_text(), "One\n\na\tb\nc\td\n\nTwo\nlines");
    assert_eq!(doc.get_page(2).unwrap().number, 2);
    assert!(doc.get_page(0).is_none());
    assert!(doc.get_page(3).is_none());
}

#[test]
fn paragraph_text_of_links_and_images() {
    let mut p = Paragraph::new();
    p.content.push(InlineContent::Link {
        text: "site".to_string(),
        url: "https://example.org".to_string(),
        title: None,
    });
    p.content.push(InlineContent::Image {
        resource_id: "img1".to_string(),
        alt_text: Some(" logo".to_string()),
    });
    p.content.push(InlineContent::Image {
        resource_id: "img2".to_string(),
        alt_text: None,
    });
    assert_eq!(p.plain_text(), "site logo");
    assert!(!p.is_empty());
    assert!(Paragraph::with_text(" \t\n").is_empty());
    assert!(Paragraph::new().is_empty());
}

#[test]
fn heading_level_is_brought_into_range() {
    assert_eq!(Paragraph::heading("a", 0).heading_level(), Some(1));
    assert_eq!(Paragraph::heading("a", 6).heading_level(), Some(6));
    assert_eq!(Paragraph::heading("a", 9).heading_level(), Some(6));
    assert!(!Paragraph::with_text("a").is_heading());
}

#[test]
fn list_info_constructors() {
    assert_eq!(
        ListInfo::bullet(2).style,
        ListStyle::Unordered { marker: '\u{2022}' }
    );
    assert_eq!(
        ListInfo::numbered(0, 3).style,
        ListStyle::Ordered {
            start: 1,
            number_style: NumberStyle::Decimal
        }
    );
    assert_eq!(Alignment::default(), Alignment::Left);
}

#[test]
fn resources_are_kept_by_id() {
    let mut doc = Document::new();
    doc.add_resource("a".to_string(), Resource::jpeg(vec![1]));
    doc.add_resource("b".to_string(), Resource::png(vec![2, 3]));
    doc.add_resource("a".to_string(), Resource::png(vec![4, 5, 6]));
    assert_eq!(doc.resources.len(), 2);
    assert_eq!(doc.get_resource("a").unwrap().size(), 3);
    assert_eq!(doc.get_resource("b").unwrap().size(), 2);
    assert!(doc.get_resource("c").is_none());
}

#[test]
fn frontmatter_is_written_line_by_line() {
    let mut metadata = Metadata::with_version("1.4");
    metadata.title = Some("A \"quoted\" \\ title\nline".to_string());
    metadata.created = Some(Timestamp {
        year: 2024,
        month: 1,
        day: 15,
        hour: 10,
        minute: 30,
        second: 45,
    });
    metadata.modified = Some(Timestamp {
        year: 2023,
        month: 2,
        day: 30,
        hour: 0,
        minute: 0,
        second: 0,
    });
    metadata.page_count = 3;
    assert_eq!(
        metadata.to_yaml_frontmatter(),
        "---\ntitle: \"A \\\"quoted\\\" \\\\ title\\nline\"\ncreated: 2024-01-15T10:30:45+00:00\npdf_version: \"1.4\"\npages: 3\n---\n"
    );
}

#[test]
fn timestamps_know_the_calendar() {
    let leap = Timestamp {
        year: 2024,
        month: 2,
        day: 29,
        hour: 23,
        minute: 59,
        second: 59,
    };
    assert!(leap.is_valid());
    assert_eq!(
        leap.to_rfc3339().as_deref(),
        Some("2024-02-29T23:59:59+00:00")
    );
    assert!(!Timestamp { year: 2023, ..leap }.is_valid());
    assert!(!Timestamp { hour: 24, ..leap }.is_valid());
    assert!(!Timestamp { month: 13, day: 1, ..leap }.is_valid());
}

#[test]
fn table_text_and_merged_cells() {
    let mut table = Table::with_header(1);
    table.add_row(TableRow::header(vec![
        TableCell::text("Name"),
        TableCell::text("Age"),
    ]));
    table.add_row(TableRow::new(vec![
        TableCell::with_content(vec![Paragraph::with_text("Al"), Paragraph::with_text("ice")]),
        TableCell::empty(),
    ]));
    assert_eq!(table.plain_text(), "Name\tAge\nAl ice\t");
    assert!(!table.has_merged_cells());
    assert!(TableCell::empty().is_empty());
    assert!(TableCell::text("x").rowspan(2).is_merged());
    assert_eq!(
        TableCell::text("x").align(Alignment::Right).alignment,
        Alignment::Right
    );
}

#[test]
fn image_blocks_and_page_geometry() {
    match Block::image_with_size("img", 100000, 50000) {
        Block::Image { width, height, x, .. } => {
            assert_eq!(width, Some(100000));
            assert_eq!(height, Some(50000));
            assert_eq!(x, None);
        }
        _ => panic!("not an image"),
    }
    let page = Page::new(4, 842000, 595000);
    assert!(page.is_landscape());
    assert_eq!(page.dimensions(), (842000, 595000));
    assert_eq!(page.block_count(), 0);
    assert_eq!(Page::default().number, 1);
}
