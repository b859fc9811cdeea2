use unpdf::builder::Unpdf;
use unpdf::model::{Block, Outline, OutlineItem, Page};
use unpdf::parser::backend::{BackendFontInfo, ContentOp, PageId, PdfBackend, PdfValue};
use unpdf::parser::container::{
    ColorSpaceEntry, ContainerInfo, InfoValue, NameEntry, PageBox, XObjectEntry, XObjectInfo,
};
use unpdf::parser::interpreter::{parse_content_stream, TextMatrix};
use unpdf::parser::pdf_parser::{
    assemble_blocks, document_of, extract_resources, page_from_spans, parse_page,
};
use unpdf::parser::{ErrorMode, ExtractMode, LayoutAnalyzer, ParseOptions, PdfParser, TextSpan};
use unpdf::render::{CleanupPreset, PageSelection, TableFallback};
use unpdf::Error;

/// A backend over content streams written as text, one stream a page. An
/// operation is a line: operands separated by blanks, then the operator.
struct ScriptBackend {
    pages: Vec<(u32, Vec<u8>)>,
    broken: Vec<u32>,
}

impl ScriptBackend {
    fn new(pages: &[(u32, &str)]) -> Self {
        ScriptBackend {
            pages: pages
                .iter()
                .map(|(n, s)| (*n, s.as_bytes().to_vec()))
                .collect(),
            broken: vec![],
        }
    }
}

fn operand(token: &str) -> PdfValue {
    if let Some(name) = token.strip_prefix('/') {
        PdfValue::Name(name.as_bytes().to_vec())
    } else if let Some(text) = token.strip_prefix('(') {
        PdfValue::Str(text.trim_end_matches(')').replace('_', " ").into_bytes())
    } else if let Some(items) = token.strip_prefix('[') {
        PdfValue::Array(
            items
                .trim_end_matches(']')
                .split(';')
                .filter(|t| !t.is_empty())
                .map(operand)
                .collect(),
        )
    } else if let Ok(i) = token.parse::<i64>() {
        PdfValue::Integer(i)
    } else if let Ok(r) = token.parse::<f64>() {
        PdfValue::Real((r * 1000.0).round() as i64)
    } else {
        PdfValue::Other
    }
}

impl PdfBackend for ScriptBackend {
    fn pages(&self) -> Vec<(u32, PageId)> {
        self.pages.iter().map(|(n, _)| (*n, (*n + 100, 0))).collect()
    }

    fn page_fonts(&self, _page: PageId) -> Result<Vec<BackendFontInfo>, Error> {
        Ok(vec![
            BackendFontInfo {
                name: b"F1".to_vec(),
                base_font: "Helvetica".to_string(),
            },
            BackendFontInfo {
                name: b"F2".to_vec(),
                base_font: "Helvetica-Bold".to_string(),
            },
        ])
    }

    fn page_content(&self, page: PageId) -> Result<Vec<u8>, Error> {
        let number = page.0 - 100;
        if self.broken.contains(&number) {
            return Err(Error::PdfParse(format!("page {} is broken", number)));
        }
        match self.pages.iter().find(|(n, _)| *n == number) {
            Some((_, content)) => Ok(content.clone()),
            None => Err(Error::MissingObject("Contents".to_string())),
        }
    }

    fn decode_content(&self, data: &[u8]) -> Result<Vec<ContentOp>, Error> {
        let text = String::from_utf8_lossy(data).into_owned();
        let mut ops = Vec::new();
        for line in text.lines() {
            let mut tokens: Vec<&str> = line.split(' ').filter(|t| !t.is_empty()).collect();
            if let Some(operator) = tokens.pop() {
                ops.push(ContentOp {
                    operator: operator.to_string(),
                    operands: tokens.into_iter().map(operand).collect(),
                });
            }
        }
        Ok(ops)
    }

    fn decode_text(&self, _page: PageId, font_name: &[u8], bytes: &[u8]) -> String {
        let text = unpdf::parser::decode_text_simple(bytes);
        if font_name == b"F9" {
            text.to_uppercase()
        } else {
            text
        }
    }
}

fn script(lines: &[&str]) -> String {
    lines.join("\n")
}

fn spans_of(lines: &[&str]) -> Vec<TextSpan> {
    let backend = ScriptBackend::new(&[(1, "")]);
    let ops = backend.decode_content(script(lines).as_bytes()).unwrap();
    let fonts = backend.page_fonts((101, 0)).unwrap();
    parse_content_stream(&backend, (101, 0), &fonts, &ops)
}

fn summary(spans: &[TextSpan]) -> Vec<(String, i32, i32, i32)> {
    spans
        .iter()
        .map(|s| (s.text.clone(), s.x, s.y, s.font_size))
        .collect()
}

#[test]
fn text_is_shown_where_the_matrix_puts_it() {
    let spans = spans_of(&[
        "(outside) Tj",
        "BT",
        "/F2 10 Tf",
        "72 700 Td",
        "(Hello) Tj",
        "0 -14.5 Td",
        "(world) Tj",
        "T*",
        "(third) Tj",
        "2 0 0 2 100 500 Tm",
        "(big) Tj",
        "10 5 Td",
        "(moved) Tj",
        "(next) '",
        "1 2 (quoted) \"",
        "(___) Tj",
        "ET",
        "(after) Tj",
    ]);
    assert_eq!(
        summary(&spans),
        vec![
            ("Hello".to_string(), 72000, 700000, 10000),
            ("world".to_string(), 72000, 685500, 10000),
            ("third".to_string(), 72000, 673500, 10000),
            ("big".to_string(), 100000, 500000, 20000),
            ("moved".to_string(), 120000, 510000, 20000),
            ("next".to_string(), 120000, 486000, 20000),
            ("quoted".to_string(), 120000, 462000, 20000),
        ]
    );
    assert!(spans.iter().all(|s| s.font_name == "Helvetica-Bold" && s.is_bold));
    assert!(spans.iter().all(|s| s.width == 0 && !s.is_italic));
}

#[test]
fn state_outlasts_the_text_object() {
    let spans = spans_of(&[
        "/F1 9 Tf",
        "5 5 Td",
        "BT",
        "(reset) Tj",
        "3 4 Td",
        "ET",
        "1 1 Td",
        "BT",
        "(again) Tj",
        "ET",
        "/F7 Tf",
        "BT",
        "/F7 11.5 Tf",
        "(raw) Tj",
        "/F1 /oops Tf",
        "(default) Tj",
        "/F9 8 Tf",
        "(shout) Tj",
        "0.6 0 0.8 1 0 0 Tm",
        "(skewed) Tj",
        "ET",
    ]);
    assert_eq!(
        summary(&spans),
        vec![
            ("reset".to_string(), 0, 0, 9000),
            ("again".to_string(), 0, 0, 9000),
            ("raw".to_string(), 0, 0, 11500),
            ("default".to_string(), 0, 0, 12000),
            ("SHOUT".to_string(), 0, 0, 8000),
            ("SKEWED".to_string(), 0, 0, 8000),
        ]
    );
    assert_eq!(spans[0].font_name, "Helvetica");
    assert_eq!(spans[2].font_name, "F7");
    assert_eq!(spans[3].font_name, "Helvetica");
}

#[test]
fn adjustments_in_arrays_separate_words() {
    let spans = spans_of(&[
        "BT",
        "[(Hel);-20;(lo);-250;(wor);250.5;(ld);-300;-300;(!_);-300;(x);-200;(y);200.0;(z)] TJ",
        "[-300;(start)] TJ",
        "[(日本);-500;(語);-500;(한);-500;(글)] TJ",
        "[(nbsp\u{a0});-500;(kept)] TJ",
        "[;-500] TJ",
        "(not_an_array) TJ",
        "[(in_array)] Tj",
        "ET",
    ]);
    let texts: Vec<&str> = spans.iter().map(|s| s.text.as_str()).collect();
    assert_eq!(
        texts,
        vec![
            "Hello wor ld ! xyz",
            "start",
            "日本語한 글",
            "nbsp\u{a0}kept",
        ]
    );
}

#[test]
fn text_matrix_arithmetic() {
    assert_eq!(TextMatrix::default(), TextMatrix::identity());
    let mut m = TextMatrix::identity();
    assert_eq!(m.get_position(), (0, 0));
    assert_eq!(m.get_scale(), 1000);
    m.set(3000, 0, 4000, 500, 10000, 20000);
    assert_eq!(m.get_scale(), 5000);
    assert_eq!(m.line_y, 20000);
    m.translate(1000, 2000);
    // e += 1 * 3 + 2 * 4, f += 1 * 0 + 2 * 0.5
    assert_eq!(m.get_position(), (21000, 21000));
    assert_eq!(m.line_y, 21000);
    m.translate(-1500, 0);
    assert_eq!(m.get_position(), (16500, 21000));
    m.next_line();
    // f -= 12 * 0.5
    assert_eq!(m.get_position(), (16500, 15000));
    m.set(i32::MAX, 0, i32::MAX, 1000, i32::MAX, i32::MIN);
    m.translate(i32::MAX, i32::MAX);
    assert_eq!(m.get_position(), (i32::MAX, -1));
    m.next_line();
    assert_eq!(m.f, -12001);
    assert_eq!(m.get_scale(), 3037000498);
}

fn table_page() -> String {
    script(&[
        "BT",
        "/F1 12 Tf",
        "1 0 0 1 50 750 Tm",
        "/F2 20 Tf",
        "(Report) Tj",
        "/F1 12 Tf",
        "1 0 0 1 50 700 Tm",
        "(First_line_of_the_text) Tj",
        "1 0 0 1 50 686 Tm",
        "(and_the_second_line.) Tj",
        "1 0 0 1 10 600 Tm",
        "(Name) Tj",
        "1 0 0 1 60 600 Tm",
        "(Age) Tj",
        "1 0 0 1 10 585 Tm",
        "(Alice) Tj",
        "1 0 0 1 60 585 Tm",
        "(30) Tj",
        "1 0 0 1 50 500 Tm",
        "(After_the_table.) Tj",
        "ET",
    ])
}

fn info() -> ContainerInfo {
    let mut outline = Outline::new();
    let mut chapter = OutlineItem::new("Chapter", Some(1), 0);
    chapter.add_child(OutlineItem::new("Section", Some(2), 1));
    outline.add_item(chapter);
    ContainerInfo {
        version: "1.6".to_string(),
        encrypted: false,
        title: Some(InfoValue::Text(b"The title".to_vec())),
        author: None,
        subject: None,
        keywords: None,
        creator: None,
        producer: Some(InfoValue::Text(vec![0xFE, 0xFF, 0x00, 0x50])),
        creation_date: Some(InfoValue::Text(b"D:20200229".to_vec())),
        mod_date: None,
        page_boxes: vec![PageBox {
            number: 2,
            width: Some(595000),
            height: Some(842000),
        }],
        outline: Some(outline),
        xobjects: vec![
            XObjectEntry {
                page: 1,
                name: "Im0".to_string(),
                object: XObjectInfo {
                    subtype: NameEntry::Name(b"Image".to_vec()),
                    width: Some(2),
                    height: Some(1),
                    bits_per_component: Some(8),
                    filter: NameEntry::Name(b"DCTDecode".to_vec()),
                    content: vec![0xFF, 0xD8],
                    decompressed: None,
                    color_space: ColorSpaceEntry::Absent,
                },
            },
            XObjectEntry {
                page: 2,
                name: "Fm0".to_string(),
                object: XObjectInfo {
                    subtype: NameEntry::Name(b"Form".to_vec()),
                    width: None,
                    height: None,
                    bits_per_component: None,
                    filter: NameEntry::Absent,
                    content: vec![],
                    decompressed: None,
                    color_space: ColorSpaceEntry::Absent,
                },
            },
        ],
    }
}

fn block_summary(blocks: &[Block]) -> Vec<String> {
    blocks
        .iter()
        .map(|b| match b {
            Block::Paragraph(p) => match p.heading_level() {
                Some(level) => format!("h{} {}", level, p.plain_text()),
                None => format!("p {}", p.plain_text()),
            },
            Block::Table(t) => format!("table {}", t.plain_text().replace('\n', " / ")),
            _ => "other".to_string(),
        })
        .collect()
}

#[test]
fn a_page_is_put_together_from_paragraphs_and_tables() {
    let backend = ScriptBackend::new(&[(1, "")]);
    let ops = backend.decode_content(table_page().as_bytes()).unwrap();
    let fonts = backend.page_fonts((101, 0)).unwrap();
    let spans = parse_content_stream(&backend, (101, 0), &fonts, &ops);
    assert_eq!(spans.len(), 8);
    let blocks = assemble_blocks(spans);
    assert_eq!(
        block_summary(&blocks),
        vec![
            "h1 Report",
            "p First line of the text and the second line.",
            "table Name\tAge / Alice\t30",
            "p After the table.",
        ]
    );
}

fn three_pages() -> ScriptBackend {
    let page = table_page();
    ScriptBackend::new(&[
        (1, page.as_str()),
        (2, "BT\n(Second_page) Tj\nET"),
        (3, "BT\n(Third_page) Tj\nET"),
    ])
}

#[test]
fn a_document_is_parsed_page_by_page() {
    let parser = PdfParser::with_backend(three_pages(), info(), ParseOptions::new());
    assert_eq!(parser.page_count(), 3);
    assert!(!parser.is_encrypted());
    assert_eq!(parser.version(), "1.6");
    let doc = parser.parse().unwrap();
    assert_eq!(doc.metadata.page_count, 3);
    assert_eq!(doc.metadata.pdf_version, "1.6");
    assert_eq!(doc.metadata.title.as_deref(), Some("The title"));
    assert_eq!(doc.metadata.producer.as_deref(), Some("P"));
    assert_eq!(doc.metadata.created.unwrap().day, 29);
    let numbers: Vec<u32> = doc.pages.iter().map(|p| p.number).collect();
    assert_eq!(numbers, vec![1, 2, 3]);
    assert_eq!((doc.pages[0].width, doc.pages[0].height), (612000, 792000));
    assert_eq!((doc.pages[1].width, doc.pages[1].height), (595000, 842000));
    assert_eq!(doc.pages[0].elements.len(), 4);
    assert_eq!(block_summary(&doc.pages[1].elements), vec!["p Second page"]);
    assert_eq!(doc.outline.as_ref().unwrap().total_items(), 2);
    assert_eq!(doc.resources.len(), 1);
    assert_eq!(doc.resources[0].id, "page1_Im0");
    assert_eq!(doc.get_resource("page1_Im0").unwrap().mime_type, "image/jpeg");
}

fn parsed_numbers(selection: PageSelection) -> Vec<u32> {
    let options = ParseOptions::new().with_pages(selection);
    let doc = PdfParser::with_backend(three_pages(), info(), options)
        .parse()
        .unwrap();
    assert_eq!(doc.metadata.page_count, 3);
    doc.pages.iter().map(|p| p.number).collect()
}

#[test]
fn only_selected_pages_are_parsed_in_their_order() {
    assert_eq!(parsed_numbers(PageSelection::All), vec![1, 2, 3]);
    assert_eq!(parsed_numbers(PageSelection::Range(2..=9)), vec![2, 3]);
    assert_eq!(parsed_numbers(PageSelection::Pages(vec![3, 1])), vec![1, 3]);
    assert_eq!(parsed_numbers(PageSelection::Pages(vec![4])), Vec::<u32>::new());
    assert_eq!(
        parsed_numbers(PageSelection::parse("2").unwrap()),
        vec![2]
    );
}

#[test]
fn parallel_parsing_changes_nothing() {
    let together = PdfParser::with_backend(
        three_pages(),
        info(),
        ParseOptions::new().with_parallel(true),
    )
    .parse()
    .unwrap();
    let in_turn = PdfParser::with_backend(three_pages(), info(), ParseOptions::new().sequential())
        .parse()
        .unwrap();
    assert_eq!(format!("{:?}", together), format!("{:?}", in_turn));
}

#[test]
fn broken_pages_fail_or_stay_empty() {
    let mut backend = three_pages();
    backend.broken = vec![2];
    let strict = PdfParser::with_backend(backend, info(), ParseOptions::new()).parse();
    match strict {
        Err(Error::PdfParse(m)) => assert_eq!(m, "page 2 is broken"),
        other => panic!("unexpected: {:?}", other.map(|d| d.pages.len())),
    }

    let mut backend = three_pages();
    backend.broken = vec![2];
    let lenient = PdfParser::with_backend(backend, info(), ParseOptions::new().lenient())
        .parse()
        .unwrap();
    assert_eq!(lenient.pages.len(), 3);
    assert!(lenient.pages[1].is_empty());
    assert!(!lenient.pages[2].is_empty());

    let mut backend = three_pages();
    backend.broken = vec![2];
    let skipping = PdfParser::with_backend(
        backend,
        info(),
        ParseOptions::new().with_pages(PageSelection::Pages(vec![1, 3])),
    )
    .parse()
    .unwrap();
    assert_eq!(skipping.pages.len(), 2);
}

#[test]
fn structure_only_and_resources() {
    let mut backend = three_pages();
    backend.broken = vec![1, 2, 3];
    let options = ParseOptions::new().with_extract_mode(ExtractMode::StructureOnly);
    let doc = PdfParser::with_backend(backend, info(), options)
        .parse()
        .unwrap();
    assert_eq!(doc.pages.len(), 3);
    assert!(doc.pages.iter().all(|p| p.is_empty()));
    assert!(doc.resources.is_empty());

    let without = PdfParser::with_backend(
        three_pages(),
        ContainerInfo {
            outline: Some(Outline::new()),
            ..info()
        },
        ParseOptions::new().with_resources(false).with_error_mode(ErrorMode::Lenient),
    )
    .parse()
    .unwrap();
    assert!(without.resources.is_empty());
    assert!(without.outline.is_none());
}

#[test]
fn the_analyzer_reads_pages_by_number() {
    let backend = three_pages();
    let mut analyzer = LayoutAnalyzer::new(&backend);
    let spans = analyzer.extract_page_spans(2).unwrap();
    assert_eq!(summary(&spans), vec![("Second page".to_string(), 0, 0, 12000)]);
    match analyzer.extract_page_spans(9) {
        Err(Error::PageOutOfRange(9, 3)) => {}
        other => panic!("unexpected: {:?}", other.map(|s| s.len())),
    }
    let blocks = analyzer.extract_page_blocks(1).unwrap();
    assert_eq!(blocks[0].text(), "Report");
    assert_eq!(blocks[0].heading_level, 1);
    analyzer.font_stats_mut().add_size(30000);
    let lines = analyzer.group_spans_into_lines_pub(spans);
    let lines = analyzer.detect_headings_pub(lines);
    assert!(!lines[0].is_heading);
    assert_eq!(analyzer.group_lines_into_blocks_pub(lines).len(), 1);
}

#[test]
fn test_unpdf_builder() {
    let unpdf = Unpdf::new()
        .lenient()
        .with_frontmatter()
        .with_cleanup(CleanupPreset::Standard);

    assert!(matches!(
        unpdf.parse_options.error_mode,
        ErrorMode::Lenient
    ));
    assert!(unpdf.render_options.include_frontmatter);
}

#[test]
fn test_unpdf_builder_default() {
    let builder = Unpdf::default();
    assert!(!builder.render_options.include_frontmatter);
}

#[test]
fn test_unpdf_builder_text_only() {
    let builder = Unpdf::new().text_only();
    assert!(matches!(
        builder.parse_options.extract_mode,
        ExtractMode::TextOnly
    ));
}

#[test]
fn test_unpdf_builder_sequential() {
    let builder = Unpdf::new().sequential();
    assert!(!builder.parse_options.parallel);
}

#[test]
fn test_unpdf_builder_with_password() {
    let builder = Unpdf::new().with_password("secret");
    assert_eq!(builder.parse_options.password, Some("secret".to_string()));
}

#[test]
fn test_unpdf_builder_with_pages() {
    let builder = Unpdf::new().with_pages(PageSelection::Range(1..=5));
    assert!(matches!(
        builder.render_options.page_selection,
        PageSelection::Range(_)
    ));
}

#[test]
fn test_unpdf_builder_with_table_fallback() {
    let builder = Unpdf::new().with_table_fallback(TableFallback::Html);
    assert!(matches!(
        builder.render_options.table_fallback,
        TableFallback::Html
    ));
}

#[test]
fn test_unpdf_builder_chained() {
    let builder = Unpdf::new()
        .lenient()
        .with_frontmatter()
        .with_cleanup(CleanupPreset::Aggressive)
        .with_table_fallback(TableFallback::Ascii)
        .sequential();

    assert!(matches!(
        builder.parse_options.error_mode,
        ErrorMode::Lenient
    ));
    assert!(builder.render_options.include_frontmatter);
    assert!(!builder.parse_options.parallel);
}

#[test]
fn the_builder_parses_and_renders() {
    let builder = Unpdf::new()
        .with_pages(PageSelection::Range(2..=3))
        .with_images(false)
        .with_memory_limit_mb(64)
        .with_image_dir("out");
    assert!(builder.parse_options.pages.includes(3));
    assert!(!builder.parse_options.pages.includes(1));
    assert_eq!(builder.parse_options.memory_limit_mb, 64);
    assert_eq!(builder.render_options.image_dir.as_deref(), Some("out"));
    let result = builder.parse_with(three_pages(), info()).unwrap();
    assert_eq!(result.document().pages.len(), 2);
    assert!(result.document.resources.is_empty());
    assert_eq!(result.to_markdown().unwrap(), "Second page\n\nThird page");
    assert_eq!(result.to_text().unwrap(), "Second page\n\nThird page");
    assert_eq!(result.plain_text(), "Second page\n\nThird page");
}

fn image_entry(page: u32, name: &str, subtype: Option<&str>, byte: u8) -> XObjectEntry {
    XObjectEntry {
        page,
        name: name.to_string(),
        object: XObjectInfo {
            subtype: match subtype {
                Some(name) => NameEntry::Name(name.as_bytes().to_vec()),
                None => NameEntry::Absent,
            },
            width: None,
            height: Some(1),
            bits_per_component: None,
            filter: NameEntry::Name(b"DCTDecode".to_vec()),
            content: vec![byte],
            decompressed: None,
            color_space: ColorSpaceEntry::Absent,
        },
    }
}

#[test]
fn a_later_image_takes_the_place_of_an_earlier_one_with_its_id() {
    let container = ContainerInfo {
        xobjects: vec![
            image_entry(1, "Im0", Some("Image"), 1),
            image_entry(1, "Fm0", Some("Form"), 2),
            image_entry(2, "Im0", None, 3),
            image_entry(1, "Im0", Some("Image"), 4),
        ],
        ..info()
    };
    assert_eq!(
        extract_resources(&container, true).unwrap().len(),
        extract_resources(&container, false).unwrap().len()
    );
    let resources = extract_resources(&container, true).unwrap();
    let found: Vec<(&str, &[u8])> = resources
        .iter()
        .map(|e| (e.id.as_str(), e.resource.data.as_slice()))
        .collect();
    assert_eq!(found, vec![("page1_Im0", &[4u8][..]), ("page2_Im0", &[3u8][..])]);
    assert!(resources.iter().all(|e| e.resource.width.is_none()));
    assert!(resources.iter().all(|e| e.resource.mime_type == "image/jpeg"));
    let none = ContainerInfo {
        xobjects: vec![],
        ..info()
    };
    assert!(extract_resources(&none, true).unwrap().is_empty());
}

#[test]
fn a_page_is_made_of_what_reading_its_spans_gave() {
    let container = info();
    let strict = ParseOptions::new();
    let lenient = ParseOptions::new().lenient();
    let spans = || {
        vec![TextSpan::new(
            "Some text".to_string(),
            72000,
            700000,
            12000,
            "Helvetica".to_string(),
        )]
    };

    let page = page_from_spans(&container, &strict, 2, Ok(spans())).unwrap();
    assert_eq!((page.number, page.width, page.height), (2, 595000, 842000));
    assert_eq!(page.rotation, 0);
    assert_eq!(block_summary(&page.elements), vec!["p Some text"]);

    let letter = page_from_spans(&container, &lenient, 1, Ok(Vec::new())).unwrap();
    assert_eq!((letter.width, letter.height), (612000, 792000));
    assert!(letter.is_empty());

    let failed = || Err(Error::TextExtract("page 2".to_string()));
    match page_from_spans(&container, &strict, 2, failed()) {
        Err(Error::TextExtract(m)) => assert_eq!(m, "page 2"),
        other => panic!("unexpected: {:?}", other.map(|p| p.number)),
    }
    let empty = page_from_spans(&container, &lenient, 2, failed()).unwrap();
    assert_eq!((empty.number, empty.width), (2, 595000));
    assert!(empty.is_empty());
}

#[test]
fn pages_are_parsed_from_the_list_that_is_given() {
    let parser = PdfParser::with_backend(
        three_pages(),
        info(),
        ParseOptions::new().with_pages(PageSelection::Range(2..=9)),
    );
    let doc = parser.parse_pages(&vec![(3, (103, 0)), (1, (101, 0)), (2, (102, 0))]).unwrap();
    assert_eq!(doc.metadata.page_count, 3);
    let numbers: Vec<u32> = doc.pages.iter().map(|p| p.number).collect();
    assert_eq!(numbers, vec![3, 2]);
    assert_eq!(doc.pages[0].plain_text(), "Third page");

    let none = parser.parse_pages(&Vec::new()).unwrap();
    assert_eq!(none.metadata.page_count, 0);
    assert!(none.pages.is_empty());

    let backend = three_pages();
    let page = parse_page(&backend, &info(), &ParseOptions::new(), 2, (102, 0)).unwrap();
    assert_eq!(page.plain_text(), "Second page");
}

#[test]
fn a_document_is_put_together_from_its_pages() {
    let doc = document_of(&info(), &ParseOptions::new(), 7, vec![Page::letter(2)]).unwrap();
    assert_eq!(doc.metadata.page_count, 7);
    assert_eq!(doc.metadata.title.as_deref(), Some("The title"));
    assert_eq!(doc.metadata.pdf_version, "1.6");
    assert_eq!(doc.pages.len(), 1);
    assert_eq!(doc.pages[0].number, 2);
    assert_eq!(doc.outline.as_ref().unwrap().items[0].title, "Chapter");
    assert_eq!(doc.resources.len(), 1);
    assert_eq!(doc.resources[0].id, "page1_Im0");
    assert_eq!(doc.resources[0].resource.data, vec![0xFF, 0xD8]);

    let bare = document_of(
        &ContainerInfo {
            outline: Some(Outline::new()),
            ..info()
        },
        &ParseOptions::new().with_resources(false),
        0,
        Vec::new(),
    )
    .unwrap();
    assert_eq!(bare.metadata.page_count, 0);
    assert!(bare.pages.is_empty());
    assert!(bare.outline.is_none());
    assert!(bare.resources.is_empty());

    let structure = ParseOptions::new().with_extract_mode(ExtractMode::StructureOnly);
    let shell = document_of(&info(), &structure, 1, Vec::new()).unwrap();
    assert!(shell.resources.is_empty());
}

fn broken_image(page: u32, name: &str) -> XObjectEntry {
    let mut entry = image_entry(page, name, Some("Image"), 0);
    entry.object.filter = NameEntry::Name(b"FlateDecode".to_vec());
    entry
}

#[test]
fn an_image_without_its_data_fails_strict_parsing_only() {
    let container = || ContainerInfo {
        xobjects: vec![
            image_entry(1, "Im0", Some("Image"), 1),
            broken_image(1, "Im1"),
            image_entry(1, "Fm0", Some("Form"), 2),
            image_entry(2, "Im0", None, 3),
        ],
        ..info()
    };
    match extract_resources(&container(), true) {
        Err(Error::ImageExtract(m)) => assert_eq!(m, "Image data cannot be decompressed"),
        other => panic!("unexpected: {:?}", other.map(|r| r.len())),
    }
    let kept = extract_resources(&container(), false).unwrap();
    let ids: Vec<&str> = kept.iter().map(|e| e.id.as_str()).collect();
    assert_eq!(ids, vec!["page1_Im0", "page2_Im0"]);

    let strict = PdfParser::with_backend(three_pages(), container(), ParseOptions::new());
    assert!(matches!(strict.parse(), Err(Error::ImageExtract(_))));
    let lenient = PdfParser::with_backend(three_pages(), container(), ParseOptions::new().lenient());
    assert_eq!(lenient.parse().unwrap().resources.len(), 2);
    let unasked = PdfParser::with_backend(
        three_pages(),
        container(),
        ParseOptions::new().with_resources(false),
    );
    assert!(unasked.parse().unwrap().resources.is_empty());
    let structure = ParseOptions::new().with_extract_mode(ExtractMode::StructureOnly);
    assert!(document_of(&container(), &structure, 3, Vec::new()).is_ok());
    assert!(document_of(&container(), &ParseOptions::new(), 3, Vec::new()).is_err());

    // a broken object that is no image stands in nobody's way
    let mut form = broken_image(1, "Fm1");
    form.object.subtype = NameEntry::Name(b"Form".to_vec());
    let harmless = ContainerInfo {
        xobjects: vec![form],
        ..info()
    };
    assert!(extract_resources(&harmless, true).unwrap().is_empty());
}

#[test]
fn a_page_that_is_not_listed_is_out_of_range() {
    let backend = three_pages();
    let mut analyzer = LayoutAnalyzer::new(&backend);
    assert_eq!(
        analyzer.page_list(),
        &vec![(1, (101, 0)), (2, (102, 0)), (3, (103, 0))]
    );
    analyzer.extract_page_blocks(2).unwrap();
    let sizes = analyzer.font_stats_mut().size_histogram.clone();
    let body = analyzer.font_stats_mut().body_size;
    assert_eq!(sizes.len(), 1);
    for number in [0, 4, u32::MAX] {
        match analyzer.extract_page_blocks(number) {
            Err(Error::PageOutOfRange(page, 3)) => assert_eq!(page, number),
            other => panic!("unexpected: {:?}", other.map(|b| b.len())),
        }
        match analyzer.extract_page_spans(number) {
            Err(Error::PageOutOfRange(page, 3)) => assert_eq!(page, number),
            other => panic!("unexpected: {:?}", other.map(|s| s.len())),
        }
    }
    assert_eq!(analyzer.font_stats_mut().size_histogram, sizes);
    assert_eq!(analyzer.font_stats_mut().body_size, body);

    let empty = ScriptBackend::new(&[]);
    let nothing = LayoutAnalyzer::new(&empty);
    assert!(nothing.page_list().is_empty());
    assert!(matches!(
        nothing.extract_page_spans(1),
        Err(Error::PageOutOfRange(1, 0))
    ));
}

#[test]
fn the_parser_counts_the_pages_that_are_listed() {
    let parser = PdfParser::with_backend(three_pages(), info(), ParseOptions::new());
    assert_eq!(parser.page_count(), 3);
    assert_eq!(parser.page_list().len(), 3);
    assert_eq!(parser.page_list()[2], (3, (103, 0)));
    let empty = PdfParser::with_backend(ScriptBackend::new(&[]), info(), ParseOptions::new());
    assert_eq!(empty.page_count(), 0);
    let doc = empty.parse().unwrap();
    assert_eq!(doc.metadata.page_count, 0);
    assert!(doc.pages.is_empty());
}
