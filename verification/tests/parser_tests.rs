use unpdf::parser::backend::{
    decode_text_simple, font_info, get_number_from_value, join_streams, PdfValue,
};
use unpdf::parser::container::{
    extract_metadata, extract_xobject, get_page_dimensions, get_string_from_dict,
    parse_pdf_date, resolve_destination, ColorSpaceEntry, ContainerInfo, InfoValue, NameEntry,
    PageBox, XObjectInfo,
};
use unpdf::parser::layout::{
    detect_columns, group_lines_into_blocks, group_spans_into_lines,
    group_spans_into_lines_single_column, is_spaceless_script_char,
};
use unpdf::parser::table_detector::{
    find_column_for_span, is_bullet_marker, is_list_marker, is_number_marker,
};
use unpdf::parser::{
    BlockType, Column, DetectedTable, ErrorMode, ExtractMode, FontStatistics, ParseOptions,
    TableDetector, TableDetectorConfig, TableRowData, TextLine, TextSpan,
};
use unpdf::Error;

/// Points as thousandths of a point.
fn pt(v: f64) -> i32 {
    (v * 1000.0).round() as i32
}

fn make_span(text: &str, x: f64, y: f64) -> TextSpan {
    TextSpan {
        text: text.to_string(),
        x: pt(x),
        y: pt(y),
        width: pt(text.len() as f64 * 6.0), // Approximate width
        font_size: pt(12.0),
        font_name: "Helvetica".to_string(),
        is_bold: false,
        is_italic: false,
    }
}

fn sized_span(text: &str, x: f64, y: f64, width: f64, size: f64) -> TextSpan {
    TextSpan {
        width: pt(width),
        font_size: pt(size),
        ..make_span(text, x, y)
    }
}

#[test]
fn test_decode_text_simple_utf8() {
    assert_eq!(decode_text_simple(b"Hello"), "Hello");
}

#[test]
fn test_decode_text_simple_latin1() {
    // 0xE9 = 'é' in Latin-1
    let bytes = vec![0x48, 0x65, 0x6C, 0x6C, 0xE9];
    let text = decode_text_simple(&bytes);
    assert_eq!(text, "Hellé");
}

#[test]
fn test_decode_text_simple_utf16be() {
    // UTF-16BE BOM + "Hi"
    let bytes = vec![0xFE, 0xFF, 0x00, 0x48, 0x00, 0x69];
    assert_eq!(decode_text_simple(&bytes), "Hi");
}

#[test]
fn test_get_number_from_value() {
    assert_eq!(get_number_from_value(&PdfValue::Integer(42)), Some(42000));
    assert_eq!(get_number_from_value(&PdfValue::Real(3140)), Some(3140));
    assert_eq!(get_number_from_value(&PdfValue::Other), None);
}

#[test]
fn decode_text_simple_edge_cases() {
    assert_eq!(decode_text_simple(b""), "");
    // an odd byte at the end of UTF-16 is dropped
    assert_eq!(decode_text_simple(&[0xFE, 0xFF, 0x00, 0x48, 0x00]), "H");
    // a lone surrogate gives nothing
    assert_eq!(decode_text_simple(&[0xFE, 0xFF, 0xD8, 0x00]), "");
    // well-formed UTF-8 beyond ASCII
    assert_eq!(decode_text_simple("한글".as_bytes()), "한글");
    assert_eq!(
        get_number_from_value(&PdfValue::Integer(i64::MAX)),
        Some(i64::MAX)
    );
    assert_eq!(get_number_from_value(&PdfValue::Name(vec![1])), None);
}

#[test]
fn test_font_statistics() {
    let mut stats = FontStatistics::default();
    // Simulate body text (most common)
    for _ in 0..100 {
        stats.add_size(pt(12.0));
    }
    // Simulate headings
    for _ in 0..5 {
        stats.add_size(pt(18.0));
    }
    for _ in 0..3 {
        stats.add_size(pt(24.0));
    }

    stats.analyze();

    assert!((stats.body_size - pt(12.0)).abs() < pt(0.1));
    assert_eq!(stats.get_heading_level(pt(12.0), false), 0);
    assert!(stats.get_heading_level(pt(18.0), false) > 0);
    assert!(stats.get_heading_level(pt(24.0), false) > 0);
}

#[test]
fn heading_levels_follow_the_size_ranks() {
    let mut stats = FontStatistics::default();
    for _ in 0..100 {
        stats.add_size(pt(12.0));
    }
    for _ in 0..5 {
        stats.add_size(pt(18.0));
    }
    stats.analyze();
    assert_eq!(stats.body_size, 12000);
    assert_eq!(stats.heading_sizes, vec![18000]);
    assert_eq!(stats.get_heading_level(pt(12.0), false), 0);
    assert_eq!(stats.get_heading_level(pt(13.4), true), 0);
    assert_eq!(stats.get_heading_level(pt(18.0), false), 1);
    assert_eq!(stats.get_heading_level(pt(17.5), false), 1);
    // past the threshold but short of every heading size
    assert_eq!(stats.get_heading_level(pt(14.0), false), 5);
    assert!(stats.get_heading_level(pt(24.0), false) <= stats.get_heading_level(pt(18.0), false));
}

#[test]
fn body_size_ties_go_to_the_smaller_size() {
    let mut stats = FontStatistics::default();
    stats.analyze();
    assert_eq!(stats.body_size, 12000);
    for size in [14.0, 10.0, 14.04, 10.09, 30.0] {
        stats.add_size(pt(size));
    }
    stats.analyze();
    assert_eq!(stats.size_histogram.len(), 3);
    assert_eq!(stats.size_histogram[0].key, 100);
    assert_eq!(stats.size_histogram[0].count, 2);
    assert_eq!(stats.body_size, 10000);
    assert_eq!(stats.heading_sizes, vec![30000, 14000]);
    assert_eq!(stats.get_heading_level(pt(30.0), false), 1);
    assert_eq!(stats.get_heading_level(pt(14.0), false), 2);
}

#[test]
fn heading_level_never_exceeds_six() {
    let mut stats = FontStatistics::default();
    for _ in 0..9 {
        stats.add_size(pt(10.0));
    }
    for size in [20.0, 22.0, 24.0, 26.0, 28.0, 30.0, 32.0] {
        stats.add_size(pt(size));
    }
    stats.analyze();
    assert_eq!(stats.heading_sizes.len(), 7);
    assert_eq!(stats.get_heading_level(pt(32.0), false), 1);
    assert_eq!(stats.get_heading_level(pt(22.0), false), 6);
    assert_eq!(stats.get_heading_level(pt(20.0), false), 6);
    // the larger of two heading sizes never gets the less prominent level
    let sizes = [20.0, 22.0, 24.0, 26.0, 28.0, 30.0, 32.0];
    for a in sizes {
        for b in sizes {
            if a > b {
                assert!(
                    stats.get_heading_level(pt(a), false) <= stats.get_heading_level(pt(b), false)
                );
            }
        }
    }
}

#[test]
fn test_text_span_bold_detection() {
    let span = TextSpan::new(
        "Test".to_string(),
        pt(0.0),
        pt(0.0),
        pt(12.0),
        "Helvetica-Bold".to_string(),
    );
    assert!(span.is_bold);
    assert!(!span.is_italic);

    let span2 = TextSpan::new(
        "Test".to_string(),
        pt(0.0),
        pt(0.0),
        pt(12.0),
        "Helvetica-Oblique".to_string(),
    );
    assert!(!span2.is_bold);
    assert!(span2.is_italic);
}

#[test]
fn span_flags_ignore_case() {
    let span = TextSpan::new("x".to_string(), 0, 0, 12000, "ARIAL-BLACK-ITALIC".to_string());
    assert!(span.is_bold);
    assert!(span.is_italic);
    assert_eq!(span.width, 0);
    let heavy = TextSpan::new("x".to_string(), 1, 2, 3, "Foo Heavy".to_string());
    assert!(heavy.is_bold);
    assert_eq!((heavy.x, heavy.y, heavy.font_size), (1, 2, 3));
    let plain = TextSpan::new("x".to_string(), 0, 0, 10000, "Times-Roman".to_string());
    assert!(!plain.is_bold && !plain.is_italic);
    assert_eq!(plain.top(), 8000);
    assert_eq!(plain.bottom(), -2000);
}

#[test]
fn test_column_contains() {
    let col = Column {
        left: 100000,
        right: 200000,
        index: 0,
    };
    assert!(col.contains(100000));
    assert!(col.contains(150000));
    assert!(col.contains(200000));
    assert!(!col.contains(99000));
    assert!(!col.contains(201000));
}

#[test]
fn test_column_contains_span() {
    let col = Column {
        left: 100000,
        right: 200000,
        index: 0,
    };

    // Span fully inside column
    let span1 = TextSpan::new(
        "Test".to_string(),
        pt(120.0),
        pt(0.0),
        pt(12.0),
        "Helvetica".to_string(),
    );
    let span1 = TextSpan {
        width: pt(50.0),
        ..span1
    };
    assert!(col.contains_span(&span1));

    // Span center inside column
    let span2 = TextSpan::new(
        "Test".to_string(),
        pt(90.0),
        pt(0.0),
        pt(12.0),
        "Helvetica".to_string(),
    );
    let span2 = TextSpan {
        width: pt(40.0),
        ..span2
    }; // center at 110
    assert!(col.contains_span(&span2));

    // Span completely outside
    let span3 = TextSpan::new(
        "Test".to_string(),
        pt(250.0),
        pt(0.0),
        pt(12.0),
        "Helvetica".to_string(),
    );
    let span3 = TextSpan {
        width: pt(30.0),
        ..span3
    };
    assert!(!col.contains_span(&span3));
}

#[test]
fn test_parse_options_builder() {
    let options = ParseOptions::new()
        .lenient()
        .text_only()
        .with_memory_limit(512)
        .sequential();

    assert_eq!(options.error_mode, ErrorMode::Lenient);
    assert_eq!(options.extract_mode, ExtractMode::TextOnly);
    assert_eq!(options.memory_limit_mb, 512);
    assert!(!options.parallel);
}

#[test]
fn test_default_options() {
    let options = ParseOptions::default();
    assert_eq!(options.error_mode, ErrorMode::Strict);
    assert!(options.parallel);
    assert!(options.extract_resources);
}

#[test]
fn parse_options_setters() {
    let options = ParseOptions::new()
        .with_error_mode(ErrorMode::Lenient)
        .with_extract_mode(ExtractMode::StructureOnly)
        .with_resources(false)
        .with_parallel(false)
        .with_password("secret");
    assert_eq!(options.error_mode, ErrorMode::Lenient);
    assert_eq!(options.extract_mode, ExtractMode::StructureOnly);
    assert!(!options.extract_resources);
    assert!(!options.parallel);
    assert_eq!(options.password.as_deref(), Some("secret"));
    assert_eq!(options.memory_limit_mb, 0);
}

#[test]
fn test_parse_pdf_date() {
    let date = parse_pdf_date("D:20240115103045").unwrap();
    assert_eq!(date.year, 2024);
    assert_eq!(date.month, 1);
    assert_eq!(date.day, 15);
}

#[test]
fn test_parse_pdf_date_minimal() {
    let date = parse_pdf_date("D:2024").unwrap();
    assert_eq!(date.year, 2024);
    assert_eq!(date.month, 1);
    assert_eq!(date.day, 1);
}

#[test]
fn pdf_dates_in_detail() {
    let date = parse_pdf_date("D:20240115103045+09'00'").unwrap();
    assert_eq!((date.hour, date.minute, date.second), (10, 30, 45));
    assert!(parse_pdf_date("20240115").is_none());
    assert!(parse_pdf_date("D:202").is_none());
    assert!(parse_pdf_date("D:abcd").is_none());
    // a date that does not exist
    assert!(parse_pdf_date("D:20230230").is_none());
    assert!(parse_pdf_date("D:20240101250000").is_none());
    // a field that writes no number falls back to its default
    let date = parse_pdf_date("D:2024xx15").unwrap();
    assert_eq!((date.month, date.day), (1, 15));
    let date = parse_pdf_date("D:202412").unwrap();
    assert_eq!((date.month, date.day, date.hour), (12, 1, 0));
}

#[test]
fn test_group_into_rows() {
    let detector = TableDetector::new();
    let spans = vec![
        make_span("A1", 10.0, 100.0),
        make_span("B1", 60.0, 100.0),
        make_span("A2", 10.0, 85.0),
        make_span("B2", 60.0, 85.0),
    ];

    let rows = detector.group_into_rows(&spans);
    assert_eq!(rows.len(), 2);
    assert_eq!(rows[0].spans.len(), 2);
    assert_eq!(rows[1].spans.len(), 2);
}

#[test]
fn test_detect_columns() {
    let detector = TableDetector::new();
    let rows = vec![
        TableRowData {
            y: pt(100.0),
            spans: vec![make_span("A1", 10.0, 100.0), make_span("B1", 60.0, 100.0)],
        },
        TableRowData {
            y: pt(85.0),
            spans: vec![make_span("A2", 10.0, 85.0), make_span("B2", 60.0, 85.0)],
        },
        TableRowData {
            y: pt(70.0),
            spans: vec![make_span("A3", 10.0, 70.0), make_span("B3", 60.0, 70.0)],
        },
    ];

    let columns = detector.detect_columns(&rows);
    assert_eq!(columns.len(), 2);
}

#[test]
fn test_detect_simple_table() {
    let detector = TableDetector::new();
    let spans = vec![
        // Header row
        make_span("Name", 10.0, 100.0),
        make_span("Age", 60.0, 100.0),
        // Data row 1
        make_span("Alice", 10.0, 85.0),
        make_span("30", 60.0, 85.0),
        // Data row 2
        make_span("Bob", 10.0, 70.0),
        make_span("25", 60.0, 70.0),
    ];

    let (tables, remaining) = detector.detect(spans);
    assert_eq!(tables.len(), 1);
    assert!(remaining.is_empty());

    let table = &tables[0];
    assert_eq!(table.rows.len(), 3);
    assert_eq!(table.columns.len(), 2);
}

#[test]
fn detected_table_in_detail() {
    let detector = TableDetector::new();
    let spans = vec![
        make_span("Bob", 10.0, 70.0),
        make_span("30", 60.0, 85.0),
        make_span("Name", 10.0, 100.0),
        make_span("25", 60.0, 70.0),
        make_span("Alice", 10.0, 85.0),
        make_span("Age", 60.0, 100.0),
    ];
    let (tables, remaining) = detector.detect(spans);
    assert!(remaining.is_empty());
    let table = &tables[0];
    assert_eq!(table.columns, vec![10000, 60000]);
    assert_eq!((table.top_y, table.bottom_y), (100000, 70000));
    assert_eq!((table.left_x, table.right_x), (10000, 78000));
    let texts: Vec<Vec<&str>> = table
        .rows
        .iter()
        .map(|r| r.spans.iter().map(|s| s.text.as_str()).collect())
        .collect();
    assert_eq!(
        texts,
        vec![vec!["Name", "Age"], vec!["Alice", "30"], vec!["Bob", "25"]]
    );
    let model = detector.to_table_model(table);
    assert_eq!(model.header_rows, 1);
    assert!(model.rows[0].is_header);
    assert!(!model.rows[1].is_header);
    assert_eq!(model.plain_text(), "Name\tAge\nAlice\t30\nBob\t25");
    assert_eq!(model.column_widths, Some(vec![50000, 18000]));
}

#[test]
fn test_no_table_single_column() {
    let detector = TableDetector::new();
    let spans = vec![
        make_span("Line 1", 10.0, 100.0),
        make_span("Line 2", 10.0, 85.0),
        make_span("Line 3", 10.0, 70.0),
    ];

    let (tables, remaining) = detector.detect(spans);
    assert!(tables.is_empty());
    assert_eq!(remaining.len(), 3);
}

#[test]
fn test_table_model_conversion() {
    let detector = TableDetector::new();
    let detected = DetectedTable {
        top_y: pt(100.0),
        bottom_y: pt(70.0),
        left_x: 10000,
        right_x: 100000,
        columns: vec![10000, 60000],
        rows: vec![
            TableRowData {
                y: pt(100.0),
                spans: vec![
                    make_span("Name", 10.0, 100.0),
                    make_span("Age", 60.0, 100.0),
                ],
            },
            TableRowData {
                y: pt(85.0),
                spans: vec![make_span("Alice", 10.0, 85.0), make_span("30", 60.0, 85.0)],
            },
        ],
    };

    let table = detector.to_table_model(&detected);
    assert_eq!(table.row_count(), 2);
    assert_eq!(table.column_count(), 2);
    assert_eq!(table.header_rows, 1);
}

#[test]
fn test_numbered_list_not_detected_as_table() {
    let detector = TableDetector::new();
    // Simulates a numbered list where number and text are separate spans
    let spans = vec![
        make_span("1.", 50.0, 400.0),
        make_span("장비관리설정", 80.0, 400.0),
        make_span("2.", 50.0, 370.0),
        make_span("Object관리", 80.0, 370.0),
        make_span("3.", 50.0, 340.0),
        make_span("정책관리 및 라우팅", 80.0, 340.0),
        make_span("4.", 50.0, 310.0),
        make_span("VPN", 80.0, 310.0),
        make_span("5.", 50.0, 280.0),
        make_span("운영관리", 80.0, 280.0),
    ];

    let (tables, remaining) = detector.detect(spans);
    assert!(
        tables.is_empty(),
        "Numbered list should not be detected as a table"
    );
    assert_eq!(remaining.len(), 10);
}

#[test]
fn test_bullet_list_not_detected_as_table() {
    let detector = TableDetector::new();
    // Simulates a bullet list with "-" markers
    let spans = vec![
        make_span("-", 50.0, 400.0),
        make_span("Management", 80.0, 400.0),
        make_span("-", 50.0, 370.0),
        make_span("Interface/Service Option", 80.0, 370.0),
        make_span("-", 50.0, 340.0),
        make_span("Firmware", 80.0, 340.0),
    ];

    let (tables, remaining) = detector.detect(spans);
    assert!(
        tables.is_empty(),
        "Bullet list should not be detected as a table"
    );
    assert_eq!(remaining.len(), 6);
}

#[test]
fn test_is_list_marker() {
    // Numbered markers
    assert!(is_list_marker("1."));
    assert!(is_list_marker("12."));
    assert!(is_list_marker("1)"));
    assert!(is_list_marker("1 .")); // with space
    assert!(is_list_marker("3")); // bare number

    // Bullet markers
    assert!(is_list_marker("-"));
    assert!(is_list_marker("•"));
    assert!(is_list_marker("*"));
    assert!(is_list_marker("–"));

    // Letter markers
    assert!(is_list_marker("a."));
    assert!(is_list_marker("B)"));

    // Not markers
    assert!(!is_list_marker("Name"));
    assert!(!is_list_marker("Hello World"));
    assert!(!is_list_marker("Alice"));
    assert!(!is_list_marker(""));
}

#[test]
fn markers_in_detail() {
    for m in ["—", "·", "○", "▪", "◦", "▸", "▹", "►", "■", "●", "※", "□", "◆", "◇", "▶", "▷", "☞", "➤", "➜"] {
        assert!(is_bullet_marker(m), "{}", m);
        assert!(is_bullet_marker(&format!("  {} ", m)), "{}", m);
    }
    assert!(!is_bullet_marker("--"));
    assert!(!is_bullet_marker("+"));
    assert!(!is_number_marker("-"));
    assert!(is_number_marker("4294967295"));
    assert!(!is_number_marker("4294967296"));
    assert!(is_number_marker("+7"));
    assert!(is_number_marker(" 1 2 ) "));
    assert!(!is_number_marker("1.2"));
    assert!(!is_number_marker("."));
    assert!(!is_number_marker("ab."));
    assert!(!is_number_marker("é."));
    assert!(!is_number_marker("é"));
    assert!(is_number_marker("z)"));
}

#[test]
fn a_numbered_first_column_in_a_wide_table_is_kept() {
    let detector = TableDetector::new();
    let mut spans = Vec::new();
    for (i, y) in [400.0, 380.0, 360.0].iter().enumerate() {
        spans.push(make_span(&format!("{}.", i + 1), 50.0, *y));
        spans.push(make_span("name", 100.0, *y));
        spans.push(make_span("value", 200.0, *y));
    }
    let (tables, remaining) = detector.detect(spans);
    assert_eq!(tables.len(), 1);
    assert_eq!(tables[0].columns.len(), 3);
    assert!(remaining.is_empty());
    assert!(!detector.is_list_pattern(&tables[0].rows, &tables[0].columns));
}

#[test]
fn regions_with_too_many_columns_are_rejected() {
    let detector = TableDetector::new();
    let mut spans = Vec::new();
    for y in [400.0, 380.0, 360.0] {
        for c in 0..7 {
            spans.push(make_span("w", 50.0 + 40.0 * c as f64, y));
        }
    }
    let (tables, remaining) = detector.detect(spans);
    assert!(tables.is_empty());
    assert_eq!(remaining.len(), 21);

    let wide = TableDetector::with_config(TableDetectorConfig {
        max_columns: 7,
        ..TableDetectorConfig::default()
    });
    let mut spans = Vec::new();
    for y in [400.0, 380.0, 360.0] {
        for c in 0..7 {
            spans.push(make_span("w", 50.0 + 40.0 * c as f64, y));
        }
    }
    let (tables, remaining) = wide.detect(spans);
    assert_eq!(tables.len(), 1);
    assert!(remaining.is_empty());
}

#[test]
fn text_above_a_table_stays_for_the_paragraphs() {
    let detector = TableDetector::new();
    let spans = vec![
        make_span("A heading line", 30.0, 200.0),
        make_span("Name", 10.0, 100.0),
        make_span("Age", 60.0, 100.0),
        make_span("Alice", 10.0, 85.0),
        make_span("30", 60.0, 85.0),
        make_span("closing remark", 33.0, 20.0),
    ];
    let (tables, remaining) = detector.detect(spans);
    assert_eq!(tables.len(), 1);
    assert_eq!(tables[0].rows.len(), 2);
    let texts: Vec<&str> = remaining.iter().map(|s| s.text.as_str()).collect();
    assert_eq!(texts, vec!["A heading line", "closing remark"]);
    // nothing that a table took is left over
    for row in &tables[0].rows {
        for span in &row.spans {
            assert!(remaining.iter().all(|r| r.text != span.text));
        }
    }
}

#[test]
fn alignment_and_regions() {
    let detector = TableDetector::new();
    let rows = vec![
        TableRowData {
            y: pt(100.0),
            spans: vec![make_span("far off", 300.0, 100.0)],
        },
        TableRowData {
            y: pt(90.0),
            spans: vec![make_span("a", 10.0, 90.0), make_span("b", 64.9, 90.0)],
        },
        TableRowData {
            y: pt(80.0),
            spans: vec![make_span("a", 14.0, 80.0), make_span("b", 66.0, 80.0)],
        },
        TableRowData {
            y: pt(70.0),
            spans: vec![],
        },
    ];
    let columns = vec![10000, 60000];
    assert_eq!(detector.calculate_alignment_score(&rows[0], &columns), (0, 1));
    assert_eq!(detector.calculate_alignment_score(&rows[1], &columns), (2, 2));
    assert_eq!(detector.calculate_alignment_score(&rows[2], &columns), (1, 2));
    assert_eq!(detector.find_table_regions(&rows, &columns), vec![(1, 2)]);
    assert!(detector.find_table_regions(&rows, &vec![10000]).is_empty());
    assert_eq!(find_column_for_span(pt(1.0), &columns, 100000), 0);
    assert_eq!(find_column_for_span(pt(49.9), &columns, 100000), 0);
    assert_eq!(find_column_for_span(pt(50.0), &columns, 100000), 1);
    assert_eq!(find_column_for_span(pt(-50.0), &columns, 100000), 0);
    assert_eq!(find_column_for_span(pt(500.0), &columns, 100000), 1);
    assert_eq!(find_column_for_span(pt(5.0), &vec![], 100000), 0);
}

#[test]
fn column_edges_merge_when_close() {
    let detector = TableDetector::new();
    let rows: Vec<TableRowData> = [100.0, 85.0, 70.0]
        .iter()
        .map(|y| TableRowData {
            y: pt(*y),
            spans: vec![
                make_span("a", 10.0, *y),
                make_span("b", 22.0, *y),
                make_span("c", 60.0, *y),
            ],
        })
        .collect();
    // buckets at 10, 20 and 60 points; 20 lies less than 15 points from 10
    assert_eq!(detector.detect_columns(&rows), vec![10000, 60000]);
    assert_eq!(detector.detect_columns_simple(&rows), vec![10000, 60000]);
    assert!(detector.detect_columns(&vec![]).is_empty());
}

#[test]
fn lines_join_spans_with_spaces_where_they_are_apart() {
    let line = TextLine::from_spans(vec![
        sized_span("world", 50.0, 100.0, 30.0, 12.0),
        sized_span("Hello", 10.0, 100.0, 30.0, 12.0),
        sized_span("!", 80.0, 100.0, 6.0, 12.0),
    ]);
    assert_eq!(line.text(), "Hello world!");
    assert_eq!((line.x, line.y), (10000, 100000));
    assert_eq!(line.font_size, 12000);
    assert!(!line.is_heading);
    assert_eq!(line.heading_level, 0);

    let spaced = TextLine::from_spans(vec![
        sized_span("Hello ", 10.0, 100.0, 30.0, 12.0),
        sized_span("world", 60.0, 100.0, 30.0, 12.0),
    ]);
    assert_eq!(spaced.text(), "Hello world");
    let nbsp = TextLine::from_spans(vec![
        sized_span("Hello", 10.0, 100.0, 30.0, 12.0),
        sized_span("\u{00A0}world", 60.0, 100.0, 30.0, 12.0),
    ]);
    assert_eq!(nbsp.text(), "Hello\u{00A0}world");
    assert_eq!(TextLine::from_spans(vec![]).text(), "");
}

#[test]
fn no_space_between_ideographs_whatever_the_gap() {
    for gap in [0.0, 1.0, 20.0, 400.0] {
        let line = TextLine::from_spans(vec![
            sized_span("日本", 10.0, 100.0, 24.0, 12.0),
            sized_span("語", 34.0 + gap, 100.0, 12.0, 12.0),
        ]);
        assert_eq!(line.text(), "日本語");
    }
    // Hangul is written with spaces
    let korean = TextLine::from_spans(vec![
        sized_span("반드시", 10.0, 100.0, 36.0, 12.0),
        sized_span("지키", 60.0, 100.0, 24.0, 12.0),
    ]);
    assert_eq!(korean.text(), "반드시 지키");
    assert!(is_spaceless_script_char('語'));
    assert!(is_spaceless_script_char('あ'));
    assert!(is_spaceless_script_char('ア'));
    assert!(is_spaceless_script_char('。'));
    assert!(!is_spaceless_script_char('한'));
    assert!(!is_spaceless_script_char('a'));
    assert!(is_spaceless_script_char('\u{F900}'));
    assert!(is_spaceless_script_char('\u{2FA1F}'));
    assert!(is_spaceless_script_char('\u{3400}'));
    assert!(is_spaceless_script_char('\u{2EBEF}'));
    assert!(!is_spaceless_script_char('\u{2EBF0}'));
    assert!(!is_spaceless_script_char('\u{3130}'));
}

#[test]
fn dominant_size_is_weighted_by_characters() {
    let line = TextLine::from_spans(vec![
        sized_span("aaaaaaaaa", 10.0, 100.0, 54.0, 10.0),
        sized_span("B", 70.0, 100.0, 12.0, 20.0),
    ]);
    // (9 * 10 + 1 * 20) / 10 = 11
    assert_eq!(line.font_size, 11000);
    let mut bold = sized_span("BOLD TEXT", 10.0, 100.0, 54.0, 10.0);
    bold.is_bold = true;
    let line = TextLine::from_spans(vec![bold, sized_span("tail", 70.0, 100.0, 24.0, 10.0)]);
    assert!(line.is_bold());
    assert!(!line.is_uppercase());
    let shout = TextLine::from_spans(vec![sized_span("ÜBER 9000!", 10.0, 100.0, 60.0, 10.0)]);
    assert!(shout.is_uppercase());
    assert!(!shout.is_bold());
    let digits = TextLine::from_spans(vec![sized_span("1234", 10.0, 100.0, 24.0, 10.0)]);
    assert!(!digits.is_uppercase());
}

#[test]
fn spans_are_grouped_into_lines_top_down() {
    let spans = vec![
        sized_span("second", 10.0, 680.0, 36.0, 12.0),
        sized_span("line", 50.0, 703.0, 24.0, 12.0),
        sized_span("First", 10.0, 700.0, 30.0, 12.0),
        sized_span("third", 10.0, 660.0, 30.0, 12.0),
    ];
    let lines = group_spans_into_lines_single_column(&spans);
    let texts: Vec<String> = lines.iter().map(|l| l.text()).collect();
    assert_eq!(texts, vec!["First line", "second", "third"]);
    assert_eq!(lines[0].y, 700000);
    let lines = group_spans_into_lines(&spans);
    assert_eq!(lines.len(), 3);
    assert!(group_spans_into_lines(&vec![]).is_empty());
}

fn column_of_lines(x: f64, prefix: &str) -> Vec<TextSpan> {
    (0..6)
        .map(|i| sized_span(&format!("{}{}", prefix, i), x, 700.0 - 20.0 * i as f64, 150.0, 12.0))
        .collect()
}

#[test]
fn two_columns_are_found_and_read_left_first() {
    let mut spans = column_of_lines(50.0, "left");
    spans.extend(column_of_lines(330.0, "right"));
    let columns = detect_columns(&spans);
    assert_eq!(columns.len(), 2);
    assert_eq!(columns[0].left, 40000);
    assert_eq!(columns[1].right, 490000);
    assert_eq!(columns[0].right, columns[1].left);
    assert!(columns[0].right > 200000 && columns[0].right < 330000);
    let lines = group_spans_into_lines(&spans);
    let texts: Vec<String> = lines.iter().map(|l| l.text()).collect();
    assert_eq!(texts.len(), 12);
    assert_eq!(&texts[..4], &["left0", "right0", "left1", "right1"]);
}

#[test]
fn narrow_or_continuous_text_is_one_column() {
    let spans = column_of_lines(50.0, "only");
    let columns = detect_columns(&spans);
    assert_eq!(columns.len(), 1);
    assert_eq!((columns[0].left, columns[0].right), (40000, 210000));
    assert_eq!(columns[0].index, 0);
    // wide text without a gutter
    let wide: Vec<TextSpan> = (0..6)
        .map(|i| sized_span("a wide line of text", 50.0, 700.0 - 20.0 * i as f64, 450.0, 12.0))
        .collect();
    assert_eq!(detect_columns(&wide).len(), 1);
    assert!(detect_columns(&vec![]).is_empty());
}

#[test]
fn lines_are_grouped_into_blocks() {
    let mut stats = FontStatistics::default();
    for _ in 0..20 {
        stats.add_size(pt(12.0));
    }
    stats.add_size(pt(20.0));
    stats.analyze();
    let spans = vec![
        sized_span("Title", 50.0, 700.0, 60.0, 20.0),
        sized_span("First line", 50.0, 670.0, 60.0, 12.0),
        sized_span("second line", 50.0, 656.0, 66.0, 12.0),
        sized_span("Another paragraph", 50.0, 600.0, 100.0, 12.0),
        sized_span("indented", 90.0, 586.0, 50.0, 12.0),
    ];
    let lines = group_spans_into_lines(&spans);
    let lines = unpdf::parser::layout::detect_headings(&stats, lines);
    assert!(lines[0].is_heading);
    assert_eq!(lines[0].heading_level, 1);
    assert!(!lines[1].is_heading);
    let blocks = group_lines_into_blocks(&lines);
    let texts: Vec<String> = blocks.iter().map(|b| b.text()).collect();
    assert_eq!(
        texts,
        vec![
            "Title",
            "First line second line",
            "Another paragraph",
            "indented"
        ]
    );
    assert_eq!(blocks[0].block_type, BlockType::Heading);
    assert_eq!(blocks[0].heading_level, 1);
    assert_eq!(blocks[1].block_type, BlockType::Paragraph);
    assert_eq!(blocks[1].heading_level, 0);
    assert!(!blocks[1].is_empty());
    assert!(group_lines_into_blocks(&vec![]).is_empty());
}

#[test]
fn info_dictionary_strings() {
    assert_eq!(
        get_string_from_dict(&InfoValue::Text(b"Title".to_vec())).as_deref(),
        Some("Title")
    );
    assert_eq!(
        get_string_from_dict(&InfoValue::Text(vec![0xFE, 0xFF, 0x00, 0x48, 0x00, 0x69])).as_deref(),
        Some("Hi")
    );
    assert_eq!(
        get_string_from_dict(&InfoValue::Text(vec![0xFE, 0xFF, 0xD8, 0x00])),
        None
    );
    assert_eq!(
        get_string_from_dict(&InfoValue::Text(vec![0x48, 0xE9])).as_deref(),
        Some("Hé")
    );
    assert_eq!(
        get_string_from_dict(&InfoValue::Name(b"Name".to_vec())).as_deref(),
        Some("Name")
    );
    assert_eq!(get_string_from_dict(&InfoValue::Name(vec![0xE9])), None);
}

fn empty_info() -> ContainerInfo {
    ContainerInfo {
        version: "1.7".to_string(),
        encrypted: false,
        title: None,
        author: None,
        subject: None,
        keywords: None,
        creator: None,
        producer: None,
        creation_date: None,
        mod_date: None,
        page_boxes: vec![],
        outline: None,
        xobjects: vec![],
    }
}

#[test]
fn metadata_from_the_container() {
    let info = ContainerInfo {
        encrypted: true,
        title: Some(InfoValue::Text(b"Report".to_vec())),
        author: Some(InfoValue::Name(vec![0xFF])),
        creation_date: Some(InfoValue::Text(b"D:20240115103045".to_vec())),
        mod_date: Some(InfoValue::Text(b"yesterday".to_vec())),
        ..empty_info()
    };
    let m = extract_metadata(&info);
    assert_eq!(m.pdf_version, "1.7");
    assert_eq!(m.title.as_deref(), Some("Report"));
    assert_eq!(m.author, None);
    assert_eq!(m.created.unwrap().day, 15);
    assert_eq!(m.modified, None);
    assert!(m.encrypted);
    assert_eq!(m.page_count, 0);
}

fn xobject(filter: &str) -> XObjectInfo {
    XObjectInfo {
        subtype: NameEntry::Name(b"Image".to_vec()),
        width: Some(640),
        height: Some(480),
        bits_per_component: Some(8),
        filter: if filter.is_empty() {
            NameEntry::Absent
        } else {
            NameEntry::Name(filter.as_bytes().to_vec())
        },
        content: vec![1, 2, 3],
        decompressed: Some(vec![9, 9, 9, 9]),
        color_space: ColorSpaceEntry::Name(b"DeviceRGB".to_vec()),
    }
}

#[test]
fn image_objects_become_resources() {
    let jpeg = extract_xobject(&xobject("DCTDecode")).unwrap();
    assert_eq!(jpeg.mime_type, "image/jpeg");
    assert_eq!(jpeg.data, vec![1, 2, 3]);
    assert_eq!((jpeg.width, jpeg.height), (Some(640), Some(480)));
    assert_eq!(jpeg.bits_per_component, Some(8));
    assert_eq!(jpeg.color_space.as_deref(), Some("DeviceRGB"));
    assert!(jpeg.is_image());

    let flate = extract_xobject(&xobject("FlateDecode")).unwrap();
    assert_eq!(flate.mime_type, "application/octet-stream");
    assert_eq!(flate.data, vec![9, 9, 9, 9]);
    let unfiltered = extract_xobject(&XObjectInfo {
        height: None,
        ..xobject("")
    })
    .unwrap();
    assert_eq!(unfiltered.data, vec![9, 9, 9, 9]);
    assert_eq!((unfiltered.width, unfiltered.height), (None, None));
    for filter in ["", "FlateDecode", "LZWDecode"] {
        let broken = XObjectInfo {
            decompressed: None,
            ..xobject(filter)
        };
        match extract_xobject(&broken) {
            Err(Error::ImageExtract(m)) => assert_eq!(m, "Image data cannot be decompressed"),
            other => panic!("unexpected: {:?}", other),
        }
    }
    let stored = XObjectInfo {
        decompressed: None,
        ..xobject("DCTDecode")
    };
    assert_eq!(extract_xobject(&stored).unwrap().data, vec![1, 2, 3]);
    assert_eq!(
        extract_xobject(&xobject("JPXDecode")).unwrap().mime_type,
        "image/jp2"
    );
    let other = extract_xobject(&xobject("CCITTFaxDecode")).unwrap();
    assert_eq!(other.mime_type, "application/octet-stream");
    assert_eq!(other.data, vec![1, 2, 3]);

    let form = XObjectInfo {
        subtype: NameEntry::Name(b"Form".to_vec()),
        ..xobject("")
    };
    match extract_xobject(&form) {
        Err(Error::ImageExtract(m)) => assert_eq!(m, "Not an image XObject"),
        other => panic!("unexpected: {:?}", other),
    }
    let no_name = XObjectInfo {
        subtype: NameEntry::Other,
        ..xobject("")
    };
    assert!(extract_xobject(&no_name).is_err());
    let unnamed = XObjectInfo {
        subtype: NameEntry::Absent,
        ..xobject("DCTDecode")
    };
    assert!(extract_xobject(&unnamed).is_ok());
}

#[test]
fn filters_and_colour_spaces_are_read_from_name_entries() {
    // a filter that is no well-formed name counts as none
    let odd = XObjectInfo {
        filter: NameEntry::Name(vec![0x44, 0xFF]),
        ..xobject("")
    };
    assert_eq!(extract_xobject(&odd).unwrap().data, vec![9, 9, 9, 9]);
    let listed = XObjectInfo {
        filter: NameEntry::Other,
        ..xobject("")
    };
    assert_eq!(extract_xobject(&listed).unwrap().data, vec![9, 9, 9, 9]);

    let colour = |entry: ColorSpaceEntry| {
        extract_xobject(&XObjectInfo {
            color_space: entry,
            ..xobject("DCTDecode")
        })
        .unwrap()
        .color_space
    };
    assert_eq!(colour(ColorSpaceEntry::Absent), None);
    assert_eq!(colour(ColorSpaceEntry::Other), None);
    assert_eq!(
        colour(ColorSpaceEntry::Name(vec![0x47, 0xFF])).as_deref(),
        Some("G\u{FFFD}")
    );
    assert_eq!(
        colour(ColorSpaceEntry::Array(NameEntry::Name(b"ICCBased".to_vec()))).as_deref(),
        Some("ICCBased")
    );
    assert_eq!(colour(ColorSpaceEntry::Array(NameEntry::Name(vec![0xFF]))), None);
    assert_eq!(colour(ColorSpaceEntry::Array(NameEntry::Other)), None);
    assert_eq!(colour(ColorSpaceEntry::Array(NameEntry::Absent)), None);
}

#[test]
fn destinations_and_page_sizes() {
    let pages = vec![(1, (10, 0)), (2, (12, 0)), (3, (15, 1))];
    assert_eq!(resolve_destination(&pages, (12, 0)), Some(2));
    assert_eq!(resolve_destination(&pages, (15, 0)), None);
    assert_eq!(resolve_destination(&vec![], (1, 0)), None);
    let boxes = vec![
        PageBox {
            number: 2,
            width: Some(595000),
            height: Some(842000),
        },
        PageBox {
            number: 3,
            width: None,
            height: Some(500000),
        },
        PageBox {
            number: 4,
            width: Some(300000),
            height: None,
        },
        PageBox {
            number: 2,
            width: Some(1),
            height: Some(1),
        },
    ];
    assert_eq!(get_page_dimensions(&boxes, 2), (595000, 842000));
    assert_eq!(get_page_dimensions(&boxes, 1), (612000, 792000));
    assert_eq!(get_page_dimensions(&boxes, 3), (612000, 500000));
    assert_eq!(get_page_dimensions(&boxes, 4), (300000, 792000));
}

#[test]
fn streams_are_joined_with_a_blank_between() {
    assert_eq!(join_streams(&vec![]), Vec::<u8>::new());
    assert_eq!(join_streams(&vec![b"BT".to_vec()]), b"BT".to_vec());
    assert_eq!(
        join_streams(&vec![b"BT".to_vec(), vec![], b"ET".to_vec()]),
        b"BT  ET".to_vec()
    );
}

#[test]
fn fonts_without_a_base_name_are_unknown() {
    let named = font_info(b"F1", Some(&b"Helvetica-Bold"[..]));
    assert_eq!(named.name, b"F1".to_vec());
    assert_eq!(named.base_font, "Helvetica-Bold");
    let broken = font_info(b"F2", Some(&[0x41, 0xFF][..]));
    assert_eq!(broken.base_font, "A\u{FFFD}");
    assert_eq!(font_info(b"F3", None).base_font, "Unknown");
}

#[test]
fn a_size_under_all_heading_sizes_gets_the_middle_level() {
    let mut stats = FontStatistics::default();
    for _ in 0..10 {
        stats.add_size(12000);
    }
    for size in [30000, 28000, 26000, 24000, 22000, 20000] {
        stats.add_size(size);
    }
    stats.analyze();
    assert_eq!(stats.body_size, 12000);
    assert_eq!(stats.get_heading_level(13400, false), 0);
    assert_eq!(stats.get_heading_level(14000, false), 5);
    assert_eq!(stats.get_heading_level(19600, false), 6);
    assert_eq!(stats.get_heading_level(21500, false), 5);
    assert_eq!(stats.get_heading_level(40000, false), 1);
}
