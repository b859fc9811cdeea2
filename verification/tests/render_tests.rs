use unpdf::model::{
    Alignment, Block, Document, InlineContent, ListInfo, ListStyle, NumberStyle, Page, Paragraph,
    Table, TableCell, TableRow, TextRun, TextStyle,
};
use unpdf::render::markdown::{apply_text_style, escape_markdown, to_roman};
use unpdf::render::streaming::{collect_content, RenderEvent, StreamingRenderer};
use unpdf::render::visitor::{
    CompositeVisitor, DefaultVisitor, DocumentVisitor, MaxHeadingDepthVisitor, SkipImagesVisitor,
    VisitorAction,
};
use unpdf::render::{
    to_markdown, to_markdown_with_stats, to_text, CleanupOptions, CleanupPipeline, CleanupPreset,
    ExtractionStats, JsonFormat, PageSelection, RenderOptions, RenderResult, TableFallback,
};
use unpdf::Error;

#[test]
fn test_unicode_normalization() {
    let pipeline = CleanupPipeline::from_preset(CleanupPreset::Minimal);
    let text = "café"; // With combining characters
    let result = pipeline.process(text);
    assert!(result.contains("café"));
}

#[test]
fn combining_marks_are_composed() {
    let pipeline = CleanupPipeline::from_preset(CleanupPreset::Minimal);
    assert_eq!(pipeline.process("cafe\u{301}"), "caf\u{e9}");
    assert_eq!(pipeline.process("가"), "가");
}

#[test]
fn test_ligature_fix() {
    let pipeline = CleanupPipeline::from_preset(CleanupPreset::Standard);
    let text = "ﬁnding ﬂowers";
    let result = pipeline.process(text);
    assert_eq!(result, "finding flowers");
}

#[test]
fn every_ligature_is_written_out() {
    let pipeline = CleanupPipeline::from_preset(CleanupPreset::Standard);
    assert_eq!(
        pipeline.process("\u{FB00} \u{FB01} \u{FB02} \u{FB03} \u{FB04} \u{FB05} \u{FB06}"),
        "ff fi fl ffi ffl st st"
    );
    let minimal = CleanupPipeline::from_preset(CleanupPreset::Minimal);
    assert_eq!(minimal.process("\u{FB01}x"), "\u{FB01}x");
}

#[test]
fn test_bullet_standardization() {
    let pipeline = CleanupPipeline::from_preset(CleanupPreset::Standard);
    let text = "● Item 1\n○ Item 2\n■ Item 3";
    let result = pipeline.process(text);
    assert!(result.contains("• Item 1"));
    assert!(result.contains("• Item 2"));
}

#[test]
fn test_hyphenation_fix() {
    let pipeline = CleanupPipeline::from_preset(CleanupPreset::Standard);

    // Basic case: hyphen + newline
    let text = "This is infor-\nmation about something.";
    let result = pipeline.process(text);
    assert!(result.contains("information"));

    // Case with space after hyphen (common in PDF extraction)
    let text2 = "This is adip- iscing elit.";
    let result2 = pipeline.process(text2);
    assert!(
        result2.contains("adipiscing"),
        "Expected 'adipiscing' but got: {}",
        result2
    );

    // Case with hyphen + newline + space
    let text3 = "con-\n sectetuer";
    let result3 = pipeline.process(text3);
    assert!(
        result3.contains("consectetuer"),
        "Expected 'consectetuer' but got: {}",
        result3
    );
}

#[test]
fn hyphenated_word_is_joined_exactly() {
    let pipeline = CleanupPipeline::from_preset(CleanupPreset::Standard);
    assert_eq!(pipeline.process("infor-\nmation"), "information");
}

#[test]
fn test_frontmatter_preservation() {
    let pipeline = CleanupPipeline::from_preset(CleanupPreset::Aggressive);
    let text = "---\ntitle: Test\n---\n\nContent with   extra   spaces.";
    let result = pipeline.process(text);
    assert!(result.starts_with("---\n"));
    assert!(result.contains("title: Test"));
}

#[test]
fn frontmatter_is_kept_byte_for_byte() {
    let frontmatter = "---\ntitle:   \u{FB01}rst  \u{25CF}\nnote: 12-\n  3\n---\n";
    let body = "\n\u{FB01}nding   \u{FB02}owers\n";
    for preset in [
        CleanupPreset::Minimal,
        CleanupPreset::Standard,
        CleanupPreset::Aggressive,
    ] {
        let pipeline = CleanupPipeline::from_preset(preset);
        let result = pipeline.process(&format!("{}{}", frontmatter, body));
        assert!(result.starts_with(frontmatter), "{:?}", preset);
    }
    let standard = CleanupPipeline::from_preset(CleanupPreset::Standard);
    assert_eq!(
        standard.process(&format!("{}{}", frontmatter, body)),
        format!("{}\nfinding  flowers", frontmatter)
    );
    let (fm, rest) = standard
        .extract_frontmatter("---\na: b\n---\nrest\n---\n")
        .unwrap();
    assert_eq!(fm, "---\na: b\n---\n");
    assert_eq!(rest, "rest\n---\n");
    assert!(standard.extract_frontmatter("---\nnever closed").is_none());
    assert!(standard.extract_frontmatter("no frontmatter\n---\n").is_none());
    assert!(standard.extract_frontmatter("---\n---\n").is_none());

    let mut options = CleanupOptions::standard();
    options.preserve_frontmatter = false;
    let plain = CleanupPipeline::new(options);
    assert!(!plain.process(&format!("{}{}", frontmatter, body)).starts_with(frontmatter));
}

#[test]
fn test_merge_single_newlines() {
    let pipeline = CleanupPipeline::from_preset(CleanupPreset::Standard);
    let text = "This\nis\na\ntest.\n\nNew paragraph.";
    let result = pipeline.process(text);
    assert!(result.contains("This is a test."));
    assert!(result.contains("\n\n") || result.contains("New paragraph"));
}

#[test]
fn test_remove_replacement_char() {
    let pipeline = CleanupPipeline::from_preset(CleanupPreset::Standard);
    let text = "Hello\u{FFFD}World";
    let result = pipeline.process(text);
    assert_eq!(result, "HelloWorld");
}

#[test]
fn test_merge_list_markers_bullet() {
    let pipeline = CleanupPipeline::from_preset(CleanupPreset::Standard);
    let text = "• \n'안전을 위한 주의사항'은 제품을 올바르게 사용하기 위한 것입니다.";
    let result = pipeline.process(text);
    assert!(
        result.starts_with("• '안전을"),
        "Expected bullet merged, got: {}",
        result
    );
}

#[test]
fn test_merge_list_markers_number() {
    let pipeline = CleanupPipeline::from_preset(CleanupPreset::Standard);
    let text = "01. \n인명이나 재산상에 영향이 큰 기기에 사용하지 마십시오.";
    let result = pipeline.process(text);
    assert!(
        result.starts_with("01. 인명이나"),
        "Expected number merged, got: {}",
        result
    );
}

#[test]
fn test_merge_cjk_lines() {
    let pipeline = CleanupPipeline::from_preset(CleanupPreset::Standard);
    let text = "반드시 지키\n십시오.";
    let result = pipeline.process(text);
    assert!(
        result.contains("반드시 지키십시오"),
        "Expected CJK merged, got: {}",
        result
    );
}

#[test]
fn test_merge_cjk_with_space() {
    let pipeline = CleanupPipeline::from_preset(CleanupPreset::Standard);
    let text = "특정조건 하에서\n 위험이 발생할 우려가 있습니다.";
    let result = pipeline.process(text);
    // Korean text should preserve spaces (unlike Chinese/Japanese)
    // With CJK line merge, newline becomes space
    assert!(
        result.contains("하에서") && result.contains("위험이"),
        "Expected proper merge, got: {}",
        result
    );
}

#[test]
fn cleanup_stages_one_by_one() {
    let standard = CleanupPipeline::from_preset(CleanupPreset::Standard);
    let aggressive = CleanupPipeline::from_preset(CleanupPreset::Aggressive);
    let minimal = CleanupPipeline::from_preset(CleanupPreset::Minimal);
    // page-number lines go
    assert_eq!(standard.process("text\n- 12 -\nmore"), "text\nmore");
    // runs of spaces shrink to two
    assert_eq!(minimal.process("a     b  c d"), "a  b  c d");
    // private-use characters go in the aggressive preset only
    assert_eq!(aggressive.process("a\u{E000}b\u{F8FF}c\u{100000}d"), "abcd");
    assert_eq!(standard.process("a\u{E000}b"), "a\u{E000}b");
    // runs of newlines are capped
    assert_eq!(aggressive.process("a.\n\n\n\n\nb"), "a.\n\nb");
    assert_eq!(standard.process("a.\n\n\n\n\nb"), "a.\nb");
    assert_eq!(minimal.process("\n\n a\n\n\nb \n"), "a\n\n\nb");
    // heading, list and table lines keep their line
    assert_eq!(
        standard.process("# Title\ntext goes\non\n- item\n| a | b |"),
        "# Title text goes on \n- item \n| a | b |"
    );
    // the end of a sentence keeps its line break
    assert_eq!(standard.process("One.\nTwo"), "One.\nTwo");
    // ideographs are joined without a space
    assert_eq!(standard.process("日本\n語"), "日本語");
    assert_eq!(standard.process(""), "");
}

#[test]
fn cleanup_presets() {
    assert_eq!(
        CleanupOptions::from_preset(CleanupPreset::Minimal),
        CleanupOptions::minimal()
    );
    assert_eq!(CleanupOptions::default(), CleanupOptions::standard());
    assert_eq!(CleanupPreset::default(), CleanupPreset::Standard);
    let a = CleanupOptions::aggressive();
    assert!(a.remove_pua && a.remove_toc && a.detect_mojibake);
    assert_eq!(a.max_consecutive_newlines, 2);
    let s = CleanupOptions::standard();
    assert!(!s.remove_pua && s.fix_ligatures && s.merge_cjk_lines);
    assert_eq!(s.max_consecutive_newlines, 1);
    let m = CleanupOptions::minimal();
    assert!(m.normalize_unicode && m.normalize_whitespace && m.preserve_frontmatter);
    assert!(!m.fix_ligatures && !m.merge_single_newlines);
    assert_eq!(m.max_consecutive_newlines, 0);
}

#[test]
fn test_escape_markdown() {
    assert_eq!(escape_markdown("Hello *world*"), "Hello \\*world\\*");
    assert_eq!(escape_markdown("[link]"), "\\[link\\]");
}

#[test]
fn escape_touches_markup_only() {
    assert_eq!(escape_markdown("a\\b_c|d`e"), "a\\\\b\\_c\\|d\\`e");
    assert_eq!(escape_markdown(".-!#+>(){}"), ".-!#+>(){}");
    assert_eq!(escape_markdown(""), "");
}

#[test]
fn test_to_roman() {
    assert_eq!(to_roman(1), "I");
    assert_eq!(to_roman(4), "IV");
    assert_eq!(to_roman(9), "IX");
    assert_eq!(to_roman(14), "XIV");
    assert_eq!(to_roman(2024), "MMXXIV");
}

#[test]
fn roman_numerals_in_detail() {
    assert_eq!(to_roman(0), "");
    assert_eq!(to_roman(40), "XL");
    assert_eq!(to_roman(90), "XC");
    assert_eq!(to_roman(400), "CD");
    assert_eq!(to_roman(949), "CMXLIX");
    assert_eq!(to_roman(3888), "MMMDCCCLXXXVIII");
    assert_eq!(to_roman(5000), "MMMMM");
}

#[test]
fn test_render_simple_paragraph() {
    let mut doc = Document::new();
    let mut page = Page::letter(1);
    page.add_paragraph(Paragraph::with_text("Hello, world!"));
    doc.add_page(page);

    let options = RenderOptions::new();
    let result = to_markdown(&doc, &options).unwrap();
    // Exclamation mark is NOT escaped (only special with brackets for images)
    assert!(result.contains("Hello, world!"));
}

#[test]
fn test_render_heading() {
    let mut doc = Document::new();
    let mut page = Page::letter(1);
    page.add_paragraph(Paragraph::heading("Chapter 1", 1));
    doc.add_page(page);

    let options = RenderOptions::new();
    let result = to_markdown(&doc, &options).unwrap();
    assert!(result.contains("# Chapter 1"));
}

#[test]
fn test_render_with_frontmatter() {
    let mut doc = Document::new();
    doc.metadata.title = Some("Test Doc".to_string());
    let page = Page::letter(1);
    doc.add_page(page);

    let options = RenderOptions::new().with_frontmatter(true);
    let result = to_markdown(&doc, &options).unwrap();
    assert!(result.contains("---"));
    assert!(result.contains("title:"));
}

fn list_item(text: &str, info: ListInfo) -> Paragraph {
    let mut p = Paragraph::with_text(text);
    p.style.list_info = Some(info);
    p
}

fn ordered(style: NumberStyle, number: Option<u32>, level: u8) -> ListInfo {
    ListInfo {
        style: ListStyle::Ordered {
            start: 1,
            number_style: style,
        },
        level,
        item_number: number,
    }
}

#[test]
fn markdown_of_a_whole_document() {
    let mut doc = Document::new();
    let mut page = Page::letter(1);
    page.add_paragraph(Paragraph::heading("Deep *title*", 5));
    let mut p = Paragraph::new();
    p.add_text("Plain ");
    p.add_run(TextRun::bold("bold"));
    p.add_line_break();
    p.add_run(TextRun {
        text: "all".to_string(),
        style: TextStyle {
            bold: true,
            italic: true,
            underline: true,
            strikethrough: true,
            superscript: true,
            subscript: true,
            ..Default::default()
        },
    });
    p.content.push(InlineContent::Link {
        text: "site".to_string(),
        url: "https://example.org".to_string(),
        title: Some("home".to_string()),
    });
    p.content.push(InlineContent::Link {
        text: "bare".to_string(),
        url: "u".to_string(),
        title: None,
    });
    p.content.push(InlineContent::Image {
        resource_id: "img1".to_string(),
        alt_text: None,
    });
    page.add_paragraph(p);
    page.add_paragraph(Paragraph::with_text("  "));
    page.add_paragraph(list_item("bullet", ListInfo::bullet(1)));
    page.add_paragraph(list_item("three", ordered(NumberStyle::Decimal, Some(3), 0)));
    page.add_paragraph(list_item("first", ordered(NumberStyle::Decimal, None, 0)));
    page.add_paragraph(list_item("c", ordered(NumberStyle::LowerAlpha, Some(3), 0)));
    page.add_paragraph(list_item("B", ordered(NumberStyle::UpperAlpha, Some(2), 0)));
    page.add_paragraph(list_item("iv", ordered(NumberStyle::LowerRoman, Some(4), 2)));
    page.add_paragraph(list_item("IX", ordered(NumberStyle::UpperRoman, Some(9), 0)));
    page.add_block(Block::HorizontalRule);
    page.add_block(Block::PageBreak);
    page.add_block(Block::Raw {
        content: "raw *text*".to_string(),
    });
    page.add_block(Block::SectionBreak);
    page.add_block(Block::Image {
        resource_id: "fig".to_string(),
        alt_text: Some("A figure".to_string()),
        width: None,
        height: None,
        x: None,
        y: None,
    });
    doc.add_page(page);

    let options = RenderOptions::new()
        .with_max_heading(3)
        .with_image_prefix("images/")
        .with_list_marker('*');
    let result = to_markdown(&doc, &options).unwrap();
    let expected = "### Deep \\*title\\*\n\n\
Plain **bold** <u><sub><sup>***~~all~~***</sup></sub></u>[site](https://example.org \"home\")[bare](u)![](images/img1)\n\n\
\x20\x20* bullet\n\
3. three\n\
1. first\n\
c. c\n\
B. B\n\
\x20\x20\x20\x20iv. iv\n\
IX. IX\n\
\n---\n\n\
raw *text*\n\n\
![A figure](images/fig)";
    assert_eq!(result, expected);

    let kept = to_markdown(
        &doc,
        &RenderOptions::new().with_line_breaks(true),
    )
    .unwrap();
    assert!(kept.contains("**bold**  \n<u>"));
}

#[test]
fn inline_image_and_escaping_options() {
    let mut doc = Document::new();
    let mut page = Page::letter(1);
    let mut p = Paragraph::with_text("Hello *world*");
    p.content.push(InlineContent::Image {
        resource_id: "img1".to_string(),
        alt_text: None,
    });
    page.add_paragraph(p);
    doc.add_page(page);
    let escaped = to_markdown(&doc, &RenderOptions::new().with_image_prefix("images/")).unwrap();
    assert_eq!(escaped, "Hello \\*world\\*![](images/img1)");
    let mut raw = RenderOptions::new();
    raw.escape_special_chars = false;
    assert_eq!(to_markdown(&doc, &raw).unwrap(), "Hello *world*![](img1)");
    assert_eq!(
        apply_text_style("x", &TextStyle { italic: true, ..Default::default() }),
        "*x*"
    );
}

fn sample_table(header_rows: u8) -> Table {
    let mut table = Table::with_header(header_rows);
    table.add_row(TableRow::header(vec![
        TableCell::text("Name"),
        TableCell::text("Age").align(Alignment::Right),
        TableCell::text("Note").align(Alignment::Center),
    ]));
    table.add_row(TableRow::new(vec![
        TableCell::text(" Alice\nSmith "),
        TableCell::text("30"),
        TableCell::text("a|b").align(Alignment::Justify),
    ]));
    table
}

#[test]
fn tables_as_markdown_and_html() {
    let mut doc = Document::new();
    let mut page = Page::letter(1);
    page.add_table(sample_table(1));
    doc.add_page(page);
    assert_eq!(
        to_markdown(&doc, &RenderOptions::new()).unwrap(),
        "| Name | Age | Note |\n| --- | ---: | :---: |\n| Alice Smith | 30 | a|b |"
    );

    // a second header row gets a separator of its own
    let mut doc2 = Document::new();
    let mut page = Page::letter(1);
    page.add_table(sample_table(2));
    page.add_table(Table::new());
    doc2.add_page(page);
    assert_eq!(
        to_markdown(&doc2, &RenderOptions::new()).unwrap(),
        "| Name | Age | Note |\n| --- | ---: | :---: |\n| Alice Smith | 30 | a|b |\n| --- | --- | --- |"
    );

    let mut merged = Table::with_header(1);
    merged.add_row(TableRow::header(vec![TableCell::text("Wide").colspan(2)]));
    merged.add_row(TableRow::new(vec![
        TableCell::text("tall").rowspan(3),
        TableCell::text("x"),
    ]));
    let mut doc3 = Document::new();
    let mut page = Page::letter(1);
    page.add_table(merged);
    doc3.add_page(page);
    let html = to_markdown(
        &doc3,
        &RenderOptions::new().with_table_fallback(TableFallback::Html),
    )
    .unwrap();
    assert_eq!(
        html,
        "<table>\n<thead>\n<tr><th colspan=\"2\">Wide</th></tr>\n</thead>\n<tbody>\n<tr><td rowspan=\"3\">tall</td><td>x</td></tr>\n</tbody>\n</table>"
    );
    let markdown = to_markdown(&doc3, &RenderOptions::new()).unwrap();
    assert_eq!(markdown, "| Wide |\n| --- |\n| tall | x |");
}

#[test]
fn page_selection_and_statistics() {
    let mut doc = Document::new();
    for n in 1..=3 {
        let mut page = Page::letter(n);
        page.add_paragraph(Paragraph::heading(&format!("Page {}", n), 2));
        page.add_paragraph(Paragraph::with_text("two words"));
        page.add_paragraph(list_item("item", ListInfo::bullet(0)));
        page.add_table(sample_table(1));
        page.add_block(Block::image("pic"));
        page.add_block(Block::HorizontalRule);
        doc.add_page(page);
    }
    let options = RenderOptions::new().with_page_list(vec![1, 3]);
    let result = to_markdown_with_stats(&doc, &options).unwrap();
    assert!(result.content.contains("## Page 1"));
    assert!(!result.content.contains("## Page 2"));
    assert!(result.content.contains("## Page 3"));
    let stats = result.stats;
    assert_eq!(stats.page_count, 2);
    assert_eq!(stats.heading_count, 2);
    assert_eq!(stats.paragraph_count, 2);
    assert_eq!(stats.list_item_count, 2);
    assert_eq!(stats.table_count, 2);
    assert_eq!(stats.image_count, 2);
    assert_eq!(stats.horizontal_rule_count, 2);
    let words = result.content.split_whitespace().count() as u32;
    assert_eq!(stats.word_count, words);
    let ranged = to_markdown(&doc, &RenderOptions::new().with_page_range(2..=2)).unwrap();
    assert!(ranged.starts_with("## Page 2"));
}

#[test]
fn markdown_is_cleaned_up_when_asked() {
    let mut doc = Document::new();
    doc.metadata.title = Some("T".to_string());
    let mut page = Page::letter(1);
    page.add_paragraph(Paragraph::with_text("\u{FB01}rst   line"));
    doc.add_page(page);
    let options = RenderOptions::new()
        .with_frontmatter(true)
        .with_cleanup_preset(CleanupPreset::Standard);
    let result = to_markdown(&doc, &options).unwrap();
    assert_eq!(
        result,
        "---\ntitle: \"T\"\npdf_version: \"\"\npages: 0\n---\n\nfirst  line"
    );
    assert_eq!(
        to_text(&doc, &RenderOptions::new().with_cleanup(CleanupOptions::standard())).unwrap(),
        "first  line"
    );
}

#[test]
fn test_render_options_builder() {
    let options = RenderOptions::new()
        .with_frontmatter(true)
        .with_max_heading(3)
        .with_table_fallback(TableFallback::Html);

    assert!(options.include_frontmatter);
    assert_eq!(options.max_heading_level, 3);
    assert_eq!(options.table_fallback, TableFallback::Html);
}

#[test]
fn render_options_setters() {
    let options = RenderOptions::new()
        .with_max_heading(0)
        .with_heading_analysis()
        .with_line_width(80)
        .with_stats(true)
        .with_pages(PageSelection::Pages(vec![2]));
    assert_eq!(options.max_heading_level, 1);
    assert_eq!(RenderOptions::new().with_max_heading(9).max_heading_level, 6);
    let config = options.heading_config.unwrap();
    assert_eq!((config.h1_min_ratio, config.h2_min_ratio), (1500, 1300));
    assert!(config.detect_from_style && config.use_outline && config.korean_patterns);
    assert_eq!(options.line_width, 80);
    assert!(options.collect_stats);
    assert!(options.page_selection.includes(2));
    let defaults = RenderOptions::default();
    assert_eq!(defaults.list_marker, '-');
    assert!(defaults.escape_special_chars);
    assert_eq!(defaults.max_heading_level, 6);
    assert!(defaults.cleanup.is_none());
    assert_eq!(TableFallback::default(), TableFallback::Markdown);
}

#[test]
fn test_page_selection_includes() {
    let all = PageSelection::All;
    assert!(all.includes(1));
    assert!(all.includes(100));

    let range = PageSelection::Range(5..=10);
    assert!(!range.includes(4));
    assert!(range.includes(5));
    assert!(range.includes(10));
    assert!(!range.includes(11));

    let pages = PageSelection::Pages(vec![1, 3, 5, 7]);
    assert!(pages.includes(1));
    assert!(!pages.includes(2));
    assert!(pages.includes(3));
}

#[test]
fn test_page_selection_parse() {
    let all = PageSelection::parse("all").unwrap();
    assert!(matches!(all, PageSelection::All));

    let range = PageSelection::parse("1-10").unwrap();
    assert!(matches!(range, PageSelection::Range(_)));

    let mixed = PageSelection::parse("1,3,5-7,10").unwrap();
    if let PageSelection::Pages(pages) = mixed {
        assert_eq!(pages, vec![1, 3, 5, 6, 7, 10]);
    } else {
        panic!("Expected Pages variant");
    }
}

fn parsed_pages(s: &str) -> Vec<u32> {
    match PageSelection::parse(s) {
        Ok(PageSelection::Pages(pages)) => pages,
        other => panic!("unexpected: {:?}", other),
    }
}

fn parse_error(s: &str) -> String {
    match PageSelection::parse(s) {
        Err(Error::InvalidPageRange(m)) => m,
        other => panic!("unexpected: {:?}", other),
    }
}

#[test]
fn page_selection_grammar() {
    assert!(matches!(PageSelection::parse(""), Ok(PageSelection::All)));
    assert!(matches!(PageSelection::parse("  \t"), Ok(PageSelection::All)));
    assert!(matches!(PageSelection::parse(" all "), Ok(PageSelection::All)));
    match PageSelection::parse(" 3 - 7 ") {
        Ok(PageSelection::Range(r)) => assert_eq!(r, 3..=7),
        other => panic!("unexpected: {:?}", other),
    }
    assert_eq!(parsed_pages("10, 3,5-7 ,1,3,6"), vec![1, 3, 5, 6, 7, 10]);
    assert_eq!(parsed_pages("7"), vec![7]);
    assert_eq!(parsed_pages("4-2,9"), vec![9]);
    assert_eq!(parsed_pages("2-2,1"), vec![1, 2]);
    assert_eq!(parse_error("a-3"), "Invalid start page");
    assert_eq!(parse_error("3-"), "Invalid end page");
    assert_eq!(parse_error("1-2-3"), "Invalid end page");
    assert_eq!(parse_error("1,,2"), "Invalid page number");
    assert_eq!(parse_error("1,x"), "Invalid page number");
    assert_eq!(parse_error("1,2-"), "Invalid page number");
    assert_eq!(parse_error("4294967296"), "Invalid page number");
    assert_eq!(parse_error("ALL"), "Invalid page number");
}

#[test]
fn test_extraction_stats_count_text() {
    let mut stats = ExtractionStats::new();
    stats.count_text("Hello, world! This is a test.");

    assert_eq!(stats.word_count, 6);
    // "Helloworld!Thisisatest." = 23 non-whitespace chars
    assert_eq!(stats.char_count, 24);
}

#[test]
fn test_extraction_stats_merge() {
    let mut stats1 = ExtractionStats::new();
    stats1.paragraph_count = 5;
    stats1.table_count = 2;

    let stats2 = ExtractionStats {
        paragraph_count: 3,
        table_count: 1,
        image_count: 4,
        ..Default::default()
    };

    stats1.merge(&stats2);

    assert_eq!(stats1.paragraph_count, 8);
    assert_eq!(stats1.table_count, 3);
    assert_eq!(stats1.image_count, 4);
}

#[test]
fn statistics_count_and_saturate() {
    let mut stats = ExtractionStats::new();
    stats.add_paragraph();
    stats.add_table();
    stats.add_table();
    stats.add_image();
    stats.add_list_item();
    stats.add_heading();
    stats.add_horizontal_rule();
    stats.add_page();
    stats.count_text("  one\u{3000}two\n");
    stats.count_text("");
    assert_eq!(
        stats,
        ExtractionStats {
            page_count: 1,
            paragraph_count: 1,
            table_count: 2,
            image_count: 1,
            list_item_count: 1,
            word_count: 2,
            char_count: 6,
            heading_count: 1,
            horizontal_rule_count: 1,
        }
    );
    stats.page_count = u32::MAX;
    stats.add_page();
    assert_eq!(stats.page_count, u32::MAX);
}

#[test]
fn test_render_result_content_only() {
    let result = RenderResult::content_only("# Hello".to_string());
    assert_eq!(result.content, "# Hello");
    assert_eq!(result.stats.paragraph_count, 0);
    assert_eq!(result.content_len(), 7);
}

#[test]
fn test_streaming_renderer_empty_doc() {
    let doc = Document::new();
    let renderer = StreamingRenderer::new(&doc, RenderOptions::default());
    let events: Vec<_> = renderer.collect();

    assert!(events.len() >= 2); // At least DocumentStart and DocumentEnd
    assert!(matches!(
        events.first(),
        Some(RenderEvent::DocumentStart { .. })
    ));
    assert!(matches!(events.last(), Some(RenderEvent::DocumentEnd)));
}

#[test]
fn test_streaming_renderer_with_content() {
    let mut doc = Document::new();
    let mut page = Page::letter(1);
    page.add_paragraph(Paragraph::with_text("Hello, world!"));
    doc.add_page(page);

    let renderer = StreamingRenderer::new(&doc, RenderOptions::default());
    let events: Vec<_> = renderer.collect();

    // Should have: DocumentStart, PageStart, Block, PageEnd, DocumentEnd
    assert!(events.len() >= 5);

    // Check for block content
    let has_content = events.iter().any(|e| {
        if let RenderEvent::Block(s) = e {
            s.contains("Hello, world!")
        } else {
            false
        }
    });
    assert!(has_content);
}

#[test]
fn streaming_test_streaming_renderer_with_frontmatter() {
    let mut doc = Document::new();
    doc.metadata.title = Some("Test".to_string());
    let page = Page::letter(1);
    doc.add_page(page);

    let options = RenderOptions::default().with_frontmatter(true);
    let renderer = StreamingRenderer::new(&doc, options);
    let events: Vec<_> = renderer.collect();

    // Should start with frontmatter
    assert!(matches!(events.first(), Some(RenderEvent::Frontmatter(_))));
}

#[test]
fn test_collect_content() {
    let mut doc = Document::new();
    let mut page = Page::letter(1);
    page.add_paragraph(Paragraph::with_text("Test content"));
    doc.add_page(page);

    let renderer = StreamingRenderer::new(&doc, RenderOptions::default());
    let content = collect_content(renderer);

    assert!(content.contains("Test content"));
}

#[test]
fn test_render_event_content() {
    let event = RenderEvent::Block("hello".to_string());
    assert!(event.has_content());
    assert_eq!(event.content(), Some("hello"));

    let event = RenderEvent::PageStart { number: 1 };
    assert!(!event.has_content());
    assert!(event.content().is_none());
}

#[test]
fn streaming_events_in_order() {
    let mut doc = Document::new();
    let mut page1 = Page::letter(1);
    page1.add_paragraph(Paragraph::with_text("one"));
    page1.add_paragraph(Paragraph::new());
    page1.add_block(Block::PageBreak);
    doc.add_page(page1);
    doc.add_page(Page::letter(2));
    let mut page3 = Page::letter(7);
    page3.add_table(sample_table(1));
    doc.add_page(page3);

    let options = RenderOptions::default()
        .with_frontmatter(true)
        .with_pages(PageSelection::Pages(vec![1, 7]));
    let mut renderer = StreamingRenderer::new(&doc, options);
    assert_eq!(renderer.current_page(), 0);
    let mut seen: Vec<String> = Vec::new();
    while let Some(event) = renderer.next() {
        seen.push(match event {
            RenderEvent::Frontmatter(s) => format!("frontmatter {}", s.len()),
            RenderEvent::DocumentStart { page_count, .. } => format!("start {}", page_count),
            RenderEvent::PageStart { number } => {
                assert_eq!(renderer.current_page(), number);
                format!("page {}", number)
            }
            RenderEvent::Block(s) => format!("block {:?}", s),
            RenderEvent::PageEnd { number } => format!("end {}", number),
            RenderEvent::DocumentEnd => "done".to_string(),
        });
    }
    assert_eq!(
        seen,
        vec![
            "frontmatter 33".to_string(),
            "start 3".to_string(),
            "page 1".to_string(),
            "block \"one\\n\\n\"".to_string(),
            "block \"\\n\\n\"".to_string(),
            "end 1".to_string(),
            "page 7".to_string(),
            "block \"| Name | Age | Note |\\n| --- | ---: | :---: |\\n| Alice Smith | 30 | a|b |\\n\\n\"".to_string(),
            "end 7".to_string(),
            "done".to_string(),
        ]
    );
    assert!(renderer.is_done());
    assert!(renderer.next().is_none());
    assert!(renderer.next().is_none());
    assert!(renderer.is_done());
    assert_eq!(renderer.find_next_page(1), Some(2));
    assert_eq!(renderer.find_next_page(3), None);
}

#[test]
fn test_to_text() {
    let mut doc = Document::new();
    let mut page = Page::letter(1);
    page.add_paragraph(Paragraph::with_text("Hello, world!"));
    page.add_paragraph(Paragraph::with_text("Second paragraph."));
    doc.add_page(page);

    let options = RenderOptions::default();
    let result = to_text(&doc, &options).unwrap();

    assert!(result.contains("Hello, world!"));
    assert!(result.contains("Second paragraph."));
}

#[test]
fn test_visitor_action_default() {
    let action = VisitorAction::default();
    assert!(matches!(action, VisitorAction::Continue));
}

#[test]
fn test_visitor_action_should_skip() {
    assert!(!VisitorAction::Continue.should_skip());
    assert!(!VisitorAction::Replace("test".into()).should_skip());
    assert!(VisitorAction::Skip.should_skip());
}

#[test]
fn test_visitor_action_replacement() {
    assert!(VisitorAction::Continue.replacement().is_none());
    assert!(VisitorAction::Skip.replacement().is_none());
    assert_eq!(
        VisitorAction::Replace("hello".into()).replacement(),
        Some("hello")
    );
}

#[test]
fn test_default_visitor() {
    let mut visitor = DefaultVisitor::new();
    let para = Paragraph::new();
    let action = visitor.visit_paragraph(&para);
    assert!(matches!(action, VisitorAction::Continue));
}

#[test]
fn visitor_test_skip_images_visitor() {
    let mut visitor = SkipImagesVisitor;
    let action = visitor.visit_image("img1", Some("alt text"));
    assert!(action.should_skip());
}

#[test]
fn visitor_test_max_heading_depth_visitor() {
    let mut visitor = MaxHeadingDepthVisitor::new(2);
    let action = visitor.visit_heading("Deep Heading", 4);
    assert!(action.is_replace());
    let replacement = action.replacement().unwrap();
    assert!(replacement.starts_with("## "));
}

#[test]
fn test_composite_visitor() {
    let mut composite = CompositeVisitor::new()
        .with_visitor(SkipImagesVisitor)
        .with_visitor(DefaultVisitor);

    // Images should be skipped
    let action = composite.visit_image("img1", None);
    assert!(action.should_skip());

    // Other elements should continue
    let para = Paragraph::new();
    let action = composite.visit_paragraph(&para);
    assert!(matches!(action, VisitorAction::Continue));
}

#[test]
fn test_json_format_variants() {
    // Both JSON format variants should exist
    let _pretty = JsonFormat::Pretty;
    let _compact = JsonFormat::Compact;
}

#[test]
fn test_page_selection_all() {
    let selection = PageSelection::All;
    assert!(matches!(selection, PageSelection::All));
}

#[test]
fn test_render_options_defaults() {
    let options = RenderOptions::default();
    assert!(!options.include_frontmatter);
}

#[test]
fn test_render_options_with_image_dir() {
    let options = RenderOptions::new().with_image_dir("./images");
    assert_eq!(options.image_dir, Some("./images".to_string()));
}

#[test]
fn test_cleanup_preset_variants() {
    // All cleanup presets should be usable
    let _minimal = RenderOptions::new().with_cleanup_preset(CleanupPreset::Minimal);
    let _standard = RenderOptions::new().with_cleanup_preset(CleanupPreset::Standard);
    let _aggressive = RenderOptions::new().with_cleanup_preset(CleanupPreset::Aggressive);
}

#[test]
fn cleaning_twice_changes_nothing_more() {
    let text = "The \u{FB01}rst line\ncontinues here.\n\n\n\nSecond paragraph   with   spaces.";
    for preset in [
        CleanupPreset::Minimal,
        CleanupPreset::Standard,
        CleanupPreset::Aggressive,
    ] {
        let pipeline = CleanupPipeline::from_preset(preset);
        let once = pipeline.process(text);
        assert_eq!(pipeline.process(&once), once);
    }
    let standard = CleanupPipeline::from_preset(CleanupPreset::Standard);
    assert_eq!(
        standard.process(text),
        "The first line continues here.\nSecond paragraph  with  spaces."
    );
}

#[test]
fn a_selection_is_copied_with_its_pages() {
    let range = PageSelection::Range(2..=4).clone();
    assert!(range.includes(2) && range.includes(4));
    assert!(!range.includes(1) && !range.includes(5));
    let pages = PageSelection::Pages(vec![3, 9]).clone();
    assert!(pages.includes(3) && pages.includes(9) && !pages.includes(4));
    assert!(PageSelection::All.clone().includes(77));
}

#[test]
fn two_hyphenated_breaks_in_a_row_take_two_passes() {
    let standard = CleanupPipeline::from_preset(CleanupPreset::Standard);
    let once = standard.process("a-\nb-\nc");
    assert_eq!(once, "ab- c");
    assert_eq!(standard.process(&once), "abc");
}
