use openedit_ui::markdown::{parse_to_blocks, Alignment, MdBlock, MdEvent, MdTag, MdTagEnd};

fn text(t: &str) -> MdEvent {
    MdEvent::Text(t.to_string())
}

#[test]
fn headings_paragraphs_and_styles() {
    let events = vec![
        MdEvent::Start(MdTag::Heading(2)),
        text("Title"),
        MdEvent::End(MdTagEnd::Heading),
        MdEvent::Start(MdTag::Paragraph),
        text("plain "),
        MdEvent::Start(MdTag::Strong),
        text("bold"),
        MdEvent::End(MdTagEnd::Strong),
        MdEvent::SoftBreak,
        MdEvent::Start(MdTag::Link("https://x".to_string())),
        MdEvent::Code("c".to_string()),
        MdEvent::End(MdTagEnd::Link),
        MdEvent::End(MdTagEnd::Paragraph),
        MdEvent::Rule,
    ];
    let blocks = parse_to_blocks(events);
    assert_eq!(blocks.len(), 3);
    match &blocks[0] {
        MdBlock::Heading(2, spans) => assert_eq!(spans[0].text, "Title"),
        _ => panic!("heading expected"),
    }
    match &blocks[1] {
        MdBlock::Paragraph(spans) => {
            assert_eq!(spans.len(), 4);
            assert!(!spans[0].bold && spans[1].bold);
            assert_eq!(spans[2].text, " ");
            assert!(spans[3].code);
            assert_eq!(spans[3].link_url.as_deref(), Some("https://x"));
        }
        _ => panic!("paragraph expected"),
    }
    assert!(matches!(blocks[2], MdBlock::HorizontalRule));
}

#[test]
fn lists_tasks_and_code() {
    let events = vec![
        MdEvent::Start(MdTag::List(Some(3))),
        MdEvent::Start(MdTag::Item),
        text("three"),
        MdEvent::End(MdTagEnd::Item),
        MdEvent::Start(MdTag::Item),
        MdEvent::TaskListMarker(true),
        text("done"),
        MdEvent::End(MdTagEnd::Item),
        MdEvent::End(MdTagEnd::List),
        MdEvent::Start(MdTag::CodeBlock(Some(" Mermaid ".to_string()))),
        text("graph TD"),
        MdEvent::End(MdTagEnd::CodeBlock),
        MdEvent::Start(MdTag::CodeBlock(None)),
        text("let x = 1;"),
        MdEvent::HardBreak,
        MdEvent::End(MdTagEnd::CodeBlock),
    ];
    let blocks = parse_to_blocks(events);
    assert_eq!(blocks.len(), 4);
    match &blocks[0] {
        MdBlock::ListItem { spans, ordered, index, depth } => {
            assert_eq!(spans[0].text, "three");
            assert!(*ordered);
            assert_eq!((*index, *depth), (4, 0));
        }
        _ => panic!("list item expected"),
    }
    assert!(matches!(&blocks[1], MdBlock::TaskListItem { checked: true, depth: 0, .. }));
    assert!(matches!(&blocks[2], MdBlock::MermaidDiagram(src) if src == "graph TD"));
    assert!(matches!(&blocks[3], MdBlock::CodeBlock(src) if src == "let x = 1;\n"));
}

#[test]
fn tables_images_and_quotes() {
    let events = vec![
        MdEvent::Start(MdTag::Table(vec![Alignment::Left, Alignment::Unaligned])),
        MdEvent::Start(MdTag::TableHead),
        MdEvent::Start(MdTag::TableCell),
        text("a"),
        MdEvent::End(MdTagEnd::TableCell),
        MdEvent::Start(MdTag::TableCell),
        text("b"),
        MdEvent::End(MdTagEnd::TableCell),
        MdEvent::End(MdTagEnd::TableHead),
        MdEvent::Start(MdTag::TableRow),
        MdEvent::Start(MdTag::TableCell),
        text("1"),
        MdEvent::End(MdTagEnd::TableCell),
        MdEvent::End(MdTagEnd::TableRow),
        MdEvent::End(MdTagEnd::Table),
        MdEvent::Start(MdTag::Paragraph),
        MdEvent::Start(MdTag::Image("pic.png".to_string(), "T".to_string())),
        text("alt "),
        text("text"),
        MdEvent::End(MdTagEnd::Image),
        MdEvent::End(MdTagEnd::Paragraph),
        MdEvent::Start(MdTag::BlockQuote),
        MdEvent::Start(MdTag::Paragraph),
        text("quoted"),
        MdEvent::End(MdTagEnd::Paragraph),
        MdEvent::End(MdTagEnd::BlockQuote),
    ];
    let blocks = parse_to_blocks(events);
    match &blocks[0] {
        MdBlock::Table { header, rows, alignments } => {
            assert_eq!(header.len(), 2);
            assert_eq!(header[1][0].text, "b");
            assert_eq!(rows.len(), 1);
            assert_eq!(rows[0][0][0].text, "1");
            assert_eq!(alignments, &vec![Alignment::Left, Alignment::Unaligned]);
        }
        _ => panic!("table expected"),
    }
    match &blocks[1] {
        MdBlock::Image { alt, url, title } => {
            assert_eq!((alt.as_str(), url.as_str(), title.as_str()), ("alt text", "pic.png", "T"));
        }
        _ => panic!("image expected"),
    }
    // the paragraph that held the image is empty
    assert!(matches!(&blocks[2], MdBlock::Paragraph(spans) if spans.is_empty()));
    assert!(matches!(&blocks[3], MdBlock::BlockQuote(spans) if spans[0].text == "quoted"));
    assert_eq!(blocks.len(), 4);
}
