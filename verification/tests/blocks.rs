use std::ops::Range;

use trollstov::blocks::{ListItems, MarkupBlock, MarkupBlockParser};
use trollstov::layout::HorizontalAlignment;

fn all_blocks(text: &str) -> Vec<(MarkupBlock, Range<usize>)> {
    let mut parser = MarkupBlockParser::new(text);
    let mut out = Vec::new();
    while let Some(found) = parser.next() {
        out.push(found);
    }
    out
}

fn paragraph(text: &str, alignment: HorizontalAlignment) -> MarkupBlock {
    MarkupBlock::Paragraph { text: text.to_string(), alignment }
}

fn items_of(block: &mut MarkupBlock) -> Vec<String> {
    let mut out = Vec::new();
    if let MarkupBlock::List { items } = block {
        while let Some(item) = items.next() {
            out.push(item);
        }
    }
    out
}

#[test]
fn plain_paragraph_runs_to_the_end() {
    let blocks = all_blocks("Hello world");
    assert_eq!(blocks.len(), 1);
    assert_eq!(blocks[0].0, paragraph("Hello world", HorizontalAlignment::Left));
    assert_eq!(blocks[0].1, 0..11);
}

#[test]
fn blank_line_ends_a_paragraph() {
    let blocks = all_blocks(":centered\n\n;right\n\nnext");
    assert_eq!(blocks.len(), 3);
    assert_eq!(blocks[0].0, paragraph("centered", HorizontalAlignment::Center));
    assert_eq!(blocks[0].1, 0..11);
    assert_eq!(blocks[1].0, paragraph("right", HorizontalAlignment::Right));
    assert_eq!(blocks[1].1, 11..19);
    assert_eq!(blocks[2].0, paragraph("next", HorizontalAlignment::Left));
    assert_eq!(blocks[2].1, 19..23);
}

#[test]
fn heading_takes_its_line() {
    let blocks = all_blocks("== Title\ntext");
    assert_eq!(blocks.len(), 2);
    assert_eq!(
        blocks[0].0,
        MarkupBlock::Heading {
            text: "Title".to_string(),
            alignment: HorizontalAlignment::Left,
            newline: false
        }
    );
    assert_eq!(blocks[0].1, 0..9);
    assert_eq!(blocks[1].0, paragraph("text", HorizontalAlignment::Left));
    assert_eq!(blocks[1].1, 9..13);
}

#[test]
fn aligned_heading_followed_by_a_blank_line() {
    let blocks = all_blocks("=:Middle\n\nafter");
    assert_eq!(
        blocks[0].0,
        MarkupBlock::Heading {
            text: "Middle".to_string(),
            alignment: HorizontalAlignment::Center,
            newline: true
        }
    );
    assert_eq!(blocks[0].1, 0..9);
}

#[test]
fn comment_takes_its_line() {
    let blocks = all_blocks("# note\nrest");
    assert_eq!(blocks[0].0, MarkupBlock::Comment { text: "note".to_string() });
    assert_eq!(blocks[0].1, 0..7);
    assert_eq!(blocks[1].0, paragraph("rest", HorizontalAlignment::Left));
}

#[test]
fn list_and_its_items() {
    let mut blocks = all_blocks("- a\n- b\n\nafter");
    assert_eq!(blocks.len(), 2);
    assert_eq!(blocks[0].1, 0..9);
    assert_eq!(items_of(&mut blocks[0].0), vec!["a".to_string(), "b".to_string()]);
    assert_eq!(blocks[1].0, paragraph("after", HorizontalAlignment::Left));
    assert_eq!(blocks[1].1, 9..14);
}

#[test]
fn list_items_split_at_dashes_that_start_lines() {
    let mut items = ListItems::new("one\n- two - half\n-three");
    assert_eq!(items.next(), Some("one".to_string()));
    assert_eq!(items.next(), Some("two - half".to_string()));
    assert_eq!(items.next(), Some("three".to_string()));
    assert_eq!(items.next(), None);
    assert_eq!(items.next(), None);
}

#[test]
fn code_block_with_language() {
    let blocks = all_blocks("```rust\nfn main() {}\n```\n\nnext");
    assert_eq!(blocks.len(), 2);
    assert_eq!(
        blocks[0].0,
        MarkupBlock::Code { language: "rust".to_string(), text: "fn main() {}".to_string() }
    );
    // The end is counted from the closing backticks: the two line feeds after them.
    assert_eq!(blocks[0].1, 0..2);
    assert_eq!(blocks[1].0, paragraph("next", HorizontalAlignment::Left));
    assert_eq!(blocks[1].1, 26..30);
}

#[test]
fn unclosed_code_block_runs_to_the_end() {
    let blocks = all_blocks("```\nline one\nline two");
    assert_eq!(blocks.len(), 1);
    assert_eq!(
        blocks[0].0,
        MarkupBlock::Code { language: String::new(), text: "line one\nline two".to_string() }
    );
    assert_eq!(blocks[0].1, 0..21);
}

#[test]
fn two_backticks_make_a_paragraph() {
    let blocks = all_blocks("``x``");
    assert_eq!(blocks[0].0, paragraph("``x``", HorizontalAlignment::Left));
}

#[test]
fn image_on_its_own_lines() {
    let blocks = all_blocks("![a cat](cat.png)\n\nmore");
    assert_eq!(
        blocks[0].0,
        MarkupBlock::Image { description: "a cat".to_string(), path: "cat.png".to_string() }
    );
    assert_eq!(blocks[0].1, 0..17);
    assert_eq!(blocks[1].0, paragraph("more", HorizontalAlignment::Left));
    assert_eq!(blocks[1].1, 19..23);
}

#[test]
fn image_followed_by_text_is_a_paragraph() {
    let blocks = all_blocks("![a](b) tail");
    assert_eq!(blocks[0].0, paragraph("![a](b) tail", HorizontalAlignment::Left));
    assert_eq!(blocks[0].1, 0..12);
}

#[test]
fn formula_between_double_dollars() {
    let blocks = all_blocks("$$ x^2 $$");
    assert_eq!(blocks.len(), 1);
    assert_eq!(blocks[0].0, MarkupBlock::Math { text: "x^2".to_string() });
    assert_eq!(blocks[0].1, 0..9);
}

#[test]
fn empty_formula_is_a_paragraph() {
    let blocks = all_blocks("$$ $$");
    assert_eq!(blocks[0].0, paragraph("$$ $$", HorizontalAlignment::Left));
}

#[test]
fn single_dollar_is_a_paragraph() {
    let blocks = all_blocks("$5 each");
    assert_eq!(blocks[0].0, paragraph("$5 each", HorizontalAlignment::Left));
    assert_eq!(blocks[0].1, 0..7);
}

#[test]
fn three_dashes_and_a_blank_line_break() {
    let blocks = all_blocks("---\n\nafter");
    assert_eq!(blocks.len(), 2);
    assert_eq!(blocks[0].0, MarkupBlock::Break);
    assert_eq!(blocks[0].1, 0..5);
    assert_eq!(blocks[1].0, paragraph("after", HorizontalAlignment::Left));
    assert_eq!(blocks[1].1, 5..10);
}

#[test]
fn marks_inside_a_line_make_a_paragraph() {
    let blocks = all_blocks("abc\n\n :x");
    assert_eq!(blocks.len(), 2);
    assert_eq!(blocks[1].0, paragraph(":x", HorizontalAlignment::Left));
    assert_eq!(blocks[1].1, 6..8);
}

#[test]
fn whitespace_alone_has_no_block() {
    assert!(all_blocks("  \n \t\n").is_empty());
    assert!(all_blocks("").is_empty());
}

#[test]
fn parser_from_given_clusters() {
    let mut parser = MarkupBlockParser::from_clusters(vec!["#", "a", "\n", "b"]).unwrap();
    let (block, range) = parser.next().unwrap();
    assert_eq!(block, MarkupBlock::Comment { text: "a".to_string() });
    assert_eq!(range, 0..3);
    assert!(MarkupBlockParser::from_clusters(vec!["a", ""]).is_none());
}
