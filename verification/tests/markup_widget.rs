use trollstov::layout::{HorizontalAlignment, Rect};
use trollstov::list::Key;
use trollstov::markup::MarkupOptions;
use trollstov::markup_widget::{DrawRow, ImageRequest, ImageSource, Markup, MarkupPlain, MarkupRich};
use trollstov::scroll::ScrollMove;

fn texts(m: &Markup) -> Vec<String> {
    m.plain()
        .iter()
        .map(|p| match p {
            MarkupPlain::Paragraph { text, .. } => format!("P:{text}"),
            MarkupPlain::Heading { text, .. } => format!("H:{text}"),
            MarkupPlain::ListItem { text } => format!("L:{text}"),
            MarkupPlain::Code { text, language } => format!("C:{language}:{text}"),
            MarkupPlain::Image { index, rows } => format!("I:{index}:{rows}"),
            MarkupPlain::ImagePending { index } => format!("W:{index}"),
            MarkupPlain::ImageError { text } => format!("E:{text}"),
            MarkupPlain::ImageDescription { text } => format!("D:{text}"),
            MarkupPlain::Break => "B".to_string(),
            MarkupPlain::EmptyLine => "-".to_string(),
        })
        .collect()
}

fn area(width: u16, height: u16) -> Rect {
    Rect { x: 0, y: 0, width, height }
}

#[test]
fn markup_blocks_become_items() {
    let mut m = Markup::new("assets".to_string());
    let requests = m.load_markup("= Title\n\nSome *bold* text\n\n- a\n- b");
    assert!(requests.is_empty());
    assert_eq!(texts(&m), vec!["H:Title", "-", "P:Some *bold* text", "-", "L:a", "L:b"]);
}

#[test]
fn markup_asks_for_images_and_hears_back() {
    let mut m = Markup::new("assets".to_string());
    let requests = m.load_markup("![cat](cat.png)\n\n$$x$$");
    assert_eq!(
        requests,
        vec![
            ImageRequest { index: 0, source: ImageSource::Path("cat.png".to_string()) },
            ImageRequest { index: 1, source: ImageSource::Math("x".to_string()) },
        ]
    );
    assert_eq!(texts(&m), vec!["W:0", "D:cat", "-", "W:1"]);
    m.image_loaded(0, Ok(3));
    m.image_loaded(1, Err("bad".to_string()));
    assert_eq!(texts(&m), vec!["I:0:3", "D:cat", "-", "E:ERROR\nbad"]);
}

#[test]
fn markup_loads_a_text_once() {
    let mut m = Markup::new("assets".to_string());
    assert_eq!(m.load_markup("![a](a.png)").len(), 1);
    assert!(m.load_markup("![a](a.png)").is_empty());
    assert_eq!(texts(&m), vec!["W:0", "D:a"]);
}

#[test]
fn markup_tabs_become_spaces_and_comments_vanish() {
    let mut m = Markup::new("assets".to_string());
    m.load_markup("a\tb\n\n# hidden\n---\n\n```rust\nlet x = 1;\n```");
    assert_eq!(texts(&m), vec!["P:a    b", "-", "B", "-", "C:rust:let x = 1;"]);
}

#[test]
fn markup_layout_counts_lines() {
    let mut m = Markup::new("assets".to_string());
    m.load_markup("a\n\nb\n\nc");
    let frame = m.layout(area(20, 3)).unwrap();
    assert_eq!(frame.area, area(20, 3));
    assert_eq!(frame.scroll_area, None);
    assert_eq!(frame.total_lines, 5);
    assert_eq!(frame.scroll, 0);
    assert!(matches!(&m.rich()[0], MarkupRich::Text { text, alignment: HorizontalAlignment::Left } if text == "a"));
    assert!(matches!(&m.rich()[1], MarkupRich::EmptyLine));
    assert!(m.layout(area(0, 3)).is_none());
}

#[test]
fn markup_lays_out_inline_tags_and_list_items() {
    let mut m = Markup::new("assets".to_string());
    m.load_markup("x *b* y\n\n- one\n- two");
    m.layout(area(40, 10)).unwrap();
    let rich: Vec<String> = m
        .rich()
        .iter()
        .filter_map(|r| match r {
            MarkupRich::Text { text, .. } => Some(text.clone()),
            _ => None,
        })
        .collect();
    assert_eq!(rich, vec!["x \u{1b}[1mb\u{1b}[22m y", "  \u{2022} one\n", "  \u{2022} two\n"]);
}

#[test]
fn markup_scrolls_beside_a_scrollbar() {
    let text: Vec<String> = (0..10).map(|i| format!("line {i}")).collect();
    let mut m = Markup::new("assets".to_string())
        .with_options(MarkupOptions { scrollbar: true, ..MarkupOptions::new() });
    m.load_markup(&text.join("\n\n"));
    let frame = m.layout(area(30, 5)).unwrap();
    assert_eq!(frame.total_lines, 19);
    assert_eq!(frame.scroll_area, Some(Rect { x: 29, y: 0, width: 1, height: 5 }));
    assert_eq!(frame.area.width, 28);
    assert!(m.input(Key::Down));
    assert_eq!(m.scroll_index(), 1);
    assert!(m.input(Key::End));
    assert_eq!(m.scroll_index(), 14);
    assert!(!m.input(Key::Enter));
    assert!(m.scroll(ScrollMove::Start));
    m.set_desired_scroll(ScrollMove::PageDown);
    let frame = m.layout(area(30, 5)).unwrap();
    assert_eq!(frame.scroll, 5);
    m.clear();
    assert!(m.plain().is_empty());
    assert_eq!(m.scroll_index(), 0);
}

#[test]
fn markup_draws_the_rows_in_view() {
    let mut m = Markup::new("assets".to_string());
    m.load_markup("a\n\nb\n\nc");
    m.layout(area(20, 3)).unwrap();
    assert_eq!(
        m.draw_rows(),
        vec![DrawRow::Line { item: 0, line: 0, y: 0 }, DrawRow::Line { item: 2, line: 0, y: 2 }]
    );
    assert!(m.input(Key::Down));
    assert_eq!(m.draw_rows(), vec![DrawRow::Line { item: 2, line: 0, y: 1 }]);
}

#[test]
fn markup_draws_an_image_cut_at_the_edges() {
    let mut m = Markup::new("assets".to_string());
    m.load_markup("![a](a.png)");
    m.image_loaded(0, Ok(4));
    let frame = m.layout(area(20, 3)).unwrap();
    assert_eq!(frame.total_lines, 5);
    assert_eq!(m.draw_rows(), vec![DrawRow::Image { index: 0, y: 0, rows: 3, rows_outside_top: 0 }]);
    assert!(m.input(Key::Down));
    assert_eq!(m.draw_rows(), vec![DrawRow::Image { index: 0, y: 0, rows: 3, rows_outside_top: 1 }]);
}

#[test]
fn markup_relayout_follows_the_width() {
    let mut m = Markup::new("assets".to_string());
    m.load_markup("one two three");
    m.relayout(7);
    let lines: Vec<String> = m
        .rich()
        .iter()
        .filter_map(|r| match r {
            MarkupRich::Text { text, .. } => Some(text.clone()),
            _ => None,
        })
        .collect();
    assert_eq!(lines, vec!["one two\nthree"]);
}

#[test]
fn markup_render_loads_lays_out_and_draws() {
    let mut m = Markup::new("assets".to_string());
    assert!(m.render(area(0, 3), "a").is_none());
    assert!(m.plain().is_empty());
    let (requests, frame, rows) = m.render(area(20, 3), "![a](a.png)\n\nb").unwrap();
    assert_eq!(requests, vec![ImageRequest { index: 0, source: ImageSource::Path("a.png".to_string()) }]);
    assert_eq!(frame.total_lines, 3);
    assert_eq!(
        rows,
        vec![
            DrawRow::Image { index: 0, y: 0, rows: 0, rows_outside_top: 0 },
            DrawRow::Line { item: 1, line: 0, y: 0 },
            DrawRow::Line { item: 3, line: 0, y: 2 },
        ]
    );
    let (again, _, _) = m.render(area(20, 3), "![a](a.png)\n\nb").unwrap();
    assert!(again.is_empty());
}

fn strip_codes(s: &str) -> String {
    let mut out = String::new();
    let mut in_code = false;
    for c in s.chars() {
        if in_code {
            if c == 'm' {
                in_code = false;
            }
        } else if c == '\u{1b}' {
            in_code = true;
        } else {
            out.push(c);
        }
    }
    out
}

#[test]
fn markup_highlights_code_blocks() {
    let mut m = Markup::new("assets".to_string());
    m.load_markup("```rust\nlet x = 1;\n```");
    m.layout(area(40, 5)).unwrap();
    let code = match &m.rich()[0] {
        MarkupRich::Text { text, alignment: HorizontalAlignment::Left } => text.clone(),
        other => panic!("{other:?}"),
    };
    assert!(code.starts_with("\u{1b}[38;2;"));
    assert!(code.ends_with("\u{1b}[0m"));
    assert_eq!(strip_codes(&code), "let x = 1;");
}

#[test]
fn markup_load_hashed_skips_a_known_hash() {
    let mut m = Markup::new("assets".to_string());
    assert_eq!(m.load_hashed("![a](a.png)", 7).len(), 1);
    assert!(m.load_hashed("other text", 7).is_empty());
    assert_eq!(texts(&m), vec!["W:0", "D:a"]);
    assert!(m.load_hashed("other text", 8).is_empty());
    assert_eq!(texts(&m), vec!["P:other text"]);
    let (requests, frame, rows) = m.render_hashed(area(20, 2), "x\n\ny", 9).unwrap();
    assert!(requests.is_empty());
    assert_eq!(frame.total_lines, 3);
    assert_eq!(rows, vec![DrawRow::Line { item: 0, line: 0, y: 0 }]);
    let (again, _, _) = m.render_hashed(area(20, 2), "z", 9).unwrap();
    assert!(again.is_empty());
    assert_eq!(texts(&m), vec!["P:x", "-", "P:y"]);
}
