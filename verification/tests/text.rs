use std::time::Duration;

use trollstov::ansi::{AnsiEvent, AnsiParser, AnsiParserWithStyle, AnsiTag, AnsiWriter};
use trollstov::audio::{AudioFileExtension, AudioFileReport, AudioMetadata, AudioRating};
use trollstov::formatting::{format_duration, format_duration_on_stack, format_seconds, Formatter};
use trollstov::markup::{InlineEvent, InlineParser, InlineTag, SyntaxHighlightTheme};
use trollstov::style::{Color, Style, BOLD, ITALIC};
use trollstov::terminal::{TerminalCellSize, TerminalColor, TerminalPalette, TerminalQueryError, TerminalTheme};

#[test]
fn seconds_are_written_as_minutes_and_seconds() {
    assert_eq!(format_seconds(0), "00:00");
    assert_eq!(format_seconds(61), "01:01");
    assert_eq!(format_seconds(5999), "99:59");
    assert_eq!(format_seconds(6000), "99:99");
}

#[test]
fn durations_use_their_whole_seconds() {
    assert_eq!(format_duration(Duration::from_millis(75_900)), "01:15");
    let chars = format_duration_on_stack(Duration::from_secs(3599));
    assert_eq!(chars.iter().collect::<String>(), "59:59");
}

#[test]
fn formatter_hands_out_byte_ranges() {
    let mut f = Formatter::new();
    let a = f.push_str("héllo");
    let (b, c) = f.push_str2(" ", "wörld");
    assert_eq!(a, 0..6);
    assert_eq!(b, 6..7);
    assert_eq!(c, 7..13);
    assert_eq!(f.slice(c.clone()), "wörld");
    assert_eq!(f.slice(a.clone()), "héllo");
    assert_eq!(f.slice(a.start..c.end), "héllo wörld");
    let all = f.extend(&["!", "?"]);
    assert_eq!(all, 13..15);
    assert_eq!(f.as_str(), "héllo wörld!?");
    assert_eq!(f.len(), 15);
    f.clear();
    assert_eq!(f.len(), 0);
}

fn events(s: &str) -> Vec<String> {
    let mut p = AnsiParser::new(s);
    let mut out = Vec::new();
    while let Some(e) = p.next() {
        match e {
            AnsiEvent::Text(t) => out.push(format!("text:{t}")),
            AnsiEvent::Tag(t) => out.push(format!("tag:{}", t.to_string().escape_debug())),
        }
    }
    out
}

#[test]
fn escape_codes_split_text_into_events() {
    assert_eq!(
        events("a\x1b[1mb\x1b[0mc"),
        vec!["text:a", "tag:\\u{1b}[1m", "text:b", "tag:\\u{1b}[0m", "text:c"]
    );
    assert_eq!(events("\x1b[38;5;200mx"), vec!["tag:\\u{1b}[38;5;200m", "text:x"]);
    assert!(events("").is_empty());
}

#[test]
fn tags_are_written_and_read_back() {
    for n in 0..=255u8 {
        if let Some(tag) = AnsiTag::from_u8(n) {
            assert_eq!(tag.number(), Some(n));
            let code = tag.to_string();
            let mut p = AnsiParser::new(&code);
            assert!(matches!(p.next(), Some(AnsiEvent::Tag(t)) if t == tag));
        }
    }
    assert_eq!(AnsiTag::FgTrueColor(1, 2, 3).to_string(), "\x1b[38;2;1;2;3m");
    assert_eq!(AnsiTag::Bg256(7).to_string(), "\x1b[48;5;7m");
}

#[test]
fn tags_change_styles() {
    let mut style = Style::new();
    AnsiTag::Bold.apply_to_style(&mut style);
    AnsiTag::Italic.apply_to_style(&mut style);
    assert!(style.has(BOLD) && style.has(ITALIC));
    AnsiTag::NotBold.apply_to_style(&mut style);
    assert!(!style.has(BOLD) && style.has(ITALIC));
    AnsiTag::FgRed.apply_to_style(&mut style);
    assert_eq!(style.fg, Some(Color::Red));
    AnsiTag::from_color_bg(Color::Rgb(1, 2, 3)).apply_to_style(&mut style);
    assert_eq!(style.bg, Some(Color::Rgb(1, 2, 3)));
}

#[test]
fn styled_parser_carries_the_style() {
    let mut p = AnsiParserWithStyle::new("\x1b[1mbold\x1b[22m plain");
    let (t1, s1) = p.next().unwrap();
    assert_eq!(t1, "bold");
    assert!(s1.has(BOLD));
    let (t2, s2) = p.next().unwrap();
    assert_eq!(t2, " plain");
    assert!(!s2.has(BOLD));
    assert!(p.next().is_none());
}

#[test]
fn writer_builds_and_wraps_text() {
    let mut w = AnsiWriter::new();
    w.push_str("one two three four");
    w.insert_tag(0, AnsiTag::Bold);
    w.push_tag(AnsiTag::Reset);
    assert_eq!(w.as_str(), "\x1b[1mone two three four\x1b[0m");
    let mut plain = AnsiWriter::new();
    plain.push_str("one two three four");
    plain.textwrap(9);
    assert_eq!(plain.as_str(), "one two\nthree\nfour");
    plain.clear();
    assert!(plain.is_empty());
}

fn inline(s: &str) -> Vec<String> {
    let mut p = InlineParser::new(s);
    let mut out = Vec::new();
    while let Some(e) = p.next() {
        match e {
            InlineEvent::Text(t) => out.push(t.to_string()),
            InlineEvent::Tag(InlineTag::BoldStart) => out.push("<b>".to_string()),
            InlineEvent::Tag(InlineTag::BoldEnd) => out.push("</b>".to_string()),
            InlineEvent::Tag(InlineTag::ItalicStart) => out.push("<i>".to_string()),
            InlineEvent::Tag(InlineTag::ItalicEnd) => out.push("</i>".to_string()),
        }
    }
    out
}

#[test]
fn inline_markup_finds_bold_and_italic() {
    assert_eq!(inline("*bold* and _it_"), vec!["<b>", "bold", "</b>", " and ", "<i>", "it", "</i>"]);
    assert_eq!(inline("a * b"), vec!["a * b"]);
    assert_eq!(inline("x**y"), vec!["x*", "<b>", "y"]);
    assert_eq!(inline("snake_case_name"), vec!["snake", "<i>", "case", "</i>", "name"]);
    assert!(inline("").is_empty());
    assert_eq!(InlineTag::BoldStart.into_ansi(), AnsiTag::Bold);
    assert_eq!(InlineTag::ItalicEnd.into_ansi(), AnsiTag::NotItalic);
}

#[test]
fn highlight_theme_names() {
    assert_eq!(SyntaxHighlightTheme::SolarizedDark.as_str(), "Solarized (dark)");
    assert_eq!(SyntaxHighlightTheme::Base16OceanDark.as_str(), "base16-ocean.dark");
}

#[test]
fn ratings_round_trip_through_tags() {
    for r in [AudioRating::Awful, AudioRating::Bad, AudioRating::Okay, AudioRating::Good, AudioRating::Amazing] {
        assert_eq!(AudioRating::from_vorbis_comments(r.into_vorbis_comments()), Some(r));
        assert_eq!(AudioRating::from_id3v2(r.into_id3v2()), Some(r));
        let c = char::from(b'0' + r.as_u8());
        assert_eq!(AudioRating::from_char(c), Some(r));
    }
    assert_eq!(AudioRating::from_vorbis_comments("55"), Some(AudioRating::Okay));
    assert_eq!(AudioRating::from_vorbis_comments("+90"), Some(AudioRating::Amazing));
    assert_eq!(AudioRating::from_vorbis_comments("abc"), None);
    assert_eq!(AudioRating::from_vorbis_comments("300"), None);
    assert_eq!(AudioRating::from_id3v2(0), None);
    assert_eq!(AudioRating::from_id3v2(255), Some(AudioRating::Amazing));
    assert_eq!(AudioRating::from_char('0'), None);
}

#[test]
fn metadata_reads_tags_with_defaults() {
    let m = AudioMetadata::from_vorbis_comments(Some("T"), None, Some("A"), Some("20"));
    assert_eq!(m.title(), "T");
    assert_eq!(m.artist(), "");
    assert_eq!(m.album(), "A");
    assert_eq!(m.rating(), Some(AudioRating::Awful));
    let m = AudioMetadata::from_id3v2(None, Some("X"), None, Some(128));
    assert_eq!(m.artist(), "X");
    assert_eq!(m.rating(), Some(AudioRating::Okay));
}

#[test]
fn extensions_are_found_from_paths() {
    assert_eq!(AudioFileExtension::from_path("/a/b/song.FLAC"), Some(AudioFileExtension::Flac));
    assert_eq!(AudioFileExtension::from_path("x.mp3"), Some(AudioFileExtension::Mp3));
    assert_eq!(AudioFileExtension::from_path("x.opus"), Some(AudioFileExtension::Opus));
    assert_eq!(AudioFileExtension::from_path("x.txt"), None);
    assert_eq!(AudioFileExtension::from_path(".ogg"), None);
    assert_eq!(AudioFileExtension::from_path("dir.ogg/file"), None);
    assert_eq!(AudioFileExtension::Ogg.as_str(), "ogg");
    let report = AudioFileReport::new("oops".to_string());
    assert_eq!(report.message(), "oops");
}

#[test]
fn osc_answers_give_colors() {
    let c = TerminalColor::parse_osc("\x1b]11;rgb:c4c4/c4c4/b5b5\x1b\\").unwrap();
    assert_eq!((c.r, c.g, c.b), (0xc4, 0xc4, 0xb5));
    let c = TerminalColor::parse_osc("\x1b]10;rgb:ff/00/7F\x1b\\").unwrap();
    assert_eq!((c.r, c.g, c.b), (255, 0, 127));
    assert!(TerminalColor::parse_osc("\x1b]10;rgb:fff/00/00\x1b\\").is_none());
    assert!(TerminalColor::parse_osc("no colon").is_none());
    assert!(TerminalColor::parse_osc("rgb:ff/00/00").is_none());
    match TerminalColor::background_from_response("garbage") {
        Err(TerminalQueryError::Unsupported(m)) => {
            assert_eq!(m, "terminal does not support OSC 11 color query")
        }
        _ => panic!("expected an error"),
    }
}

#[test]
fn dark_and_light_themes() {
    assert!(TerminalColor::black().is_dark());
    assert!(!TerminalColor::white().is_dark());
    let palette = TerminalPalette { foreground: TerminalColor::white(), background: TerminalColor::black() };
    assert_eq!(palette.theme(), TerminalTheme::Dark);
    assert_eq!(TerminalColor { r: 200, g: 200, b: 200 }.as_theme(), TerminalTheme::Light);
}

#[test]
fn brightness_agrees_with_the_weighted_sum() {
    for r in (0..=255u8).step_by(3) {
        for g in 0..=255u8 {
            for b in (0..=255u8).step_by(5) {
                let exact = 299 * r as u32 + 587 * g as u32 + 114 * b as u32;
                if exact == 128_000 {
                    continue;
                }
                let float = 0.299 * r as f32 + 0.587 * g as f32 + 0.114 * b as f32;
                assert_eq!(TerminalColor { r, g, b }.is_dark(), float < 128.0);
            }
        }
    }
}

#[test]
fn cell_size_answers() {
    let s = TerminalCellSize::from_response("\x1b[6;20;10t\x1b[0n").unwrap();
    assert_eq!((s.width, s.height), (10, 20));
    assert!(TerminalCellSize::from_response("\x1b[6;20;10").is_err());
    assert!(TerminalCellSize::from_response("\x1b[6;x;10t").is_err());
    assert_eq!(TerminalCellSize::default(), TerminalCellSize { width: 10, height: 20 });
}

#[test]
fn text_around_a_tag_is_read_back_in_pieces() {
    for tag in [AnsiTag::Bold, AnsiTag::BgTrueColor(255, 255, 255), AnsiTag::Fg256(9)] {
        let code = tag.to_string();
        let s = format!("left{code}right");
        let mut p = AnsiParser::new(&s);
        let all = p.collect_events();
        assert_eq!(all.len(), 3);
        assert!(matches!(all[0], AnsiEvent::Text("left")));
        assert!(matches!(all[1], AnsiEvent::Tag(t) if t == tag));
        assert!(matches!(all[2], AnsiEvent::Text("right")));
        let mut q = AnsiParser::new(&code);
        let only = q.collect_events();
        assert_eq!(only.len(), 1);
        assert!(matches!(only[0], AnsiEvent::Tag(t) if t == tag));
    }
}
