use anki_tui::media::{
    attr_value, card_blocks, decode_card_image, extract_audio, image_sources, natural_cells,
    push_text_block, render_html, safe_file_name, span_style, split_on_hr, strip_media_tokens,
    styled_lines, Annot, Block, RichPiece, SpanStyle,
};
use anki_tui::text::is_whitespace;
use image::{ImageFormat, RgbaImage};

#[test]
fn extracts_sound_filenames() {
    let html = "Word [sound:hello.mp3] more [sound:bye.ogg]";
    assert_eq!(extract_audio(html), vec!["hello.mp3", "bye.ogg"]);
}

#[test]
fn strips_media_tokens() {
    let html = "Hello [sound:x.mp3] <img src=\"a.jpg\"> world";
    let cleaned = strip_media_tokens(html);
    assert!(!cleaned.contains("[sound:"));
    assert!(!cleaned.contains("<img"));
    assert!(cleaned.contains("Hello"));
    assert!(cleaned.contains("world"));
}

#[test]
fn strip_exact_output() {
    assert_eq!(
        strip_media_tokens("Hello [sound:x.mp3] <img src=\"a.jpg\"> world"),
        "Hello   world"
    );
    assert_eq!(strip_media_tokens("a<IMG src=x>b"), "ab");
    // An unclosed sound token swallows the rest.
    assert_eq!(strip_media_tokens("keep [sound:open"), "keep ");
    // An unclosed image tag swallows the rest.
    assert_eq!(strip_media_tokens("keep <img src=x"), "keep ");
    assert_eq!(strip_media_tokens("plain text"), "plain text");
}

#[test]
fn extract_audio_edge_cases() {
    assert!(extract_audio("no sounds here").is_empty());
    assert_eq!(extract_audio("[sound:a.mp3][sound:b"), vec!["a.mp3"]);
    assert_eq!(extract_audio("[sound:]"), vec![""]);
    assert_eq!(extract_audio("[sound:ünï.mp3]"), vec!["ünï.mp3"]);
}

#[test]
fn splits_on_rules() {
    let html = "Acronym: <b>OSCI</b><hr id=answer/>Online Services Computer Interface";
    assert_eq!(
        split_on_hr(html),
        vec!["Acronym: <b>OSCI</b>", "Online Services Computer Interface"]
    );
    assert_eq!(split_on_hr("a<HR>b<hr/>c"), vec!["a", "b", "c"]);
    // `<hra>` is not a rule, and an unclosed `<hr` is kept.
    assert_eq!(split_on_hr("a<hra>b"), vec!["a<hra>b"]);
    assert_eq!(split_on_hr("a<hr"), vec!["a<hr"]);
    assert_eq!(split_on_hr("x<hr\n>y"), vec!["x", "y"]);
    assert_eq!(split_on_hr(""), vec![""]);
}

#[test]
fn reads_attribute_values() {
    assert_eq!(attr_value("<img src=\"a.jpg\">", "src"), Some("a.jpg".to_string()));
    assert_eq!(attr_value("<img SRC='b c.png' alt=x>", "src"), Some("b c.png".to_string()));
    assert_eq!(attr_value("<img src=plain.gif>", "src"), Some("plain.gif".to_string()));
    assert_eq!(attr_value("<img src=plain.gif alt=y>", "src"), Some("plain.gif".to_string()));
    assert_eq!(attr_value("<img alt=x>", "src"), None);
    assert_eq!(attr_value("<img src=\"open>", "src"), None);
    assert_eq!(attr_value("<img src=", "src"), None);
}

#[test]
fn image_sources_and_blocks() {
    let html = "Front <img src=\"a.png\"> middle <img alt=x> <img src='c.gif'>[sound:s.mp3] end";
    assert_eq!(
        image_sources(html),
        vec![Some("a.png".to_string()), None, Some("c.gif".to_string())]
    );
    let blocks = card_blocks(html, &vec![true, false, true]);
    let shape: Vec<String> = blocks
        .iter()
        .map(|b| match b {
            Block::Text(t) => format!("T:{t}"),
            Block::Image(i) => format!("I:{i}"),
        })
        .collect();
    assert_eq!(shape, vec!["T:Front ", "I:0", "T: middle ", "I:1", "T: end"]);
    // Nothing loaded: only the text runs remain (blank runs dropped).
    let blocks = card_blocks(html, &vec![]);
    assert_eq!(blocks.len(), 3);
}

#[test]
fn text_blocks_skip_blank_runs() {
    let mut blocks = Vec::new();
    push_text_block(&mut blocks, "  [sound:x.mp3] \n");
    assert!(blocks.is_empty());
    push_text_block(&mut blocks, "hi <img src=a>");
    assert!(matches!(&blocks[0], Block::Text(t) if t == "hi "));
}

#[test]
fn natural_cell_sizes() {
    assert_eq!(natural_cells(100, 50, 10, 20), (10, 3));
    assert_eq!(natural_cells(0, 0, 10, 20), (1, 1));
    assert_eq!(natural_cells(7, 7, 0, 0), (7, 7));
    assert_eq!(natural_cells(u32::MAX, 1, 1, 1), (u16::MAX, 1));
}

#[test]
fn media_names_lose_their_directories() {
    assert_eq!(safe_file_name("../../etc/x.mp3"), "x.mp3");
    assert_eq!(safe_file_name("a\\b.ogg"), "b.ogg");
    assert_eq!(safe_file_name("plain.wav"), "plain.wav");
    assert_eq!(safe_file_name("dir/"), "");
}

#[test]
fn whitespace_matches_std() {
    for c in (0u32..=0x10FFFF).filter_map(char::from_u32) {
        assert_eq!(is_whitespace(c), c.is_whitespace(), "{c:?}");
    }
}

#[test]
fn decodes_card_images() {
    let img = RgbaImage::new(30, 45);
    let mut png = std::io::Cursor::new(Vec::new());
    img.write_to(&mut png, ImageFormat::Png).unwrap();
    let pic = decode_card_image(png.get_ref(), 10, 20).expect("png decodes");
    assert_eq!((pic.cols, pic.rows), (3, 3));
    assert!(decode_card_image(b"not an image", 10, 20).is_none());
}

fn flat(lines: &[Vec<(String, SpanStyle)>]) -> String {
    lines.iter().flat_map(|l| l.iter().map(|(s, _)| s.as_str())).collect()
}

#[test]
fn to_text_renders_html_and_drops_style() {
    let html = strip_media_tokens("<style>.card { color: red; }</style><p>Hello&nbsp;world</p>");
    // Flatten the styled lines back to a string to assert on content.
    let text = flat(&render_html(&html, 40));
    // &nbsp; decodes to U+00A0, so check the words individually.
    assert!(text.contains("Hello"));
    assert!(text.contains("world"));
    assert!(!text.contains("color"));
    assert!(!text.contains("<"));
}

#[test]
fn dbg_hr() {
    let html = "Acronym: <b>OSCI</b><hr id=answer/>Online Services Computer Interface";
    for line in html2text::config::rich().lines_from_read(html.as_bytes(), 60).unwrap() {
        let mut s = String::new();
        for el in line {
            if let html2text::render::TaggedLineElement::Str(ts) = el {
                s.push_str(&ts.s);
            }
        }
        println!("LINE {s:?}");
    }
}

#[test]
fn to_text_renders_bold_as_modifier() {
    let text = render_html("Acronym: <b>VVT</b>", 40);
    // The "VVT" span must carry the bold modifier, and no literal `**`
    // markers should leak into the rendered text.
    let vvt = text
        .iter()
        .flat_map(|l| l.iter())
        .find(|(s, _)| s.contains("VVT"))
        .expect("VVT span present");
    assert!(vvt.1.bold);
    assert!(!flat(&text).contains("**"));
}

#[test]
fn rules_separate_parts() {
    let lines = render_html("Front<hr id=answer>Back", 12);
    let rule: Vec<&(String, SpanStyle)> =
        lines.iter().flat_map(|l| l.iter()).filter(|(_, st)| st.muted).collect();
    assert_eq!(rule.len(), 1);
    assert_eq!(rule[0].0, "\u{2500}".repeat(12));
    let narrow = render_html("A<hr>B", 3);
    assert!(narrow.iter().flat_map(|l| l.iter()).any(|(s, _)| *s == "\u{2500}".repeat(10)));
    // Empty parts are skipped: no rule before or after them.
    let one = render_html("<hr>Only", 20);
    assert!(one.iter().flat_map(|l| l.iter()).all(|(_, st)| !st.muted));
}

#[test]
fn styles_fold_markup() {
    let st = span_style(&vec![Annot::Link, Annot::Strong, Annot::Other]);
    assert!(st.bold && st.underlined && !st.italic && !st.dim && !st.crossed_out && !st.muted);
    let failed = styled_lines(None, "<raw>");
    assert_eq!(failed.len(), 1);
    assert_eq!(failed[0][0].0, "<raw>");
    let lines = styled_lines(
        Some(vec![vec![RichPiece::Anchor("a".to_string()), RichPiece::Text("x".to_string(), vec![Annot::Code])]]),
        "ignored",
    );
    assert_eq!(lines.len(), 1);
    assert_eq!(lines[0].len(), 1);
    assert!(lines[0][0].1.dim);
}
