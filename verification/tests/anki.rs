use std::collections::HashMap;

use anki_tui::anki::{field_html, media_bytes, reply_error, review_inactive, CurrentCard, DeckCounts, Field, MediaReply};
use anki_tui::text::decimal_string;

#[test]
fn recognises_inactive_review_screen() {
    assert!(review_inactive(
        "AnkiConnect error for `guiCurrentCard`: Gui review is not currently active."
    ));
    assert!(!review_inactive("AnkiConnect error: collection is not available"));
}

#[test]
fn joins_fields_in_order() {
    let fields = vec![
        Field { value: "back [sound:b.mp3]".to_string(), order: 1 },
        Field { value: "front".to_string(), order: 0 },
        Field { value: "extra".to_string(), order: 1 },
    ];
    assert_eq!(field_html(fields), "front\nback [sound:b.mp3]\nextra");
    assert_eq!(field_html(vec![]), "");
}

#[test]
fn decodes_media_replies() {
    assert_eq!(media_bytes(MediaReply::Encoded("aGVsbG8=".to_string())), Ok(Some(b"hello".to_vec())));
    assert_eq!(
        media_bytes(MediaReply::Encoded("!!".to_string())),
        Err("media file was not valid base64".to_string())
    );
    assert_eq!(media_bytes(MediaReply::Missing), Ok(None));
    assert_eq!(media_bytes(MediaReply::Other), Ok(None));
}

#[test]
fn records_hold_their_values() {
    let c = DeckCounts::default();
    assert_eq!((c.new, c.learn, c.review), (0, 0, 0));
    let card = CurrentCard {
        question: "q".to_string(),
        answer: "a".to_string(),
        card_id: 9,
        buttons: vec![1, 3],
        next_reviews: vec![],
        fields: HashMap::new(),
    };
    assert_eq!(card.card_id, 9);
    assert_eq!(decimal_string(i64::MIN), i64::MIN.to_string());
    assert_eq!(decimal_string(-7), "-7");
    assert_eq!(decimal_string(0), "0");
    assert_eq!(decimal_string(1234567), "1234567");
}

#[test]
fn reply_errors_name_the_action() {
    assert_eq!(reply_error("sync", None), None);
    assert_eq!(
        reply_error("guiUndo", Some("boom".to_string())),
        Some("AnkiConnect error for `guiUndo`: boom".to_string())
    );
}
