use std::collections::HashMap;

use anki_tui::anki::DeckCounts;
use anki_tui::deck::build_decks;
use anki_tui::stats::{CardStats, ReviewKind, ReviewRow};
use anki_tui::view::{
    body_layout, count_text, deck_list_title, deck_marker, deck_name_column, deck_row_name,
    grade_hint, grade_label, highlighted_row, history_cells, history_header, history_shown,
    kind_tint, label_cell, label_width, pad_left, pad_right, rating_alert, BodyItem, Placement,
    Tint,
};

const TAIL: &str = "   space: good   r: replay   i: info   u: undo   d: decks   q: quit ";

#[test]
fn grade_hints() {
    let hint = grade_hint(&[1, 3], &["<1m".to_string(), "10m".to_string()]);
    assert_eq!(hint, format!(" 1:Again(<1m)  3:Good(10m){TAIL}"));
    let hint = grade_hint(&[4, 2, 1, 3], &["a".to_string(), "".to_string()]);
    assert_eq!(hint, format!(" 1:Again  2:Hard  3:Good  4:Easy(a){TAIL}"));
    let hint = grade_hint(&[], &[]);
    assert_eq!(hint, format!(" {TAIL}"));
    assert_eq!(grade_label(2), "Hard");
    assert_eq!(grade_label(7), "?");
}

#[test]
fn deck_rows() {
    assert_eq!(deck_name_column("Leaf", 1, "  ", 25), "    Leaf  ");
    assert_eq!(deck_name_column("LongName", 0, "▶ ", 20), "▶ Lo…");
    assert_eq!(deck_name_column("X", 0, "", 0), "X");
    assert_eq!(deck_name_column("XY", 0, "", 3), "…");
    assert_eq!(count_text(7), "    7");
    assert_eq!(count_text(123456), "123456");
    assert_eq!(deck_marker(true, false, true), "▶ ");
    assert_eq!(deck_marker(true, true, true), "▼ ");
    assert_eq!(deck_marker(false, false, true), "  ");
    assert_eq!(deck_list_title(3, ""), " Decks (3) ");
    assert_eq!(deck_list_title(12, "sp"), " Decks (12) — /sp ");
}

#[test]
fn padding() {
    assert_eq!(pad_right("ab", 4), "ab  ");
    assert_eq!(pad_right("abcdef", 4), "abcdef");
    assert_eq!(pad_left("ab", 4), "  ab");
    assert_eq!(format!("{:<5}", "é"), pad_right("é", 5));
}

#[test]
fn card_body_layout() {
    let items = vec![
        BodyItem { image: false, height: 3, cols: 0 },
        BodyItem { image: true, height: 4, cols: 50 },
        BodyItem { image: false, height: 10, cols: 0 },
    ];
    let p = body_layout(&items, 0, 6, 40).unwrap();
    assert_eq!(p[0], Some(Placement { top: 0, height: 3, skip: 0, width: 40 }));
    assert_eq!(p[1], Some(Placement { top: 4, height: 2, skip: 0, width: 40 }));
    assert_eq!(p[2], None);
    // Scrolled by two rows: the text is clipped at the top, the image moves up.
    let p = body_layout(&items, 2, 6, 40).unwrap();
    assert_eq!(p[0], Some(Placement { top: 0, height: 1, skip: 2, width: 40 }));
    assert_eq!(p[1], Some(Placement { top: 2, height: 4, skip: 0, width: 40 }));
    // A partly scrolled image is not drawn.
    let p = body_layout(&items, 5, 6, 40).unwrap();
    assert_eq!(p[1], None);
    assert_eq!(p[2], Some(Placement { top: 4, height: 2, skip: 0, width: 40 }));
    let huge = vec![BodyItem { image: false, height: i32::MAX, cols: 0 }; 2];
    assert!(body_layout(&huge, 0, 6, 40).is_none());
}

#[test]
fn stats_table() {
    let rows = vec![
        ("Added".to_string(), "x".to_string()),
        ("First Review".to_string(), "y".to_string()),
    ];
    assert_eq!(label_width(&rows), 12);
    assert_eq!(label_cell("Added", 12), "Added         ");
    assert_eq!(
        history_header(),
        format!("{:<18}{:<9}{:<8}{:<13}{}", "Date", "Type", "Rating", "Interval", "Time")
    );
    let row = ReviewRow {
        date: "2024-01-01 @ 10:00".to_string(),
        kind: ReviewKind::Relearn,
        rating: 1,
        interval: "10 minutes".to_string(),
        time: "7.25s".to_string(),
    };
    assert_eq!(
        history_cells(&row),
        vec![
            "2024-01-01 @ 10:00".to_string(),
            "Relearn  ".to_string(),
            "1       ".to_string(),
            "10 minutes   ".to_string(),
            "7.25s".to_string()
        ]
    );
}

#[test]
fn deck_rows_in_each_view() {
    let decks = build_decks(
        vec![("A".to_string(), 1), ("A::B".to_string(), 2)],
        &HashMap::<i64, DeckCounts>::new(),
    );
    let folded = vec!["A".to_string()];
    let width = 15 + 12;
    assert_eq!(deck_row_name(&decks[0], false, false, &folded, width), format!("{:<12}", "\u{25b6} A"));
    assert_eq!(deck_row_name(&decks[0], false, true, &folded, width), format!("{:<12}", "\u{25bc} A"));
    assert_eq!(deck_row_name(&decks[1], false, false, &folded, width), format!("{:<12}", "    B"));
    assert_eq!(deck_row_name(&decks[1], true, false, &folded, width), format!("{:<12}", "A::B"));
    assert_eq!(highlighted_row(0, 3), None);
    assert_eq!(highlighted_row(2, 1), Some(1));
}

#[test]
fn history_colours() {
    assert_eq!(kind_tint(ReviewKind::Learn), Tint::Blue);
    assert_eq!(kind_tint(ReviewKind::Review), Tint::Green);
    assert_eq!(kind_tint(ReviewKind::Relearn), Tint::Red);
    assert_eq!(kind_tint(ReviewKind::Filtered), Tint::Cyan);
    assert!(rating_alert(1));
    assert!(!rating_alert(3));
    let mut stats = CardStats { rows: vec![], history: vec![] };
    assert!(!history_shown(&stats));
    stats.history.push(ReviewRow {
        date: "d".to_string(),
        kind: ReviewKind::Review,
        rating: 3,
        interval: "1 day".to_string(),
        time: "1s".to_string(),
    });
    assert!(history_shown(&stats));
}
