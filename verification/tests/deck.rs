use std::collections::HashMap;

use anki_tui::anki::DeckCounts;
use anki_tui::deck::{
    ancestor_collapsed, build_decks, deck_depth, deck_label, deck_parent, default_collapsed,
    sorted_names,
};

fn entries(names: &[(&str, i64)]) -> Vec<(String, i64)> {
    names.iter().map(|(n, i)| (n.to_string(), *i)).collect()
}

#[test]
fn deck_name_parts() {
    assert_eq!(deck_label("A::B::C"), "C");
    assert_eq!(deck_parent("A::B::C"), Some("A::B".to_string()));
    assert_eq!(deck_depth("A::B::C"), 2);
    assert_eq!(deck_label("Top"), "Top");
    assert_eq!(deck_parent("Top"), None);
    assert_eq!(deck_depth("Top"), 0);
    // Left-to-right splitting vs. right-to-left label.
    assert_eq!(deck_depth("A:::B"), 1);
    assert_eq!(deck_label("A:::B"), "B");
    assert_eq!(deck_parent("A:::B"), Some("A:".to_string()));
}

#[test]
fn builds_sorted_deck_tree() {
    let mut stats = HashMap::new();
    stats.insert(2, DeckCounts { new: 5, learn: 1, review: 7 });
    let decks = build_decks(
        entries(&[("b::x", 3), ("A", 1), ("b", 2), ("A::child::leaf", 4)]),
        &stats,
    );
    let names: Vec<&str> = decks.iter().map(|d| d.name.as_str()).collect();
    assert_eq!(names, vec!["A", "A::child::leaf", "b", "b::x"]);
    let a = &decks[0];
    assert!(a.has_children && a.depth == 0 && a.label == "A");
    let leaf = &decks[1];
    assert!(!leaf.has_children && leaf.depth == 2 && leaf.label == "leaf");
    let b = &decks[2];
    assert_eq!((b.counts.new, b.counts.learn, b.counts.review), (5, 1, 7));
    assert_eq!(decks[3].counts.new, 0);
    // "A::child" is not itself a deck, but still an ancestor.
    assert_eq!(default_collapsed(&decks), vec!["A".to_string(), "b".to_string()]);
}

#[test]
fn ancestors_in_collapsed_set() {
    let collapsed = vec!["A::B".to_string()];
    assert!(ancestor_collapsed("A::B::C", &collapsed));
    assert!(!ancestor_collapsed("A::B", &collapsed));
    assert!(!ancestor_collapsed("A::BC", &collapsed));
}

#[test]
fn deck_order_ignores_case_and_saved_names_do_not() {
    let decks = build_decks(entries(&[("B", 1), ("a", 2), ("ÀBc", 3), ("àbb", 4)]), &HashMap::new());
    let names: Vec<&str> = decks.iter().map(|d| d.name.as_str()).collect();
    assert_eq!(names, vec!["a", "B", "àbb", "ÀBc"]);
    let sorted = sorted_names(&vec!["b".to_string(), "B".to_string(), "a".to_string()]);
    assert_eq!(sorted, vec!["B", "a", "b"]);
}
