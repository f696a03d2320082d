use std::collections::HashMap;

use anki_tui::anki::DeckCounts;
use anki_tui::app::{command_for, App, Awaiting, Command, Key, Reply, Request, ReviewCard, Screen};
use anki_tui::deck::{build_decks, DeckInfo};
use anki_tui::stats::CardStats;

type TestApp = App<String, String>;

fn decks(names: &[&str]) -> Vec<DeckInfo> {
    let entries = names.iter().enumerate().map(|(i, n)| (n.to_string(), i as i64)).collect();
    build_decks(entries, &HashMap::<i64, DeckCounts>::new())
}

fn app(names: &[&str]) -> TestApp {
    App::new(decks(names), None)
}

fn visible(a: &TestApp) -> Vec<String> {
    a.visible_decks().iter().map(|d| d.name.clone()).collect()
}

fn card(id: i64, buttons: Vec<i64>, audio: Vec<&str>) -> ReviewCard<String, String> {
    ReviewCard {
        card_id: id,
        question: format!("q{id}"),
        answer: format!("a{id}"),
        buttons,
        next_reviews: vec![],
        audio: audio.into_iter().map(String::from).collect(),
    }
}

#[test]
fn starts_with_parents_folded() {
    let a = app(&["A", "A::B", "A::B::C", "Z"]);
    assert_eq!(a.collapsed, vec!["A".to_string(), "A::B".to_string()]);
    assert_eq!(visible(&a), vec!["A", "Z"]);
    let twice = App::<String, String>::new(
        decks(&["A", "A::B"]),
        Some(vec!["A".to_string(), "A".to_string()]),
    );
    assert_eq!(twice.collapsed, vec!["A".to_string()]);
    let saved = App::<String, String>::new(decks(&["A", "A::B"]), Some(vec![]));
    assert_eq!(visible(&saved), vec!["A", "A::B"]);
    assert_eq!(saved.screen, Screen::DeckList);
}

#[test]
fn navigation_stays_in_list() {
    let mut a = app(&["A", "B", "C"]);
    a.select_next_deck();
    a.select_next_deck();
    a.select_next_deck();
    assert_eq!(a.deck_selected, 2);
    a.select_prev_deck();
    assert_eq!(a.deck_selected, 1);
    a.select_first();
    a.select_prev_deck();
    assert_eq!(a.deck_selected, 0);
    a.select_last();
    assert_eq!(a.deck_selected, 2);
    a.select_page_up();
    assert_eq!(a.deck_selected, 0);
    a.select_page_down();
    assert_eq!(a.deck_selected, 2);
    a.press_g();
    assert!(a.pending_g);
    a.press_g();
    assert_eq!((a.deck_selected, a.pending_g), (0, false));
}

#[test]
fn search_filters_case_insensitively() {
    let mut a = app(&["Spanish", "German::Verbs", "german", "Maths"]);
    a.start_search();
    assert!(a.searching);
    a.push_search('G');
    a.push_search('e');
    assert_eq!(visible(&a), vec!["german", "German::Verbs"]);
    a.backspace_search();
    assert_eq!(a.search, "G");
    a.confirm_search();
    assert!(!a.searching);
    assert_eq!(a.search, "G");
    a.cancel_search();
    assert_eq!(a.search, "");
    assert_eq!(a.deck_selected, 0);
}

#[test]
fn toggling_the_view_keeps_the_deck() {
    let mut a = app(&["A", "A::B", "C"]);
    a.select_next_deck(); // "C" in the tree view
    a.toggle_view();
    assert!(a.flat_view);
    assert_eq!(visible(&a), vec!["A", "A::B", "C"]);
    assert_eq!(a.deck_selected, 2);
    a.toggle_view();
    assert_eq!(a.deck_selected, 1);
}

#[test]
fn fold_and_unfold() {
    let mut a = app(&["A", "A::B", "C"]);
    assert!(matches!(a.expand_or_review(), Request::SaveCollapsed));
    assert!(a.collapsed.is_empty());
    assert_eq!(visible(&a), vec!["A", "A::B", "C"]);
    a.select_next_deck();
    // On the leaf: `h` jumps to the parent.
    assert!(matches!(a.collapse_or_parent(), Request::Nothing));
    assert_eq!(a.deck_selected, 0);
    assert!(matches!(a.collapse_or_parent(), Request::SaveCollapsed));
    assert_eq!(a.collapsed, vec!["A".to_string()]);
    assert_eq!(visible(&a), vec!["A", "C"]);
}

#[test]
fn review_flow_grade_and_undo() {
    let mut a = app(&["Deck"]);
    let r = a.expand_or_review();
    assert!(matches!(&r, Request::ReviewDeck(d) if d == "Deck"));
    assert_eq!(a.screen, Screen::Review);
    assert!(matches!(a.resume(Reply::Done(Err("offline".to_string()))), Request::LoadCard));
    assert_eq!(a.status.as_deref(), Some("offline"));
    assert!(matches!(a.resume(Reply::Card(Ok(Some(card(1, vec![1, 3], vec![]))))), Request::Nothing));
    assert_eq!(a.awaiting, Awaiting::Nothing);
    // Grading before the answer is shown does nothing.
    assert!(matches!(a.grade(3), Request::Nothing));
    assert!(matches!(a.space(), Request::ShowAnswer));
    assert!(matches!(a.resume(Reply::Done(Ok(()))), Request::PlayAnswerAudio));
    assert!(a.answer_shown);
    assert!(matches!(a.grade(2), Request::Nothing));
    assert_eq!(a.status.as_deref(), Some("No 'Hard' button for this card"));
    assert!(matches!(a.space(), Request::AnswerCard(3)));
    assert!(matches!(a.resume(Reply::Done(Ok(()))), Request::LoadCard));
    assert!(a.status.is_none());
    assert!(matches!(a.resume(Reply::Card(Ok(Some(card(2, vec![1, 2, 3, 4], vec![]))))), Request::Nothing));
    assert_eq!(a.prev_card.as_ref().map(|c| c.card_id), Some(1));
    assert!(matches!(a.undo(), Request::Undo));
    assert!(matches!(a.resume(Reply::Undone(Ok(true))), Request::Nothing));
    assert_eq!(a.card.as_ref().map(|c| c.card_id), Some(1));
    assert!(a.undone && !a.answer_shown);
    assert_eq!(a.status.as_deref(), Some("Undone — re-grade this card"));
    // The restored card is revealed locally and re-graded by id.
    assert!(matches!(a.show_answer(), Request::PlayAnswerAudio));
    assert!(matches!(a.grade(1), Request::AnswerCardById(1, 1)));
    assert!(matches!(a.resume(Reply::Done(Ok(()))), Request::LoadCard));
    assert!(!a.undone);
    assert!(matches!(a.resume(Reply::Card(Ok(None))), Request::Nothing));
    assert!(a.deck_finished && a.card.is_none());
    assert!(matches!(a.undo(), Request::Nothing));
    assert_eq!(a.status.as_deref(), Some("Nothing to undo"));
}

#[test]
fn undo_refused_keeps_the_stash() {
    let mut a = app(&["Deck"]);
    a.prev_card = Some(card(5, vec![3], vec![]));
    assert!(matches!(a.undo(), Request::Undo));
    assert!(matches!(a.resume(Reply::Undone(Ok(false))), Request::Nothing));
    assert_eq!(a.status.as_deref(), Some("Nothing to undo"));
    assert!(a.prev_card.is_some());
    assert!(matches!(a.undo(), Request::Undo));
    a.resume(Reply::Undone(Err("boom".to_string())));
    assert_eq!(a.status.as_deref(), Some("boom"));
    assert!(a.prev_card.is_some());
}

#[test]
fn suspend_moves_on() {
    let mut a = app(&["Deck"]);
    a.deck_name = "Deck".to_string();
    a.screen = Screen::Review;
    a.card = Some(card(8, vec![3], vec!["x.mp3"]));
    assert!(matches!(a.suspend_card(), Request::Suspend(8)));
    let r = a.resume(Reply::Done(Ok(())));
    assert!(matches!(&r, Request::ReviewDeck(d) if d == "Deck"));
    assert_eq!(a.status.as_deref(), Some("Card suspended — u to undo"));
    assert!(matches!(a.resume(Reply::Done(Ok(()))), Request::LoadCard));
    assert_eq!(a.prev_card.as_ref().map(|c| c.card_id), Some(8));
    assert!(a.card.is_none());
}

#[test]
fn audio_replay_and_scroll() {
    let mut a = app(&["Deck"]);
    assert!(matches!(a.replay_audio(), Request::Nothing));
    a.card = Some(card(1, vec![3], vec![]));
    assert!(matches!(a.replay_audio(), Request::Nothing));
    assert_eq!(a.status.as_deref(), Some("No audio on this card"));
    a.card = Some(card(1, vec![3], vec!["x.mp3"]));
    assert!(matches!(a.replay_audio(), Request::PlayCardAudio));
    a.scroll_up();
    assert_eq!(a.scroll, 0);
    a.scroll_down();
    a.scroll_down();
    a.scroll_up();
    assert_eq!(a.scroll, 1);
    a.stats_scroll_down();
    a.stats_scroll_up();
    a.stats_scroll_up();
    assert_eq!(a.stats_scroll, 0);
}

#[test]
fn stats_popup_toggles() {
    let mut a = app(&["Deck"]);
    assert!(matches!(a.toggle_stats(), Request::Nothing));
    a.card = Some(card(4, vec![3], vec![]));
    assert!(matches!(a.toggle_stats(), Request::CardStats(4)));
    let stats = CardStats { rows: vec![], history: vec![] };
    a.resume(Reply::Stats(Ok(stats)));
    assert!(a.stats.is_some());
    assert!(matches!(a.toggle_stats(), Request::Nothing));
    assert!(a.stats.is_none());
}

#[test]
fn sync_refreshes_the_list() {
    let mut a = app(&["A", "B"]);
    a.select_last();
    assert!(matches!(a.sync(), Request::Sync));
    assert!(matches!(a.resume(Reply::Done(Ok(()))), Request::LoadDecks));
    a.resume(Reply::Decks(Ok(decks(&["Only"]))));
    assert_eq!(a.deck_selected, 0);
    assert_eq!(a.status.as_deref(), Some("Synced with AnkiWeb"));
    assert!(matches!(a.sync(), Request::Sync));
    a.resume(Reply::Done(Err("no login".to_string())));
    assert_eq!(a.status.as_deref(), Some("no login"));
    // A reply nobody asked for is ignored.
    assert!(matches!(a.resume(Reply::Done(Ok(()))), Request::Nothing));
    assert_eq!(a.status.as_deref(), Some("no login"));
}

#[test]
fn back_to_decks_resets_review() {
    let mut a = app(&["A"]);
    a.screen = Screen::Review;
    a.card = Some(card(1, vec![3], vec![]));
    a.answer_shown = true;
    a.scroll = 4;
    assert!(matches!(a.back_to_decks(), Request::LoadDecks));
    assert_eq!(a.screen, Screen::DeckList);
    assert!(a.card.is_none() && !a.answer_shown && a.scroll == 0);
    a.resume(Reply::Decks(Err("down".to_string())));
    assert_eq!(a.status.as_deref(), Some("down"));
}

#[test]
fn key_bindings() {
    let deck = |k| command_for(Screen::DeckList, false, false, k);
    let review = |k| command_for(Screen::Review, false, false, k);
    assert_eq!(deck(Key::Char('q')), Command::Quit);
    assert_eq!(review(Key::Char('q')), Command::Quit);
    assert_eq!(deck(Key::Down), Command::NextDeck);
    assert_eq!(deck(Key::Enter), Command::EnterReview);
    assert_eq!(deck(Key::Char('d')), Command::Ignore);
    assert_eq!(deck(Key::Char('l')), Command::ExpandOrReview);
    assert_eq!(deck(Key::Left), Command::CollapseOrParent);
    assert_eq!(deck(Key::Char(',')), Command::ToggleView);
    assert_eq!(deck(Key::Char('g')), Command::PressG);
    assert_eq!(deck(Key::Char('G')), Command::SelectLast);
    assert_eq!(deck(Key::Char('/')), Command::StartSearch);
    assert_eq!(deck(Key::Char('y')), Command::Sync);
    assert_eq!(deck(Key::Ctrl('d')), Command::PageDown);
    assert_eq!(deck(Key::Ctrl('u')), Command::PageUp);
    assert_eq!(review(Key::Char('4')), Command::Grade(4));
    assert_eq!(review(Key::Char(' ')), Command::Space);
    assert_eq!(review(Key::Char('u')), Command::Undo);
    assert_eq!(review(Key::Char('i')), Command::ToggleStats);
    assert_eq!(review(Key::Up), Command::ScrollUp);
    // While searching, typed characters (even `q`) go into the filter.
    assert_eq!(command_for(Screen::DeckList, true, false, Key::Char('q')), Command::SearchPush('q'));
    assert_eq!(command_for(Screen::DeckList, true, false, Key::Esc), Command::SearchCancel);
    assert_eq!(command_for(Screen::DeckList, true, false, Key::Enter), Command::SearchConfirm);
    // With the card info open, `j`/`k` scroll it and Esc closes it.
    assert_eq!(command_for(Screen::Review, false, true, Key::Char('j')), Command::StatsScrollDown);
    assert_eq!(command_for(Screen::Review, false, true, Key::Esc), Command::ToggleStats);
    assert_eq!(command_for(Screen::Review, false, true, Key::Char('1')), Command::Ignore);

    let mut a = app(&["A", "B"]);
    a.handle_key(Key::Char('j'));
    assert_eq!(a.deck_selected, 1);
    let r = a.handle_key(Key::Char('l'));
    assert!(matches!(&r, Request::ReviewDeck(d) if d == "B"));
    a.handle_key(Key::Char('q'));
    assert!(a.should_quit);
}

#[test]
fn documented_keys_reach_their_actions() {
    // Deck list: fold with `h`, unfold with `l`, search with `/`.
    let mut a = app(&["A", "A::B", "C"]);
    assert_eq!(visible(&a), vec!["A", "C"]);
    assert!(matches!(a.handle_key(Key::Char('l')), Request::SaveCollapsed));
    assert_eq!(visible(&a), vec!["A", "A::B", "C"]);
    assert!(matches!(a.handle_key(Key::Char('h')), Request::SaveCollapsed));
    assert_eq!(visible(&a), vec!["A", "C"]);
    a.handle_key(Key::Char('G'));
    assert_eq!(a.deck_selected, 1);
    a.handle_key(Key::Char('g'));
    a.handle_key(Key::Char('g'));
    assert_eq!(a.deck_selected, 0);
    a.handle_key(Key::Char(','));
    assert!(a.flat_view);
    a.handle_key(Key::Char('/'));
    a.handle_key(Key::Char('c'));
    assert_eq!(a.search, "c");
    a.handle_key(Key::Esc);
    assert!(!a.searching && a.search.is_empty());

    // Review screen: space reveals, then grades Good; `u` undoes; `i` opens the info.
    let mut r = app(&["A"]);
    r.screen = Screen::Review;
    r.card = Some(card(7, vec![1, 3], vec![]));
    assert!(matches!(r.handle_key(Key::Char(' ')), Request::ShowAnswer));
    r.resume(Reply::Done(Ok(())));
    assert!(r.answer_shown);
    assert!(matches!(r.handle_key(Key::Char(' ')), Request::AnswerCard(3)));
    r.resume(Reply::Done(Ok(())));
    r.resume(Reply::Card(Ok(None)));
    assert!(matches!(r.handle_key(Key::Char('u')), Request::Undo));
    r.resume(Reply::Undone(Ok(true)));
    assert_eq!(r.card.as_ref().map(|c| c.card_id), Some(7));
    assert!(matches!(r.handle_key(Key::Char('i')), Request::CardStats(7)));
}
