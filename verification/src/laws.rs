//! Properties of the library that span several operations.

use vstd::prelude::*;

use crate::app::{command_of, position_of, without, App, Awaiting, Command, Key, Reply, ReviewCard, Request, Screen};
use crate::deck::{
    all_ancestors, ancestor_in, ancestors, depth_of, distinct_names, is_parent, label_of,
    lemma_distinct_names, last_sep, last_sep_before, lowercase, parent_names, parent_of, seps_from,
    sep, seq_le, views, DeckInfo,
};
use crate::anki::{CardInfo, ReviewEntry};
use crate::stats::{stat_rows, CellView};
use crate::media::{
    style_of, Annot,
    audio_names, blocks_of, hr_open, hr_pieces, hr_pieces_from, img_open, is_loaded, segments,
    sound_open, strip_img_from, strip_media, strip_sound_from, text_block, BlockView,
};
use crate::sort::{lemma_sort_by_key, sort_by_key, SortKey};
use crate::text::{decimal, digit, find_from, lemma_find_from, lower_seq, matches_at};

verus! {

/// Grading a card through the review screen and then undoing (with Anki reporting
/// the undo done) brings that very card back: it is current again, with its
/// answer hidden, marked as restored, and nothing left to undo.
pub proof fn law_undo_restores_graded_card<S, C>(
    a0: App<S, C>,
    ease: i64,
    a1: App<S, C>,
    r1: Request,
    a2: App<S, C>,
    r2: Request,
    next: Result<Option<ReviewCard<S, C>>, String>,
    a3: App<S, C>,
    r3: Request,
    a4: App<S, C>,
    r4: Request,
    a5: App<S, C>,
    r5: Request,
)
    requires
        a0.answer_shown,
        !a0.undone,
        a0.card matches Some(c) && c.buttons@.contains(ease),
        a0.graded(ease, &a1, r1),
        a1.resumed(Reply::Done(Ok(())), &a2, r2),
        a2.resumed(Reply::Card(next), &a3, r3),
        a3.undo_requested(&a4, r4),
        a4.resumed(Reply::Undone(Ok(true)), &a5, r5),
    ensures
        r1 == Request::AnswerCard(ease),
        r2 is LoadCard,
        r4 is Undo,
        a5.card == a0.card,
        a5.undone,
        !a5.answer_shown,
        a5.prev_card is None,
{
}

/// A restored card is re-graded by its id: once its answer is shown, grading
/// it with a grade it has a button for asks Anki to answer that card by id.
pub proof fn law_restored_card_regraded_by_id<S, C>(
    a0: App<S, C>,
    ease: i64,
    a1: App<S, C>,
    r1: Request,
    a2: App<S, C>,
    r2: Request,
)
    requires
        a0.undone,
        !a0.answer_shown,
        a0.card matches Some(c) && c.buttons@.contains(ease),
        a0.answer_requested(&a1, r1),
        a1.graded(ease, &a2, r2),
    ensures
        a1.answer_shown,
        r1 is PlayAnswerAudio,
        r2 == Request::AnswerCardById(a0.card.unwrap().card_id, ease),
{
}

/// Space twice: the first press reveals the answer (through the review screen),
/// the second grades the card Good.
pub proof fn law_space_reveals_then_grades_good<S, C>(
    a0: App<S, C>,
    a1: App<S, C>,
    r1: Request,
    a2: App<S, C>,
    r2: Request,
    a3: App<S, C>,
    r3: Request,
)
    requires
        !a0.answer_shown,
        !a0.undone,
        a0.card matches Some(c) && c.buttons@.contains(3),
        a0.answer_requested(&a1, r1),
        a1.resumed(Reply::Done(Ok(())), &a2, r2),
        a2.graded(3, &a3, r3),
    ensures
        r1 is ShowAnswer,
        a2.answer_shown,
        r2 is PlayAnswerAudio,
        r3 == Request::AnswerCard(3),
{
}

/// Pressing a grade that the card has no button for changes nothing but the
/// footer message, and asks nothing of Anki.
pub proof fn law_grade_without_button_is_noop<S, C>(
    a0: App<S, C>,
    ease: i64,
    a1: App<S, C>,
    r1: Request,
)
    requires
        a0.answer_shown,
        a0.card matches Some(c) && !c.buttons@.contains(ease),
        a0.graded(ease, &a1, r1),
    ensures
        r1 is Nothing,
        a1 == (App { status: a1.status, ..a0 }),
        a1.status is Some,
{
}

/// Vim `gg`: two presses of `g` jump to the first deck and disarm `g`.
pub proof fn law_gg_jumps_to_top<S, C>(a0: App<S, C>)
    requires
        !a0.pending_g,
    ensures
        a0.g_pressed().g_pressed() == (App { deck_selected: 0, pending_g: false, ..a0 }),
{
}

/// Scrolling down then up returns to the same place (below the last row).
pub proof fn law_scroll_round_trip<S, C>(a0: App<S, C>)
    requires
        a0.scroll < u16::MAX,
    ensures
        a0.scrolled_down().scrolled_up() == a0,
{
}

/// Moving the selection down keeps it on a listed deck whenever the list is
/// not empty.
pub proof fn law_next_stays_in_list<S, C>(a0: App<S, C>)
    requires
        a0.visible().len() > 0,
    ensures
        a0.stepped_next().deck_selected < a0.visible().len(),
        a0.stepped_next().visible() == a0.visible(),
{
    lemma_visible_same(a0, a0.stepped_next(), a0.decks@.len() as int);
}

/// The decks listed depend only on the decks, the search, the view and the
/// fold state.
pub proof fn lemma_visible_same<S, C>(a: App<S, C>, b: App<S, C>, k: int)
    requires
        a.decks@ == b.decks@,
        a.search@ == b.search@,
        a.flat_view == b.flat_view,
        views(a.collapsed@) == views(b.collapsed@),
    ensures
        a.visible_upto(k) == b.visible_upto(k),
    decreases k,
{
    if k > 0 {
        lemma_visible_same(a, b, k - 1);
    }
}

pub proof fn lemma_visible_len<S, C>(a: App<S, C>, k: int)
    requires
        0 <= k,
    ensures
        a.visible_upto(k).len() <= k,
    decreases k,
{
    if k > 0 {
        lemma_visible_len(a, k - 1);
    }
}

pub proof fn lemma_position_found(decks: Seq<DeckInfo>, vis: Seq<int>, name: Seq<char>)
    requires
        position_of(decks, vis, name) >= 0,
    ensures
        position_of(decks, vis, name) < vis.len(),
        decks[vis[position_of(decks, vis, name)]].name@ == name,
    decreases vis.len(),
{
    if vis.len() > 0 && position_of(decks, vis.drop_last(), name) >= 0 {
        lemma_position_found(decks, vis.drop_last(), name);
    }
}

/// Switching between the tree and the flat list keeps the highlighted deck
/// highlighted whenever it is listed in the other view.
pub proof fn law_toggle_view_keeps_selected_deck<S, C>(a0: App<S, C>, n: Seq<char>)
    requires
        a0.decks@.len() <= usize::MAX,
        a0.selected_name() == Some(n),
        position_of(a0.decks@, a0.flipped().visible(), n) >= 0,
    ensures
        a0.toggled().selected_name() == Some(n),
        a0.toggled().flat_view != a0.flat_view,
{
    let t = a0.toggled();
    let f = a0.flipped();
    lemma_visible_same(t, f, a0.decks@.len() as int);
    lemma_position_found(a0.decks@, f.visible(), n);
    let p = position_of(a0.decks@, f.visible(), n);
    lemma_visible_len(f, a0.decks@.len() as int);
    assert(t.visible() == f.visible());
    assert(a0.toggled_selection() == p as usize);
    assert(t.deck_selected == p as usize);
    assert(t.deck_selected < t.visible().len());
    assert(t.decks@[t.visible()[t.deck_selected as int]].name@ == n);
}

proof fn lemma_without_absent(v: Seq<Seq<char>>, x: Seq<char>)
    requires
        !v.contains(x),
    ensures
        without(v, x) == v,
    decreases v.len(),
{
    if v.len() > 0 {
        assert(!v.drop_last().contains(x)) by {
            if v.drop_last().contains(x) {
                let i = choose|i: int| 0 <= i < v.drop_last().len() && v.drop_last()[i] == x;
                assert(v[i] == x);
            }
        }
        lemma_without_absent(v.drop_last(), x);
        assert(v.drop_last().push(v.last()) =~= v);
    }
}

/// Folding the highlighted parent with `h` and unfolding it with `l` (while it
/// is still the highlighted deck) restores the fold state.
pub proof fn law_fold_then_unfold_restores<S, C>(
    a0: App<S, C>,
    a1: App<S, C>,
    r1: Request,
    a2: App<S, C>,
    r2: Request,
)
    requires
        a0.selected_name() is Some,
        a0.selected_deck().has_children,
        !views(a0.collapsed@).contains(a0.selected_name().unwrap()),
        a0.folded(&a1, r1),
        a1.deck_selected < a1.visible().len(),
        a1.visible()[a1.deck_selected as int] == a0.visible()[a0.deck_selected as int],
        a1.expanded(&a2, r2),
    ensures
        r1 is SaveCollapsed,
        r2 is SaveCollapsed,
        views(a2.collapsed@) == views(a0.collapsed@),
        a2 == (App { collapsed: a2.collapsed, ..a0 }),
{
    let n = a0.selected_name().unwrap();
    let v = views(a0.collapsed@);
    assert(views(a1.collapsed@) == v.push(n));
    assert(a1.selected_name() == Some(n));
    assert(v.push(n).contains(n)) by {
        assert(v.push(n)[v.len() as int] == n);
    }
    assert(without(v.push(n), n) == without(v, n)) by {
        assert(v.push(n).drop_last() =~= v);
    }
    lemma_without_absent(v, n);
}


/// The deck list is in case-insensitive name order, and holds each deck it
/// was built from exactly once.
pub proof fn law_deck_list_in_name_order(u: Seq<DeckInfo>)
    ensures
        forall|i: int|
            0 <= i < sort_by_key(u).len() - 1 ==> seq_le(
                lowercase(#[trigger] sort_by_key(u)[i].name@),
                lowercase(sort_by_key(u)[i + 1].name@),
            ),
        sort_by_key(u).to_multiset() == u.to_multiset(),
{
    lemma_sort_by_key(u);
    let r = sort_by_key(u);
    assert forall|i: int| 0 <= i < r.len() - 1 implies seq_le(
        lowercase(#[trigger] r[i].name@),
        lowercase(r[i + 1].name@),
    ) by {
        assert(r[i].key_le(&r[i + 1]));
    }
}

proof fn lemma_no_sep_before(s: Seq<char>, i: int)
    requires
        0 <= i <= s.len(),
        last_sep_before(s, i) < 0,
    ensures
        forall|j: int| 0 <= j < i ==> !#[trigger] matches_at(s, j, sep()),
    decreases i,
{
    if i > 0 {
        lemma_no_sep_before(s, i - 1);
    }
}

proof fn lemma_sep_before_found(s: Seq<char>, i: int)
    requires
        0 <= i <= s.len(),
        last_sep_before(s, i) >= 0,
    ensures
        last_sep_before(s, i) < i,
        matches_at(s, last_sep_before(s, i), sep()),
    decreases i,
{
    if i > 0 && !matches_at(s, i - 1, sep()) {
        lemma_sep_before_found(s, i - 1);
    }
}

proof fn lemma_seps_found(s: Seq<char>, i: int, j: int)
    requires
        0 <= i <= j,
        matches_at(s, j, sep()),
    ensures
        seps_from(s, i).len() > 0,
    decreases s.len() - i,
{
    if i + 2 <= s.len() && !(s[i] == ':' && s[i + 1] == ':') {
        if i == j {
            assert(s.subrange(j, j + 2)[0] == s[j]);
            assert(s.subrange(j, j + 2)[1] == s[j + 1]);
        } else {
            lemma_seps_found(s, i + 1, j);
        }
    }
}

proof fn lemma_seps_none(s: Seq<char>, i: int)
    requires
        0 <= i,
        forall|j: int| i <= j < s.len() ==> !#[trigger] matches_at(s, j, sep()),
    ensures
        seps_from(s, i).len() == 0,
    decreases s.len() - i,
{
    if i + 2 <= s.len() {
        if s[i] == ':' && s[i + 1] == ':' {
            assert(s.subrange(i, i + 2) =~= sep());
            assert(matches_at(s, i, sep()));
        } else {
            lemma_seps_none(s, i + 1);
        }
    }
}

/// A deck name is its parent's name, `::`, and its label; a name without
/// `::` is a top-level deck: no parent, depth 0, and the whole name as label.
pub proof fn law_deck_name_parts(s: Seq<char>)
    ensures
        parent_of(s) matches Some(p) ==> s == p + sep() + label_of(s) && depth_of(s) > 0,
        parent_of(s) is None ==> label_of(s) == s && depth_of(s) == 0,
{
    if last_sep(s) >= 0 {
        lemma_sep_before_found(s, s.len() as int);
        let j = last_sep(s);
        assert(s.subrange(j, j + 2) == sep());
        assert(s.take(j) + sep() + s.skip(j + 2) =~= s);
        lemma_seps_found(s, 0, j);
    } else {
        lemma_no_sep_before(s, s.len() as int);
        lemma_seps_none(s, 0);
    }
}

/// Text with no `[sound:` and no `<img` (in any case) is left as it is by
/// media stripping, and names no audio.
pub proof fn law_plain_text_unchanged(s: Seq<char>)
    requires
        find_from(s, sound_open(), 0) == -1,
        find_from(lower_seq(s), img_open(), 0) == -1,
    ensures
        strip_media(s) == s,
        audio_names(s).len() == 0,
{
    assert(strip_sound_from(s, 0) =~= s);
    lemma_find_from(lower_seq(s), img_open(), 0);
    lemma_strip_img_plain(s, 0);
    assert(s.skip(0) =~= s);
}

proof fn lemma_strip_img_plain(s: Seq<char>, i: int)
    requires
        0 <= i,
        forall|k: int| 0 <= k ==> !#[trigger] matches_at(lower_seq(s), k, img_open()),
    ensures
        strip_img_from(s, i) == (if i < s.len() { s.skip(i) } else { seq![] }),
    decreases s.len() - i,
{
    if i < s.len() {
        lemma_strip_img_plain(s, i + 1);
        assert(!matches_at(lower_seq(s), i, img_open()));
        if i + 1 < s.len() {
            assert(seq![s[i]] + s.skip(i + 1) =~= s.skip(i));
        } else {
            assert(seq![s[i]] + Seq::<char>::empty() =~= s.skip(i));
        }
    }
}

/// Text with no `<hr` (in any case) is a single piece.
pub proof fn law_no_rule_single_piece(s: Seq<char>)
    requires
        find_from(lower_seq(s), hr_open(), 0) == -1,
    ensures
        hr_pieces(s) == seq![s],
{
    lemma_find_from(lower_seq(s), hr_open(), 0);
    lemma_hr_plain(s, 0);
    assert(s.subrange(0, s.len() as int) =~= s);
}

proof fn lemma_hr_plain(s: Seq<char>, i: int)
    requires
        0 <= i,
        forall|k: int| 0 <= k ==> !#[trigger] matches_at(lower_seq(s), k, hr_open()),
    ensures
        hr_pieces_from(s, 0, i) == seq![s.subrange(0, s.len() as int)],
    decreases s.len() - i,
{
    if i < s.len() {
        assert(!matches_at(lower_seq(s), i, hr_open()));
        lemma_hr_plain(s, i + 1);
    }
}


/// The image numbers of the image blocks, in order.
pub open spec fn image_ids(b: Seq<BlockView>) -> Seq<int>
    decreases b.len(),
{
    if b.len() == 0 {
        seq![]
    } else {
        (match b[0] {
            BlockView::Image(i) => seq![i as int],
            BlockView::Text(_) => seq![],
        }) + image_ids(b.drop_first())
    }
}

/// How many of the image tags from the `k`-th on were loaded.
pub open spec fn loaded_count(segs: Seq<(bool, Seq<char>)>, loaded: Seq<bool>, k: int) -> nat
    decreases segs.len(),
{
    if segs.len() == 0 {
        0
    } else if segs[0].0 {
        (if is_loaded(loaded, k) {
            1nat
        } else {
            0nat
        }) + loaded_count(segs.drop_first(), loaded, k + 1)
    } else {
        loaded_count(segs.drop_first(), loaded, k)
    }
}

proof fn lemma_image_ids_append(a: Seq<BlockView>, b: Seq<BlockView>)
    ensures
        image_ids(a + b) == image_ids(a) + image_ids(b),
    decreases a.len(),
{
    if a.len() == 0 {
        assert(a + b =~= b);
    } else {
        lemma_image_ids_append(a.drop_first(), b);
        assert((a + b).drop_first() =~= a.drop_first() + b);
    }
}

proof fn lemma_loaded_count_bound(segs: Seq<(bool, Seq<char>)>, loaded: Seq<bool>, k: int)
    requires
        0 <= k,
    ensures
        loaded_count(segs, loaded, k) <= (if loaded.len() > k {
            loaded.len() - k
        } else {
            0
        }),
    decreases segs.len(),
{
    if segs.len() > 0 {
        if segs[0].0 {
            lemma_loaded_count_bound(segs.drop_first(), loaded, k + 1);
        } else {
            lemma_loaded_count_bound(segs.drop_first(), loaded, k);
        }
    }
}

proof fn lemma_image_ids(segs: Seq<(bool, Seq<char>)>, loaded: Seq<bool>, k: int, m: int)
    requires
        0 <= k,
        0 <= m,
        m + loaded_count(segs, loaded, k) <= usize::MAX + 1,
    ensures
        image_ids(blocks_of(segs, loaded, k, m)) == Seq::new(
            loaded_count(segs, loaded, k),
            |i: int| m + i,
        ),
    decreases segs.len(),
{
    if segs.len() == 0 {
        assert(image_ids(seq![]) =~= Seq::new(0, |i: int| m + i));
    } else if segs[0].0 {
        let rest = segs.drop_first();
        if is_loaded(loaded, k) {
            lemma_image_ids(rest, loaded, k + 1, m + 1);
            let b = seq![BlockView::Image(m as usize)] + blocks_of(rest, loaded, k + 1, m + 1);
            lemma_image_ids_append(seq![BlockView::Image(m as usize)], blocks_of(rest, loaded, k + 1, m + 1));
            let one = seq![BlockView::Image(m as usize)];
            assert(one.drop_first() =~= Seq::<BlockView>::empty());
            assert(image_ids(Seq::<BlockView>::empty()) =~= Seq::<int>::empty());
            assert((m as usize) as int == m);
            assert(image_ids(one) =~= seq![m]);
            assert(seq![m] + Seq::new(loaded_count(rest, loaded, k + 1), |i: int| m + 1 + i)
                =~= Seq::new(loaded_count(segs, loaded, k), |i: int| m + i));
        } else {
            lemma_image_ids(rest, loaded, k + 1, m);
        }
    } else {
        let rest = segs.drop_first();
        lemma_image_ids(rest, loaded, k, m);
        lemma_image_ids_append(text_block(segs[0].1), blocks_of(rest, loaded, k, m));
        assert(image_ids(text_block(segs[0].1)) =~= Seq::<int>::empty()) by {
            let tb = text_block(segs[0].1);
            assert(image_ids(Seq::<BlockView>::empty()) =~= Seq::<int>::empty());
            if tb.len() > 0 {
                assert(tb.drop_first() =~= Seq::<BlockView>::empty());
                assert(tb[0] is Text);
            }
        }
        assert(Seq::<int>::empty() + Seq::new(loaded_count(rest, loaded, k), |i: int| m + i)
            =~= Seq::new(loaded_count(segs, loaded, k), |i: int| m + i));
    }
}

/// The image blocks of a card side number the loaded images 0, 1, 2, … in
/// document order: one block per image that loaded.
pub proof fn law_image_blocks_numbered(html: Seq<char>, loaded: Seq<bool>)
    requires
        loaded.len() <= usize::MAX,
    ensures
        image_ids(blocks_of(segments(html), loaded, 0, 0)) == Seq::new(
            loaded_count(segments(html), loaded, 0),
            |i: int| i,
        ),
{
    lemma_loaded_count_bound(segments(html), loaded, 0);
    lemma_image_ids(segments(html), loaded, 0, 0);
    assert(Seq::new(loaded_count(segments(html), loaded, 0), |i: int| 0 + i) =~= Seq::new(
        loaded_count(segments(html), loaded, 0),
        |i: int| i,
    ));
}


proof fn lemma_without_distinct(v: Seq<Seq<char>>, x: Seq<char>)
    requires
        v.no_duplicates(),
    ensures
        without(v, x).no_duplicates(),
        forall|y: Seq<char>| #[trigger] without(v, x).contains(y) ==> v.contains(y),
    decreases v.len(),
{
    if v.len() > 0 {
        let p = v.drop_last();
        assert(p.no_duplicates()) by {
            assert forall|i: int, j: int| 0 <= i < p.len() && 0 <= j < p.len() && i != j implies p[i]
                != p[j] by {
                assert(p[i] == v[i] && p[j] == v[j]);
            }
        }
        lemma_without_distinct(p, x);
        assert forall|y: Seq<char>| #[trigger] p.contains(y) implies v.contains(y) by {
            let k = choose|k: int| 0 <= k < p.len() && #[trigger] p[k] == y;
            assert(v[k] == y);
        }
        if v.last() != x {
            let w = without(p, x);
            assert(!w.contains(v.last())) by {
                if w.contains(v.last()) {
                    assert(p.contains(v.last()));
                    let k = choose|k: int| 0 <= k < p.len() && #[trigger] p[k] == v.last();
                    assert(v[k] == v[v.len() - 1]);
                }
            }
            let e = w.push(v.last());
            assert forall|y: Seq<char>| #[trigger] e.contains(y) implies v.contains(y) by {
                let k = choose|k: int| 0 <= k < e.len() && #[trigger] e[k] == y;
                if k < w.len() {
                    assert(w[k] == y);
                    assert(w.contains(y));
                } else {
                    assert(v[v.len() - 1] == y);
                }
            }
            assert forall|i: int, j: int| 0 <= i < e.len() && 0 <= j < e.len() && i != j implies e[i]
                != e[j] by {
                if i < w.len() && j < w.len() {
                    assert(e[i] == w[i] && e[j] == w[j]);
                } else if i < w.len() {
                    assert(e[i] == w[i]);
                    assert(w.contains(w[i]));
                } else {
                    assert(e[j] == w[j]);
                    assert(w.contains(w[j]));
                }
            }
        }
    }
}

/// Folding and unfolding keep the fold state free of repeated names.
pub proof fn law_fold_state_stays_distinct<S, C>(
    a0: App<S, C>,
    a1: App<S, C>,
    r1: Request,
    a2: App<S, C>,
    r2: Request,
)
    requires
        a0.fold_state_ok(),
        a0.folded(&a1, r1),
        a0.expanded(&a2, r2),
    ensures
        a1.fold_state_ok(),
        a2.fold_state_ok(),
{
    let v = views(a0.collapsed@);
    if let Some(n) = a0.selected_name() {
        if a0.selected_deck().has_children && !v.contains(n) {
            let e = v.push(n);
            assert forall|i: int, j: int| 0 <= i < e.len() && 0 <= j < e.len() && i != j implies e[i]
                != e[j] by {
                if i < v.len() && j < v.len() {
                    assert(e[i] == v[i] && e[j] == v[j]);
                } else if i < v.len() {
                    assert(e[i] == v[i]);
                } else {
                    assert(e[j] == v[j]);
                }
            }
        }
        if a0.selected_deck().has_children && v.contains(n) {
            lemma_without_distinct(v, n);
        }
    }
}

/// Names of the decks, in list order.
pub open spec fn deck_names(decks: Seq<DeckInfo>) -> Seq<Seq<char>> {
    decks.map_values(|d: DeckInfo| d.name@)
}

/// Indices of the top-level decks (no `::` in the name) among the first `k`.
pub open spec fn top_level_upto(decks: Seq<DeckInfo>, k: int) -> Seq<int>
    decreases k,
{
    if k <= 0 {
        seq![]
    } else if depth_of(decks[k - 1].name@) == 0 {
        top_level_upto(decks, k - 1).push(k - 1)
    } else {
        top_level_upto(decks, k - 1)
    }
}

proof fn lemma_parent_listed(decks: Seq<DeckInfo>, i: int)
    requires
        0 <= i < decks.len(),
        decks[i].has_children,
    ensures
        parent_names(decks).contains(decks[i].name@),
    decreases decks.len(),
{
    let p = decks.drop_last();
    if i == decks.len() - 1 {
        let r = parent_names(p).push(decks.last().name@);
        assert(r[r.len() - 1] == decks[i].name@);
    } else {
        assert(p[i] == decks[i]);
        lemma_parent_listed(p, i);
        let k = choose|k: int| 0 <= k < parent_names(p).len() && #[trigger] parent_names(p)[k]
            == decks[i].name@;
        if decks.last().has_children {
            assert(parent_names(decks)[k] == decks[i].name@);
        }
    }
}

proof fn lemma_ancestor_listed(names: Seq<Seq<char>>, j: int, k: int)
    requires
        0 <= j < names.len(),
        0 <= k < ancestors(names[j]).len(),
    ensures
        all_ancestors(names).contains(ancestors(names[j])[k]),
    decreases names.len(),
{
    let p = names.drop_last();
    if j == names.len() - 1 {
        assert(all_ancestors(names)[all_ancestors(p).len() + k] == ancestors(names[j])[k]);
    } else {
        assert(p[j] == names[j]);
        lemma_ancestor_listed(p, j, k);
        let q = choose|q: int| 0 <= q < all_ancestors(p).len() && #[trigger] all_ancestors(p)[q]
            == ancestors(names[j])[k];
        assert(all_ancestors(names)[q] == ancestors(names[j])[k]);
    }
}

proof fn lemma_top_level_shown<S, C>(a: App<S, C>, i: int)
    requires
        0 <= i < a.decks@.len(),
        forall|j: int|
            0 <= j < a.decks@.len() ==> #[trigger] a.decks@[j].has_children == is_parent(
                a.decks@[j].name@,
                deck_names(a.decks@),
            ),
        forall|j: int, k: int|
            0 <= j < a.decks@.len() && 0 <= k < ancestors(a.decks@[j].name@).len()
                ==> deck_names(a.decks@).contains(#[trigger] ancestors(a.decks@[j].name@)[k]),
        views(a.collapsed@) == distinct_names(parent_names(a.decks@)),
        a.search@.len() == 0,
        !a.flat_view,
    ensures
        a.shown(a.decks@[i]) <==> depth_of(a.decks@[i].name@) == 0,
{
    let name = a.decks@[i].name@;
    let names = deck_names(a.decks@);
    if depth_of(name) > 0 {
        assert(ancestors(name).len() > 0);
        let p = ancestors(name)[0];
        assert(names.contains(p));
        let j = choose|j: int| 0 <= j < names.len() && #[trigger] names[j] == p;
        assert(names[i] == name);
        lemma_ancestor_listed(names, i, 0);
        assert(is_parent(p, names));
        assert(a.decks@[j].name@ == p);
        assert(a.decks@[j].has_children);
        lemma_parent_listed(a.decks@, j);
        lemma_distinct_names(parent_names(a.decks@));
        assert(views(a.collapsed@).contains(p));
        assert(ancestor_in(name, views(a.collapsed@)));
    } else {
        assert(ancestors(name).len() == 0);
    }
}

proof fn lemma_top_level_upto<S, C>(a: App<S, C>, k: int)
    requires
        0 <= k <= a.decks@.len(),
        forall|i: int|
            0 <= i < a.decks@.len() ==> (a.shown(#[trigger] a.decks@[i]) <==> depth_of(
                a.decks@[i].name@,
            ) == 0),
    ensures
        a.visible_upto(k) == top_level_upto(a.decks@, k),
    decreases k,
{
    if k > 0 {
        lemma_top_level_upto(a, k - 1);
        assert(a.shown(a.decks@[k - 1]) <==> depth_of(a.decks@[k - 1].name@) == 0);
    }
}

/// On first launch only top-level decks show: when every parent of a listed
/// deck is itself a deck, each deck knows whether any deck is nested under it,
/// and the fold state is every parent (as the starting state has it when none
/// was saved), the tree lists exactly the decks without `::`, in order.
pub proof fn law_first_launch_shows_top_level<S, C>(a: App<S, C>)
    requires
        forall|j: int|
            0 <= j < a.decks@.len() ==> #[trigger] a.decks@[j].has_children == is_parent(
                a.decks@[j].name@,
                deck_names(a.decks@),
            ),
        forall|j: int, k: int|
            0 <= j < a.decks@.len() && 0 <= k < ancestors(a.decks@[j].name@).len()
                ==> deck_names(a.decks@).contains(#[trigger] ancestors(a.decks@[j].name@)[k]),
        views(a.collapsed@) == distinct_names(parent_names(a.decks@)),
        a.search@.len() == 0,
        !a.flat_view,
    ensures
        a.visible() == top_level_upto(a.decks@, a.decks@.len() as int),
{
    assert forall|i: int| 0 <= i < a.decks@.len() implies (a.shown(#[trigger] a.decks@[i])
        <==> depth_of(a.decks@[i].name@) == 0) by {
        lemma_top_level_shown(a, i);
    }
    lemma_top_level_upto(a, a.decks@.len() as int);
}


proof fn lemma_visible_upto_has<S, C>(a: App<S, C>, k: int, j: int)
    requires
        0 <= k <= a.decks@.len(),
        0 <= j,
    ensures
        a.visible_upto(k).contains(j) <==> (j < k && a.shown(a.decks@[j])),
    decreases k,
{
    if k > 0 {
        lemma_visible_upto_has(a, k - 1, j);
        let p = a.visible_upto(k - 1);
        if a.shown(a.decks@[k - 1]) {
            let q = p.push(k - 1);
            if q.contains(j) {
                let i = choose|i: int| 0 <= i < q.len() && #[trigger] q[i] == j;
                if i < p.len() {
                    assert(p[i] == j);
                }
            }
            if p.contains(j) {
                let i = choose|i: int| 0 <= i < p.len() && #[trigger] p[i] == j;
                assert(q[i] == j);
            }
            if j == k - 1 {
                assert(q[p.len() as int] == j);
            }
        }
    }
}

/// While a search is typed, a deck is listed exactly when the lower-cased
/// search text occurs somewhere in its lower-cased name (at any position, not
/// only at its start).
pub proof fn law_search_lists_matching_decks<S, C>(a: App<S, C>, j: int)
    requires
        a.search@.len() > 0,
        0 <= j < a.decks@.len(),
    ensures
        a.visible().contains(j) <==> exists|i: int|
            0 <= i && i + lowercase(a.search@).len() <= lowercase(a.decks@[j].name@).len()
                && #[trigger] lowercase(a.decks@[j].name@).subrange(
                i,
                i + lowercase(a.search@).len(),
            ) == lowercase(a.search@),
{
    let n = lowercase(a.decks@[j].name@);
    let q = lowercase(a.search@);
    lemma_visible_upto_has(a, a.decks@.len() as int, j);
    lemma_find_from(n, q, 0);
    let f = find_from(n, q, 0);
    if f >= 0 {
        assert(n.subrange(f, f + q.len()) == q);
    } else {
        assert forall|i: int| 0 <= i && i + q.len() <= n.len() implies #[trigger] n.subrange(
            i,
            i + q.len(),
        ) != q by {
            assert(!matches_at(n, i, q));
        }
    }
}

/// Once Anki reports that the review of a deck has started (or failed to, with
/// the error shown), the current card is asked for, with its answer hidden.
pub proof fn law_started_review_loads_card<S, C>(
    a: App<S, C>,
    res: Result<(), String>,
    b: App<S, C>,
    r: Request,
)
    requires
        a.awaiting == Awaiting::DeckReview,
        a.resumed(Reply::Done(res), &b, r),
    ensures
        r is LoadCard,
        b.awaiting == Awaiting::Card,
        !b.answer_shown,
        b.screen == a.screen,
        b.deck_name == a.deck_name,
        res matches Err(e) ==> b.status == Some(e),
        res is Ok ==> b.status == a.status,
{
}

/// The popup shows the review count and then the lapse count, each as its own
/// number in decimal.
pub proof fn law_reviews_then_lapses_rows(card_id: i64, info: CardInfo, revs: Seq<ReviewEntry>)
    ensures
        exists|k: int|
            0 <= k && k + 1 < stat_rows(card_id, info, revs).len() && #[trigger] stat_rows(
                card_id,
                info,
                revs,
            )[k] == ("Reviews"@, CellView::Text(decimal(info.reps as int))) && stat_rows(
                card_id,
                info,
                revs,
            )[k + 1] == ("Lapses"@, CellView::Text(decimal(info.lapses as int))),
{
    let rows = stat_rows(card_id, info, revs);
    let n = revs.len();
    let k: int = 1 + (if n > 0 { 2int } else { 0int }) + (if crate::stats::shows_due(info, revs) {
        1int
    } else {
        0int
    }) + 1 + (if info.factor > 0 { 1int } else { 0int });
    assert(rows[k] == ("Reviews"@, CellView::Text(decimal(info.reps as int))));
    assert(rows[k + 1] == ("Lapses"@, CellView::Text(decimal(info.lapses as int))));
}

proof fn lemma_push_contains(tags: Seq<Annot>, x: Annot, y: Annot)
    ensures
        tags.push(x).contains(y) <==> (tags.contains(y) || y == x),
{
    let e = tags.push(x);
    if e.contains(y) {
        let i = choose|i: int| 0 <= i < e.len() && #[trigger] e[i] == y;
        if i < tags.len() {
            assert(tags[i] == y);
        }
    }
    if tags.contains(y) {
        let i = choose|i: int| 0 <= i < tags.len() && #[trigger] tags[i] == y;
        assert(e[i] == y);
    }
    if y == x {
        assert(e[tags.len() as int] == y);
    }
}

/// Markup adds its own modifier and leaves the others as they were: emphasis
/// makes a run italic, strikeout crosses it out, strong makes it bold, code
/// dims it and a link underlines it; other markup changes nothing, and a run
/// with no markup is plain.
pub proof fn law_markup_adds_its_modifier(tags: Seq<Annot>, x: Annot)
    ensures
        ({
            let before = style_of(tags);
            let after = style_of(tags.push(x));
            &&& after.italic == (before.italic || x == Annot::Emphasis)
            &&& after.crossed_out == (before.crossed_out || x == Annot::Strikeout)
            &&& after.bold == (before.bold || x == Annot::Strong)
            &&& after.dim == (before.dim || x == Annot::Code)
            &&& after.underlined == (before.underlined || x == Annot::Link)
            &&& !after.muted
        }),
        ({
            let plain = style_of(Seq::<Annot>::empty());
            !plain.italic && !plain.crossed_out && !plain.bold && !plain.dim && !plain.underlined
                && !plain.muted
        }),
{
    lemma_push_contains(tags, x, Annot::Emphasis);
    lemma_push_contains(tags, x, Annot::Strikeout);
    lemma_push_contains(tags, x, Annot::Strong);
    lemma_push_contains(tags, x, Annot::Code);
    lemma_push_contains(tags, x, Annot::Link);
}

/// On the review screen with the card info closed, the digit key `n` grades
/// with ease `n` (1 Again, 2 Hard, 3 Good, 4 Easy).
pub proof fn law_digit_keys_grade_their_ease()
    ensures
        forall|n: int|
            1 <= n <= 4 ==> command_of(Screen::Review, false, false, Key::Char(#[trigger] digit(n)))
                == Command::Grade(n as i64),
{
    assert(digit(1) == '1');
    assert(digit(2) == '2');
    assert(digit(3) == '3');
    assert(digit(4) == '4');
}

} // verus!
