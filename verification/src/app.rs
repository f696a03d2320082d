//! Application state machine: the deck list and the review screen.
//!
//! Every exchange with Anki is a [`Request`] the front end carries out; it
//! hands the outcome back as a [`Reply`] to [`App::resume`], which decides
//! what happens next.

use vstd::prelude::*;

use crate::deck::{
    ancestor_collapsed, ancestor_in, contains_string, deck_parent, default_collapsed, distinct,
    distinct_names, lemma_distinct_names, lowercase, parent_names, parent_of, to_lowercase, views,
    DeckInfo,
};
use crate::stats::CardStats;
use crate::text::{contains_seq, contains_str};
use crate::view::{grade_label, grade_label_of};

verus! {

/// Which screen the user is currently looking at.
#[derive(PartialEq, Eq, Structural, Clone, Copy, Debug)]
pub enum Screen {
    DeckList,
    Review,
}

/// The card currently under review, with media for both sides.
pub struct ReviewCard<S, C> {
    pub card_id: i64,
    pub question: S,
    pub answer: S,
    pub buttons: Vec<i64>,
    pub next_reviews: Vec<String>,
    /// Audio clips of the card, ready for the player.
    pub audio: Vec<C>,
}

/// The answer the front end owes for the request last made.
#[derive(PartialEq, Eq, Structural, Clone, Copy, Debug)]
pub enum Awaiting {
    Nothing,
    DeckReview,
    Card,
    ShownAnswer,
    GuiGrade,
    IdGrade,
    Undo,
    Suspend,
    ResumeDeck,
    Sync,
    SyncedDecks,
    Decks,
    Stats,
}

pub struct App<S, C> {
    pub screen: Screen,
    // Deck list state.
    pub decks: Vec<DeckInfo>,
    pub deck_selected: usize,
    /// Full names of decks whose children are folded away. Persisted to disk.
    pub collapsed: Vec<String>,
    /// When true, show a flat list of full deck names instead of the fold tree.
    pub flat_view: bool,
    /// True after a lone `g`, so the next `g` completes a vim `gg` (jump to top).
    pub pending_g: bool,
    /// Case-insensitive substring filter for the deck list.
    pub search: String,
    /// Whether the search input is currently capturing keystrokes.
    pub searching: bool,
    // Review state.
    pub deck_name: String,
    pub card: Option<ReviewCard<S, C>>,
    pub answer_shown: bool,
    pub scroll: u16,
    pub deck_finished: bool,
    /// The previously graded card, kept so `u` can restore and re-grade it.
    pub prev_card: Option<ReviewCard<S, C>>,
    /// True while showing a restored (undone) card that is re-graded locally
    /// via `answerCards` rather than the GUI review screen.
    pub undone: bool,
    /// When `Some`, the card-info popup is open over the review screen.
    pub stats: Option<CardStats>,
    /// Vertical scroll offset within the card-info popup.
    pub stats_scroll: u16,
    /// Transient status / error message shown in the footer.
    pub status: Option<String>,
    pub should_quit: bool,
    /// The reply owed for the last request.
    pub awaiting: Awaiting,
}

/// How many rows `Ctrl-d`/`Ctrl-u` jump in the deck list.
pub const PAGE_JUMP: usize = 10;

impl<S, C> App<S, C> {
    /// A deck is listed: it matches the search (case-insensitively) while
    /// searching; otherwise every deck is listed in the flat view, and in the
    /// tree those with no collapsed ancestor.
    pub open spec fn shown(&self, d: DeckInfo) -> bool {
        if self.search@.len() > 0 {
            contains_seq(lowercase(d.name@), lowercase(self.search@))
        } else if self.flat_view {
            true
        } else {
            !ancestor_in(d.name@, views(self.collapsed@))
        }
    }

    /// Indices of the listed decks among the first `k`, in order.
    pub open spec fn visible_upto(&self, k: int) -> Seq<int>
        decreases k,
    {
        if k <= 0 {
            seq![]
        } else if self.shown(self.decks@[k - 1]) {
            self.visible_upto(k - 1).push(k - 1)
        } else {
            self.visible_upto(k - 1)
        }
    }

    /// Indices (into `decks`) of the decks currently listed.
    pub open spec fn visible(&self) -> Seq<int> {
        self.visible_upto(self.decks@.len() as int)
    }

    /// The name of the highlighted deck, if the selection is on a listed deck.
    pub open spec fn selected_name(&self) -> Option<Seq<char>> {
        if self.deck_selected < self.visible().len() {
            Some(self.decks@[self.visible()[self.deck_selected as int]].name@)
        } else {
            None
        }
    }

    fn is_shown(&self, d: &DeckInfo) -> (r: bool)
        ensures
            r == self.shown(*d),
    {
        if !self.search.as_str().is_empty() {
            let name = to_lowercase(d.name.as_str());
            let query = to_lowercase(self.search.as_str());
            contains_str(name.as_str(), query.as_str())
        } else if self.flat_view {
            true
        } else {
            !ancestor_collapsed(d.name.as_str(), &self.collapsed)
        }
    }

    /// Indices of the decks currently listed.
    pub fn visible_indices(&self) -> (r: Vec<usize>)
        ensures
            r@.len() == self.visible().len(),
            forall|i: int| 0 <= i < r@.len() ==> r@[i] as int == #[trigger] self.visible()[i],
    {
        let mut r: Vec<usize> = Vec::new();
        let mut k: usize = 0;
        while k < self.decks.len()
            invariant
                k <= self.decks@.len(),
                r@.len() == self.visible_upto(k as int).len(),
                forall|i: int| 0 <= i < r@.len() ==> r@[i] as int == #[trigger] self.visible_upto(k as int)[i],
            decreases self.decks@.len() - k,
        {
            if self.is_shown(&self.decks[k]) {
                r.push(k);
            }
            k += 1;
        }
        r
    }

    /// Decks currently shown: filtered by the search query, or (when not
    /// searching) hiding any deck whose ancestor is collapsed.
    pub fn visible_decks(&self) -> (r: Vec<&DeckInfo>)
        ensures
            r@.len() == self.visible().len(),
            forall|i: int| 0 <= i < r@.len() ==> *r@[i] == self.decks@[#[trigger] self.visible()[i]],
    {
        let idx = self.visible_indices();
        proof {
            self.lemma_visible_in_range(self.decks@.len() as int);
        }
        let mut r: Vec<&DeckInfo> = Vec::new();
        let mut i: usize = 0;
        while i < idx.len()
            invariant
                i <= idx@.len(),
                idx@.len() == self.visible().len(),
                forall|q: int| 0 <= q < idx@.len() ==> idx@[q] as int == #[trigger] self.visible()[q],
                forall|q: int| 0 <= q < self.visible().len() ==> 0 <= #[trigger] self.visible()[q] < self.decks@.len(),
                r@.len() == i,
                forall|q: int| 0 <= q < i ==> *r@[q] == self.decks@[#[trigger] self.visible()[q]],
            decreases idx@.len() - i,
        {
            assert(idx@[i as int] as int == self.visible()[i as int]);
            r.push(&self.decks[idx[i]]);
            i += 1;
        }
        r
    }

    proof fn lemma_visible_in_range(&self, k: int)
        requires
            0 <= k <= self.decks@.len(),
        ensures
            forall|q: int| 0 <= q < self.visible_upto(k).len() ==> 0 <= #[trigger] self.visible_upto(k)[q] < k,
        decreases k,
    {
        if k > 0 {
            self.lemma_visible_in_range(k - 1);
            let v = self.visible_upto(k - 1);
            assert forall|q: int| 0 <= q < self.visible_upto(k).len() implies 0
                <= #[trigger] self.visible_upto(k)[q] < k by {
                if q < v.len() {
                    assert(self.visible_upto(k)[q] == v[q]);
                }
            }
        }
    }
}


/// `String::pop` removes and returns the last character, if any.
pub assume_specification[ String::pop ](s: &mut String) -> (r: Option<char>)
    ensures
        old(s)@.len() == 0 ==> r is None && final(s)@ == old(s)@,
        old(s)@.len() > 0 ==> r == Some(old(s)@.last()) && final(s)@ == old(s)@.drop_last(),
;

/// What the front end must do next for the state machine.
#[derive(Debug)]
pub enum Request {
    /// Nothing is pending.
    Nothing,
    /// Persist the fold state (`collapsed`); no reply.
    SaveCollapsed,
    /// Start Anki's GUI review screen on a deck; reply [`Reply::Done`].
    ReviewDeck(String),
    /// Fetch the review screen's current card and build its media; reply [`Reply::Card`].
    LoadCard,
    /// Flip the GUI review screen to the answer; reply [`Reply::Done`].
    ShowAnswer,
    /// Play the current card's answer-side audio; no reply.
    PlayAnswerAudio,
    /// Play the current card's audio clips; no reply.
    PlayCardAudio,
    /// Grade the review screen's card with an ease; reply [`Reply::Done`].
    AnswerCard(i64),
    /// Grade a card by id `(card_id, ease)`; reply [`Reply::Done`].
    AnswerCardById(i64, i64),
    /// Undo the last review action; reply [`Reply::Undone`].
    Undo,
    /// Suspend a card by id; reply [`Reply::Done`].
    Suspend(i64),
    /// Sync the collection with AnkiWeb; reply [`Reply::Done`].
    Sync,
    /// Reload the deck list; reply [`Reply::Decks`].
    LoadDecks,
    /// Gather the card-info popup for a card; reply [`Reply::Stats`].
    CardStats(i64),
}

/// The outcome of a request, handed back to [`App::resume`].
pub enum Reply<S, C> {
    Done(Result<(), String>),
    Card(Result<Option<ReviewCard<S, C>>, String>),
    Undone(Result<bool, String>),
    Decks(Result<Vec<DeckInfo>, String>),
    Stats(Result<CardStats, String>),
}

/// `v` without the entries equal to `x`.
pub open spec fn without(v: Seq<Seq<char>>, x: Seq<char>) -> Seq<Seq<char>>
    decreases v.len(),
{
    if v.len() == 0 {
        seq![]
    } else if v.last() == x {
        without(v.drop_last(), x)
    } else {
        without(v.drop_last(), x).push(v.last())
    }
}

/// Selection kept within a list of `len` entries: the last entry when it is
/// past the end (0 for an empty list).
pub open spec fn clamped(sel: usize, len: int) -> usize {
    if sel >= len {
        if len > 0 {
            (len - 1) as usize
        } else {
            0
        }
    } else {
        sel
    }
}

/// Index of the first listed deck named `name` in `vis`, or -1.
pub open spec fn position_of(decks: Seq<DeckInfo>, vis: Seq<int>, name: Seq<char>) -> int
    decreases vis.len(),
{
    if vis.len() == 0 {
        -1
    } else if position_of(decks, vis.drop_last(), name) >= 0 {
        position_of(decks, vis.drop_last(), name)
    } else if decks[vis.last()].name@ == name {
        vis.len() - 1
    } else {
        -1
    }
}

impl<S, C> App<S, C> {
    /// The fold state names no deck twice.
    pub open spec fn fold_state_ok(&self) -> bool {
        views(self.collapsed@).no_duplicates()
    }

    /// The starting state: the deck list with the saved fold state, or every
    /// parent collapsed (so only top-level decks show) when none was saved;
    /// either way each name is kept once.
    pub fn new(decks: Vec<DeckInfo>, saved_collapsed: Option<Vec<String>>) -> (r: Self)
        ensures
            r.screen == Screen::DeckList,
            r.decks@ == decks@,
            r.deck_selected == 0,
            views(r.collapsed@) == distinct_names(
                match saved_collapsed {
                    Some(v) => views(v@),
                    None => parent_names(decks@),
                },
            ),
            r.fold_state_ok(),
            !r.flat_view && !r.pending_g && !r.searching,
            r.search@.len() == 0 && r.deck_name@.len() == 0,
            r.card is None && r.prev_card is None && r.stats is None && r.status is None,
            !r.answer_shown && !r.deck_finished && !r.undone && !r.should_quit,
            r.scroll == 0 && r.stats_scroll == 0,
            r.awaiting == Awaiting::Nothing,
    {
        let names = match saved_collapsed {
            Some(v) => v,
            None => default_collapsed(decks.as_slice()),
        };
        proof {
            lemma_distinct_names(views(names@));
        }
        let collapsed = distinct(names);
        App {
            screen: Screen::DeckList,
            decks,
            deck_selected: 0,
            collapsed,
            flat_view: false,
            pending_g: false,
            search: String::new(),
            searching: false,
            deck_name: String::new(),
            card: None,
            answer_shown: false,
            scroll: 0,
            deck_finished: false,
            prev_card: None,
            undone: false,
            stats: None,
            stats_scroll: 0,
            status: None,
            should_quit: false,
            awaiting: Awaiting::Nothing,
        }
    }

    /// The selection moved one deck down, stopping at the last listed deck.
    pub open spec fn stepped_next(&self) -> Self {
        App {
            deck_selected: if self.visible().len() > 0 {
                if self.deck_selected + 1 <= self.visible().len() - 1 {
                    (self.deck_selected + 1) as usize
                } else {
                    (self.visible().len() - 1) as usize
                }
            } else {
                self.deck_selected
            },
            ..*self
        }
    }

    /// The selection moved one deck up, stopping at the first.
    pub open spec fn stepped_prev(&self) -> Self {
        App {
            deck_selected: if self.deck_selected > 0 {
                (self.deck_selected - 1) as usize
            } else {
                0
            },
            ..*self
        }
    }

    fn visible_len(&self) -> (r: usize)
        ensures
            r == self.visible().len(),
    {
        self.visible_indices().len()
    }

    pub fn select_next_deck(&mut self)
        requires
            old(self).visible().len() > 0 ==> old(self).deck_selected < usize::MAX,
        ensures
            *final(self) == old(self).stepped_next(),
    {
        let len = self.visible_len();
        if len > 0 {
            let next = self.deck_selected + 1;
            self.deck_selected = if next <= len - 1 { next } else { len - 1 };
        }
    }

    pub fn select_prev_deck(&mut self)
        ensures
            *final(self) == old(self).stepped_prev(),
    {
        self.deck_selected = if self.deck_selected > 0 { self.deck_selected - 1 } else { 0 };
    }

    /// Vim `gg`: jump to the first deck.
    pub fn select_first(&mut self)
        ensures
            *final(self) == (App { deck_selected: 0, ..*old(self) }),
    {
        self.deck_selected = 0;
    }

    /// Vim `G`: jump to the last visible deck.
    pub fn select_last(&mut self)
        ensures
            *final(self) == (App { deck_selected: clamped(usize::MAX, old(self).visible().len() as int), ..*old(self) }),
    {
        let len = self.visible_len();
        self.deck_selected = if len > 0 { len - 1 } else { 0 };
    }

    /// Handle a `g` press: complete `gg` (jump to top) or arm the next `g`.
    pub fn press_g(&mut self)
        ensures
            *final(self) == old(self).g_pressed(),
    {
        if self.pending_g {
            self.select_first();
            self.pending_g = false;
        } else {
            self.pending_g = true;
        }
    }

    /// A lone `g` arms the next one; the second `g` of `gg` jumps to the top.
    pub open spec fn g_pressed(&self) -> Self {
        if self.pending_g {
            App { deck_selected: 0, pending_g: false, ..*self }
        } else {
            App { pending_g: true, ..*self }
        }
    }

    /// Vim `Ctrl-d`: jump the selection down by half a page.
    pub fn select_page_down(&mut self)
        requires
            old(self).visible().len() > 0 ==> old(self).deck_selected + PAGE_JUMP <= usize::MAX,
        ensures
            *final(self) == (App {
                deck_selected: if old(self).visible().len() > 0 {
                    if old(self).deck_selected + PAGE_JUMP <= old(self).visible().len() - 1 {
                        (old(self).deck_selected + PAGE_JUMP) as usize
                    } else {
                        (old(self).visible().len() - 1) as usize
                    }
                } else {
                    old(self).deck_selected
                },
                ..*old(self)
            }),
    {
        let len = self.visible_len();
        if len > 0 {
            let next = self.deck_selected + PAGE_JUMP;
            self.deck_selected = if next <= len - 1 { next } else { len - 1 };
        }
    }

    /// Vim `Ctrl-u`: jump the selection up by half a page.
    pub fn select_page_up(&mut self)
        ensures
            *final(self) == (App {
                deck_selected: if old(self).deck_selected >= PAGE_JUMP {
                    (old(self).deck_selected - PAGE_JUMP) as usize
                } else {
                    0
                },
                ..*old(self)
            }),
    {
        self.deck_selected = if self.deck_selected >= PAGE_JUMP { self.deck_selected - PAGE_JUMP } else { 0 };
    }

    /// Begin capturing keystrokes into the search filter.
    pub fn start_search(&mut self)
        ensures
            *final(self) == (App { searching: true, ..*old(self) }),
    {
        self.searching = true;
    }

    /// Append a character to the search filter and reset the selection.
    pub fn push_search(&mut self, c: char)
        ensures
            final(self).search@ == old(self).search@.push(c),
            *final(self) == (App { search: final(self).search, deck_selected: 0, ..*old(self) }),
    {
        self.search.push(c);
        self.deck_selected = 0;
    }

    /// Delete the last search character and reset the selection.
    pub fn backspace_search(&mut self)
        ensures
            final(self).search@ == (if old(self).search@.len() > 0 {
                old(self).search@.drop_last()
            } else {
                old(self).search@
            }),
            *final(self) == (App { search: final(self).search, deck_selected: 0, ..*old(self) }),
    {
        self.search.pop();
        self.deck_selected = 0;
    }

    /// Keep the current filter but stop capturing keystrokes.
    pub fn confirm_search(&mut self)
        ensures
            *final(self) == (App { searching: false, ..*old(self) }),
    {
        self.searching = false;
    }

    /// Clear the filter and stop capturing keystrokes.
    pub fn cancel_search(&mut self)
        ensures
            final(self).search@.len() == 0,
            *final(self) == (App { search: final(self).search, searching: false, deck_selected: 0, ..*old(self) }),
    {
        self.searching = false;
        self.search = String::new();
        self.deck_selected = 0;
    }

    /// Clamp the selection to the current visible list length.
    pub fn clamp_selection(&mut self)
        ensures
            *final(self) == (App { deck_selected: clamped(old(self).deck_selected, old(self).visible().len() as int), ..*old(self) }),
    {
        let len = self.visible_len();
        if self.deck_selected >= len {
            self.deck_selected = if len > 0 { len - 1 } else { 0 };
        }
    }
}


impl<S, C> App<S, C> {
    /// The state after toggling between tree and flat view, before the
    /// selection is adjusted.
    pub open spec fn flipped(&self) -> Self {
        App { flat_view: !self.flat_view, ..*self }
    }

    /// The position the selection moves to when the view is toggled: the
    /// highlighted deck's place in the new list if it is listed there, else
    /// the old position clamped to the new list.
    pub open spec fn toggled_selection(&self) -> usize {
        let pos = match self.selected_name() {
            Some(n) => position_of(self.decks@, self.flipped().visible(), n),
            None => -1,
        };
        if pos >= 0 {
            pos as usize
        } else {
            clamped(self.deck_selected, self.flipped().visible().len() as int)
        }
    }

    /// Name of the highlighted deck.
    fn selected_deck_name(&self) -> (r: Option<String>)
        ensures
            match r {
                Some(n) => self.selected_name() == Some(n@),
                None => self.selected_name() is None,
            },
    {
        let idx = self.visible_indices();
        proof {
            self.lemma_visible_in_range(self.decks@.len() as int);
        }
        if self.deck_selected < idx.len() {
            let i = idx[self.deck_selected];
            assert(i as int == self.visible()[self.deck_selected as int]);
            Some(self.decks[i].name.clone())
        } else {
            None
        }
    }

    /// Position of the first listed deck named `name`.
    fn position_in_view(&self, name: &String) -> (r: Option<usize>)
        ensures
            match r {
                Some(p) => p as int == position_of(self.decks@, self.visible(), name@),
                None => position_of(self.decks@, self.visible(), name@) == -1,
            },
    {
        let idx = self.visible_indices();
        proof {
            self.lemma_visible_in_range(self.decks@.len() as int);
        }
        let ghost vis = self.visible();
        let mut k: usize = 0;
        while k < idx.len()
            invariant
                k <= idx@.len(),
                idx@.len() == vis.len(),
                vis == self.visible(),
                forall|q: int| 0 <= q < idx@.len() ==> idx@[q] as int == #[trigger] vis[q],
                forall|q: int| 0 <= q < vis.len() ==> 0 <= #[trigger] vis[q] < self.decks@.len(),
                position_of(self.decks@, vis.take(k as int), name@) == -1,
            decreases idx@.len() - k,
        {
            assert(vis.take(k + 1).drop_last() =~= vis.take(k as int));
            assert(idx@[k as int] as int == vis[k as int]);
            if self.decks[idx[k]].name == *name {
                proof {
                    lemma_position_prefix(self.decks@, vis, name@, k + 1);
                }
                return Some(k);
            }
            k += 1;
        }
        assert(vis.take(k as int) =~= vis);
        None
    }

    /// `,`: toggle between the fold tree and a flat list of full deck names,
    /// keeping the same deck selected across the switch.
    pub fn toggle_view(&mut self)
        ensures
            *final(self) == old(self).toggled(),
    {
        let current = self.selected_deck_name();
        self.flat_view = !self.flat_view;
        let pos = match current {
            Some(name) => self.position_in_view(&name),
            None => None,
        };
        match pos {
            Some(idx) => self.deck_selected = idx,
            None => self.clamp_selection(),
        }
    }

    /// The other view, with the selection moved as [`Self::toggled_selection`] says.
    pub open spec fn toggled(&self) -> Self {
        App { flat_view: !self.flat_view, deck_selected: self.toggled_selection(), ..*self }
    }

    /// Remove `name` from the collapsed set.
    fn uncollapse(&mut self, name: &String)
        ensures
            views(final(self).collapsed@) == without(views(old(self).collapsed@), name@),
            *final(self) == (App { collapsed: final(self).collapsed, ..*old(self) }),
    {
        let mut kept: Vec<String> = Vec::new();
        let mut i: usize = 0;
        let ghost all = views(self.collapsed@);
        while i < self.collapsed.len()
            invariant
                i <= self.collapsed@.len(),
                all == views(self.collapsed@),
                views(kept@) == without(all.take(i as int), name@),
            decreases self.collapsed@.len() - i,
        {
            assert(all.take(i + 1).drop_last() =~= all.take(i as int));
            assert(all[i as int] == self.collapsed@[i as int]@);
            if self.collapsed[i] != *name {
                let ghost before = views(kept@);
                kept.push(self.collapsed[i].clone());
                assert(views(kept@) =~= before.push(all[i as int]));
            }
            i += 1;
        }
        assert(all.take(i as int) =~= all);
        self.collapsed = kept;
    }

    /// The highlighted deck, when the selection is on a listed deck.
    pub open spec fn selected_deck(&self) -> DeckInfo {
        self.decks@[self.visible()[self.deck_selected as int]]
    }

    /// `after` and `r` are what `l` does: unfold the highlighted parent when it
    /// is folded, else open the highlighted deck for review.
    pub open spec fn expanded(&self, after: &Self, r: Request) -> bool {
        match self.selected_name() {
            None => *after == *self && r is Nothing,
            Some(n) => if self.selected_deck().has_children && views(self.collapsed@).contains(n) {
                &&& views(after.collapsed@) == without(views(self.collapsed@), n)
                &&& *after == (App { collapsed: after.collapsed, ..*self })
                &&& r is SaveCollapsed
            } else {
                self.review_entered(after, r, n)
            },
        }
    }

    /// `after` and `r` are what `h` does: fold the highlighted parent when it is
    /// unfolded, else move the selection to the parent deck when that is listed.
    pub open spec fn folded(&self, after: &Self, r: Request) -> bool {
        match self.selected_name() {
            None => *after == *self && r is Nothing,
            Some(n) => if self.selected_deck().has_children && !views(self.collapsed@).contains(n) {
                &&& views(after.collapsed@) == views(self.collapsed@).push(n)
                &&& *after == (App { collapsed: after.collapsed, ..*self })
                &&& r is SaveCollapsed
            } else {
                &&& r is Nothing
                &&& *after == (App {
                    deck_selected: match parent_of(n) {
                        Some(p) => if position_of(self.decks@, self.visible(), p) >= 0 {
                            position_of(self.decks@, self.visible(), p) as usize
                        } else {
                            self.deck_selected
                        },
                        None => self.deck_selected,
                    },
                    ..*self
                })
            },
        }
    }

    /// `l` / Right: expand a collapsed parent, otherwise review the deck.
    pub fn expand_or_review(&mut self) -> (r: Request)
        ensures
            old(self).expanded(final(self), r),
    {
        let idx = self.visible_indices();
        proof {
            self.lemma_visible_in_range(self.decks@.len() as int);
        }
        if self.deck_selected >= idx.len() {
            return Request::Nothing;
        }
        let i = idx[self.deck_selected];
        let name = self.decks[i].name.clone();
        let has_children = self.decks[i].has_children;
        if has_children && contains_string(&self.collapsed, &name) {
            self.uncollapse(&name);
            Request::SaveCollapsed
        } else {
            self.enter_review()
        }
    }

    /// `h` / Left: collapse an expanded parent, otherwise jump to the parent deck.
    pub fn collapse_or_parent(&mut self) -> (r: Request)
        ensures
            old(self).folded(final(self), r),
    {
        let idx = self.visible_indices();
        proof {
            self.lemma_visible_in_range(self.decks@.len() as int);
        }
        if self.deck_selected >= idx.len() {
            return Request::Nothing;
        }
        let i = idx[self.deck_selected];
        let name = self.decks[i].name.clone();
        let has_children = self.decks[i].has_children;
        if has_children && !contains_string(&self.collapsed, &name) {
            let ghost before = views(self.collapsed@);
            self.collapsed.push(name);
            assert(views(self.collapsed@) =~= before.push(self.collapsed@.last()@));
            Request::SaveCollapsed
        } else {
            if let Some(parent) = deck_parent(name.as_str()) {
                if let Some(p) = self.position_in_view(&parent) {
                    self.deck_selected = p;
                }
            }
            Request::Nothing
        }
    }

    /// `r` is the request and `after` the state once the highlighted deck named
    /// `n` is opened for review; its cards come once the review screen has started.
    pub open spec fn review_entered(&self, after: &Self, r: Request, n: Seq<char>) -> bool {
        &&& after.deck_name@ == n
        &&& r matches Request::ReviewDeck(d) && d@ == n
        &&& *after == (App {
            deck_name: after.deck_name,
            screen: Screen::Review,
            deck_finished: false,
            status: None,
            prev_card: None,
            undone: false,
            awaiting: Awaiting::DeckReview,
            ..*self
        })
    }

    /// Start reviewing the highlighted deck.
    pub fn enter_review(&mut self) -> (r: Request)
        ensures
            match old(self).selected_name() {
                None => *final(self) == *old(self) && r is Nothing,
                Some(n) => old(self).review_entered(final(self), r, n),
            },
    {
        let Some(deck) = self.selected_deck_name() else {
            return Request::Nothing;
        };
        self.deck_name = deck.clone();
        self.screen = Screen::Review;
        self.deck_finished = false;
        self.status = None;
        self.prev_card = None;
        self.undone = false;
        self.awaiting = Awaiting::DeckReview;
        Request::ReviewDeck(deck)
    }

    /// Reload the deck list (e.g. when returning from review).
    pub fn refresh_decks(&mut self) -> (r: Request)
        ensures
            r is LoadDecks,
            *final(self) == (App { awaiting: Awaiting::Decks, ..*old(self) }),
    {
        self.awaiting = Awaiting::Decks;
        Request::LoadDecks
    }

    /// The deck-list state after leaving the review screen, awaiting the
    /// reloaded deck list.
    pub open spec fn returned(&self) -> Self {
        App {
            screen: Screen::DeckList,
            card: None,
            prev_card: None,
            undone: false,
            answer_shown: false,
            scroll: 0,
            awaiting: Awaiting::Decks,
            ..*self
        }
    }

    /// Leave the review screen and reload the deck list.
    pub fn back_to_decks(&mut self) -> (r: Request)
        ensures
            r is LoadDecks,
            *final(self) == old(self).returned(),
    {
        self.screen = Screen::DeckList;
        self.card = None;
        self.prev_card = None;
        self.undone = false;
        self.answer_shown = false;
        self.scroll = 0;
        self.refresh_decks()
    }

    /// Sync the collection with AnkiWeb, then refresh deck counts.
    pub fn sync(&mut self) -> (r: Request)
        ensures
            r is Sync,
            *final(self) == (App { awaiting: Awaiting::Sync, ..*old(self) }),
    {
        self.awaiting = Awaiting::Sync;
        Request::Sync
    }
}

proof fn lemma_position_prefix(decks: Seq<DeckInfo>, vis: Seq<int>, name: Seq<char>, k: int)
    requires
        0 < k <= vis.len(),
        position_of(decks, vis.take(k), name) >= 0,
    ensures
        position_of(decks, vis, name) == position_of(decks, vis.take(k), name),
    decreases vis.len() - k,
{
    if k < vis.len() {
        assert(vis.take(k + 1).drop_last() =~= vis.take(k));
        lemma_position_prefix(decks, vis, name, k + 1);
    } else {
        assert(vis.take(k) =~= vis);
    }
}



/// `Some(s)` with `s` spelling `text`.
pub open spec fn says(status: Option<String>, text: Seq<char>) -> bool {
    status matches Some(s) && s@ == text
}

pub open spec fn no_button_message(ease: i64) -> Seq<char> {
    "No '"@ + grade_label_of(ease as int) + "' button for this card"@
}

impl<S, C> App<S, C> {
    /// `after` is `self` once it asks for the review screen's current card (`r`):
    /// the answer is hidden, the scroll reset and the card not an undone one.
    pub open spec fn loads(&self, after: &Self, r: Request) -> bool {
        &&& r is LoadCard
        &&& *after == (App {
            answer_shown: false,
            scroll: 0,
            undone: false,
            awaiting: Awaiting::Card,
            ..*self
        })
    }

    /// Fetch the review screen's current card and build its media.
    pub fn load_current_card(&mut self) -> (r: Request)
        ensures
            old(self).loads(final(self), r),
    {
        self.answer_shown = false;
        self.scroll = 0;
        self.undone = false;
        self.awaiting = Awaiting::Card;
        Request::LoadCard
    }

    /// Reveal the answer side and play its audio: through the GUI review screen,
    /// or locally for a restored (undone) card, which the review screen is not on.
    pub fn show_answer(&mut self) -> (r: Request)
        ensures
            old(self).answer_requested(final(self), r),
    {
        if self.answer_shown || self.card.is_none() {
            return Request::Nothing;
        }
        if self.undone {
            self.answer_shown = true;
            self.scroll = 0;
            return Request::PlayAnswerAudio;
        }
        self.awaiting = Awaiting::ShownAnswer;
        Request::ShowAnswer
    }

    /// `after` and `r` are what revealing the answer does: nothing when it is
    /// shown or there is no card; for a restored card the answer shows at once
    /// and its audio plays; otherwise the GUI review screen is asked first.
    pub open spec fn answer_requested(&self, after: &Self, r: Request) -> bool {
        if self.answer_shown || self.card is None {
            *after == *self && r is Nothing
        } else if self.undone {
            *after == (App { answer_shown: true, scroll: 0, ..*self }) && r is PlayAnswerAudio
        } else {
            *after == (App { awaiting: Awaiting::ShownAnswer, ..*self }) && r is ShowAnswer
        }
    }

    /// Grade the current card with the given ease (1..=4), then advance: the
    /// GUI review screen grades its card, a restored card is graded by id. Nothing
    /// happens before the answer is shown; a grade with no button only says so.
    pub fn grade(&mut self, ease: i64) -> (r: Request)
        ensures
            old(self).graded(ease, final(self), r),
    {
        if !self.answer_shown {
            return Request::Nothing;
        }
        let (card_id, has_button) = match &self.card {
            None => return Request::Nothing,
            Some(card) => (card.card_id, has_ease(&card.buttons, ease)),
        };
        if !has_button {
            let mut msg = String::from_str("No '");
            msg.append(grade_label(ease));
            msg.append("' button for this card");
            self.status = Some(msg);
            return Request::Nothing;
        }
        if self.undone {
            self.awaiting = Awaiting::IdGrade;
            Request::AnswerCardById(card_id, ease)
        } else {
            self.awaiting = Awaiting::GuiGrade;
            Request::AnswerCard(ease)
        }
    }

    /// `after` and `r` are what grading with `ease` does.
    pub open spec fn graded(&self, ease: i64, after: &Self, r: Request) -> bool {
        if !self.answer_shown || self.card is None {
            *after == *self && r is Nothing
        } else if !self.card.unwrap().buttons@.contains(ease) {
            &&& says(after.status, no_button_message(ease))
            &&& *after == (App { status: after.status, ..*self })
            &&& r is Nothing
        } else if self.undone {
            &&& *after == (App { awaiting: Awaiting::IdGrade, ..*self })
            &&& r == Request::AnswerCardById(self.card.unwrap().card_id, ease)
        } else {
            &&& *after == (App { awaiting: Awaiting::GuiGrade, ..*self })
            &&& r == Request::AnswerCard(ease)
        }
    }

    /// Space bar: reveal the answer if hidden, else grade Good (like Anki).
    pub fn space(&mut self) -> (r: Request)
        ensures
            if old(self).answer_shown {
                old(self).graded(3, final(self), r)
            } else {
                old(self).answer_requested(final(self), r)
            },
    {
        if self.answer_shown {
            self.grade(3)
        } else {
            self.show_answer()
        }
    }

    /// `after` and `r` are what asking to undo does: nothing while a restored
    /// card is shown, a note when there is nothing to undo, else a request to
    /// Anki.
    pub open spec fn undo_requested(&self, after: &Self, r: Request) -> bool {
        if self.undone {
            *after == *self && r is Nothing
        } else if self.prev_card is None {
            &&& says(after.status, "Nothing to undo"@)
            &&& *after == (App { status: after.status, ..*self })
            &&& r is Nothing
        } else {
            *after == (App { awaiting: Awaiting::Undo, ..*self }) && r is Undo
        }
    }

    /// Undo the last grade: revert it in Anki and restore the card for re-grading.
    pub fn undo(&mut self) -> (r: Request)
        ensures
            old(self).undo_requested(final(self), r),
    {
        if self.undone {
            return Request::Nothing;
        }
        if self.prev_card.is_none() {
            self.status = Some(String::from_str("Nothing to undo"));
            return Request::Nothing;
        }
        self.awaiting = Awaiting::Undo;
        Request::Undo
    }

    /// Suspend the current card so it stops appearing in reviews, then advance.
    /// The card is stashed in `prev_card` so `u` can un-suspend and restore it.
    pub fn suspend_card(&mut self) -> (r: Request)
        ensures
            match old(self).card {
                None => *final(self) == *old(self) && r is Nothing,
                Some(c) => *final(self) == (App { awaiting: Awaiting::Suspend, ..*old(self) })
                    && r == Request::Suspend(c.card_id),
            },
    {
        let card_id = match &self.card {
            None => return Request::Nothing,
            Some(card) => card.card_id,
        };
        self.awaiting = Awaiting::Suspend;
        Request::Suspend(card_id)
    }

    /// `after` and `r` are what replaying the card's audio does.
    pub open spec fn replay_requested(&self, after: &Self, r: Request) -> bool {
        match self.card {
            None => *after == *self && r is Nothing,
            Some(c) => if c.audio@.len() > 0 {
                *after == *self && r is PlayCardAudio
            } else {
                &&& says(after.status, "No audio on this card"@)
                &&& *after == (App { status: after.status, ..*self })
                &&& r is Nothing
            },
        }
    }

    /// Replay the card's audio clips.
    pub fn replay_audio(&mut self) -> (r: Request)
        ensures
            old(self).replay_requested(final(self), r),
    {
        let has_audio = match &self.card {
            None => return Request::Nothing,
            Some(card) => card.audio.len() > 0,
        };
        if has_audio {
            Request::PlayCardAudio
        } else {
            self.status = Some(String::from_str("No audio on this card"));
            Request::Nothing
        }
    }

    pub fn scroll_down(&mut self)
        ensures
            *final(self) == old(self).scrolled_down(),
    {
        self.scroll = if self.scroll < u16::MAX { self.scroll + 1 } else { u16::MAX };
    }

    pub fn scroll_up(&mut self)
        ensures
            *final(self) == old(self).scrolled_up(),
    {
        self.scroll = if self.scroll > 0 { self.scroll - 1 } else { 0 };
    }

    /// The card scrolled one row down (saturating).
    pub open spec fn scrolled_down(&self) -> Self {
        App {
            scroll: if self.scroll < u16::MAX { (self.scroll + 1) as u16 } else { u16::MAX },
            ..*self
        }
    }

    /// The card scrolled one row up (saturating).
    pub open spec fn scrolled_up(&self) -> Self {
        App { scroll: if self.scroll > 0 { (self.scroll - 1) as u16 } else { 0 }, ..*self }
    }

    /// Open the card-info popup for the current card, or close it if already open
    /// (mirrors Anki's `i` shortcut). A no-op when no card is shown.
    pub fn toggle_stats(&mut self) -> (r: Request)
        ensures
            if old(self).stats is Some {
                *final(self) == (App { stats: None, ..*old(self) }) && r is Nothing
            } else {
                match old(self).card {
                    None => *final(self) == *old(self) && r is Nothing,
                    Some(c) => *final(self) == (App { awaiting: Awaiting::Stats, ..*old(self) })
                        && r == Request::CardStats(c.card_id),
                }
            },
    {
        if self.stats.is_some() {
            self.stats = None;
            return Request::Nothing;
        }
        let card_id = match &self.card {
            None => return Request::Nothing,
            Some(card) => card.card_id,
        };
        self.awaiting = Awaiting::Stats;
        Request::CardStats(card_id)
    }

    pub fn stats_scroll_down(&mut self)
        ensures
            *final(self) == (App {
                stats_scroll: if old(self).stats_scroll < u16::MAX { (old(self).stats_scroll + 1) as u16 } else { u16::MAX },
                ..*old(self)
            }),
    {
        self.stats_scroll = if self.stats_scroll < u16::MAX { self.stats_scroll + 1 } else { u16::MAX };
    }

    pub fn stats_scroll_up(&mut self)
        ensures
            *final(self) == (App {
                stats_scroll: if old(self).stats_scroll > 0 { (old(self).stats_scroll - 1) as u16 } else { 0 },
                ..*old(self)
            }),
    {
        self.stats_scroll = if self.stats_scroll > 0 { self.stats_scroll - 1 } else { 0 };
    }
}

fn has_ease(buttons: &Vec<i64>, ease: i64) -> (r: bool)
    ensures
        r == buttons@.contains(ease),
{
    let mut i: usize = 0;
    while i < buttons.len()
        invariant
            i <= buttons@.len(),
            forall|k: int| 0 <= k < i ==> buttons@[k] != ease,
        decreases buttons@.len() - i,
    {
        if buttons[i] == ease {
            return true;
        }
        i += 1;
    }
    false
}


impl<S, C> App<S, C> {
    /// `after` is `self` once a reloaded deck list is taken in: the new list
    /// with the selection clamped to it, or the error in the footer.
    pub open spec fn decks_applied(&self, after: &Self, res: Result<Vec<DeckInfo>, String>) -> bool {
        match res {
            Ok(d) => {
                let mid = App { decks: d, ..*self };
                *after == (App {
                    decks: d,
                    deck_selected: clamped(self.deck_selected, mid.visible().len() as int),
                    ..*self
                })
            },
            Err(e) => *after == (App { status: Some(e), ..*self }),
        }
    }

    fn apply_decks(&mut self, res: Result<Vec<DeckInfo>, String>)
        ensures
            old(self).decks_applied(final(self), res),
    {
        match res {
            Ok(decks) => {
                self.decks = decks;
                self.clamp_selection();
            },
            Err(e) => self.status = Some(e),
        }
    }

    /// What a reply does to `self` (with `awaiting` already cleared), and the
    /// request that follows it.
    pub open spec fn resumed(&self, reply: Reply<S, C>, after: &Self, r: Request) -> bool {
        let idle = App { awaiting: Awaiting::Nothing, ..*self };
        match (self.awaiting, reply) {
            (Awaiting::DeckReview, Reply::Done(res)) => {
                let mid = match res {
                    Ok(_) => idle,
                    Err(e) => App { status: Some(e), ..idle },
                };
                mid.loads(after, r)
            },
            (Awaiting::Card, Reply::Card(res)) => r is Nothing && match res {
                Ok(Some(c)) => *after == (App { card: Some(c), deck_finished: false, ..idle }),
                Ok(None) => *after == (App { card: None, deck_finished: true, ..idle }),
                Err(e) => *after == (App { status: Some(e), card: None, ..idle }),
            },
            (Awaiting::ShownAnswer, Reply::Done(res)) => match res {
                Ok(_) => *after == (App { answer_shown: true, scroll: 0, ..idle })
                    && r is PlayAnswerAudio,
                Err(e) => *after == (App { status: Some(e), ..idle }) && r is Nothing,
            },
            (Awaiting::GuiGrade, Reply::Done(res)) => match res {
                Ok(_) => (App { status: None, prev_card: self.card, card: None, ..idle }).loads(
                    after,
                    r,
                ),
                Err(e) => *after == (App { status: Some(e), ..idle }) && r is Nothing,
            },
            (Awaiting::IdGrade, Reply::Done(res)) => match res {
                Ok(_) => (App { status: None, undone: false, ..idle }).loads(after, r),
                Err(e) => *after == (App { status: Some(e), ..idle }) && r is Nothing,
            },
            (Awaiting::Undo, Reply::Undone(res)) => r is Nothing && match res {
                Ok(true) => {
                    &&& says(after.status, "Undone \u{2014} re-grade this card"@)
                    &&& *after == (App {
                        card: self.prev_card,
                        prev_card: None,
                        undone: true,
                        answer_shown: false,
                        scroll: 0,
                        deck_finished: false,
                        status: after.status,
                        ..idle
                    })
                },
                Ok(false) => says(after.status, "Nothing to undo"@) && *after == (App {
                    status: after.status,
                    ..idle
                }),
                Err(e) => *after == (App { status: Some(e), ..idle }),
            },
            (Awaiting::Suspend, Reply::Done(res)) => match res {
                Ok(_) => {
                    &&& says(after.status, "Card suspended \u{2014} u to undo"@)
                    &&& if self.undone {
                        (App {
                            undone: false,
                            prev_card: self.card,
                            card: None,
                            status: after.status,
                            ..idle
                        }).loads(after, r)
                    } else {
                        &&& r matches Request::ReviewDeck(d) && d@ == self.deck_name@
                        &&& *after == (App {
                            status: after.status,
                            awaiting: Awaiting::ResumeDeck,
                            ..idle
                        })
                    }
                },
                Err(e) => *after == (App { status: Some(e), ..idle }) && r is Nothing,
            },
            (Awaiting::ResumeDeck, Reply::Done(res)) => match res {
                Ok(_) => (App { prev_card: self.card, card: None, ..idle }).loads(after, r),
                Err(e) => *after == (App { status: Some(e), ..idle }) && r is Nothing,
            },
            (Awaiting::Sync, Reply::Done(res)) => match res {
                Ok(_) => if self.screen == Screen::DeckList {
                    *after == (App { awaiting: Awaiting::SyncedDecks, ..idle }) && r is LoadDecks
                } else {
                    &&& says(after.status, "Synced with AnkiWeb"@)
                    &&& *after == (App { status: after.status, ..idle })
                    &&& r is Nothing
                },
                Err(e) => *after == (App { status: Some(e), ..idle }) && r is Nothing,
            },
            (Awaiting::SyncedDecks, Reply::Decks(res)) => {
                &&& r is Nothing
                &&& says(after.status, "Synced with AnkiWeb"@)
                &&& exists|mid: Self| idle.decks_applied(&mid, res) && *after == (App {
                    status: after.status,
                    ..mid
                })
            },
            (Awaiting::Decks, Reply::Decks(res)) => r is Nothing && idle.decks_applied(after, res),
            (Awaiting::Stats, Reply::Stats(res)) => r is Nothing && match res {
                Ok(st) => *after == (App { stats: Some(st), stats_scroll: 0, ..idle }),
                Err(e) => *after == (App { status: Some(e), ..idle }),
            },
            _ => *after == idle && r is Nothing,
        }
    }

    /// Take in the outcome of the last request and decide what comes next.
    /// A reply of the wrong kind for the pending request is ignored.
    pub fn resume(&mut self, reply: Reply<S, C>) -> (r: Request)
        ensures
            old(self).resumed(reply, final(self), r),
    {
        match reply {
            Reply::Done(res) => self.resume_done(res),
            Reply::Card(res) => self.resume_card(res),
            Reply::Undone(res) => self.resume_undone(res),
            Reply::Decks(res) => self.resume_decks(res),
            Reply::Stats(res) => self.resume_stats(res),
        }
    }

    #[verifier::spinoff_prover]
    #[verifier::rlimit(40)]
    fn resume_card(&mut self, res: Result<Option<ReviewCard<S, C>>, String>) -> (r: Request)
        ensures
            old(self).resumed(Reply::Card(res), final(self), r),
    {
        let awaiting = self.awaiting;
        self.awaiting = Awaiting::Nothing;
        if awaiting != Awaiting::Card {
            return Request::Nothing;
        }
        match res {
            Ok(Some(c)) => {
                self.card = Some(c);
                self.deck_finished = false;
            },
            Ok(None) => {
                self.card = None;
                self.deck_finished = true;
            },
            Err(e) => {
                self.status = Some(e);
                self.card = None;
            },
        }
        Request::Nothing
    }

    #[verifier::spinoff_prover]
    #[verifier::rlimit(40)]
    fn resume_undone(&mut self, res: Result<bool, String>) -> (r: Request)
        ensures
            old(self).resumed(Reply::Undone(res), final(self), r),
    {
        let awaiting = self.awaiting;
        self.awaiting = Awaiting::Nothing;
        if awaiting != Awaiting::Undo {
            return Request::Nothing;
        }
        match res {
            Ok(true) => {
                self.card = self.prev_card.take();
                self.undone = true;
                self.answer_shown = false;
                self.scroll = 0;
                self.deck_finished = false;
                self.status = Some(String::from_str("Undone \u{2014} re-grade this card"));
            },
            Ok(false) => {
                self.status = Some(String::from_str("Nothing to undo"));
            },
            Err(e) => {
                self.status = Some(e);
            },
        }
        Request::Nothing
    }

    #[verifier::spinoff_prover]
    #[verifier::rlimit(40)]
    fn resume_decks(&mut self, res: Result<Vec<DeckInfo>, String>) -> (r: Request)
        ensures
            old(self).resumed(Reply::Decks(res), final(self), r),
    {
        let awaiting = self.awaiting;
        self.awaiting = Awaiting::Nothing;
        if awaiting == Awaiting::SyncedDecks {
            let ghost idle = *self;
            self.apply_decks(res);
            let ghost mid = *self;
            self.status = Some(String::from_str("Synced with AnkiWeb"));
            assert(*self == (App { status: self.status, ..mid }));
            assert(idle.decks_applied(&mid, res));
            Request::Nothing
        } else if awaiting == Awaiting::Decks {
            self.apply_decks(res);
            Request::Nothing
        } else {
            Request::Nothing
        }
    }

    #[verifier::spinoff_prover]
    #[verifier::rlimit(40)]
    fn resume_stats(&mut self, res: Result<CardStats, String>) -> (r: Request)
        ensures
            old(self).resumed(Reply::Stats(res), final(self), r),
    {
        let awaiting = self.awaiting;
        self.awaiting = Awaiting::Nothing;
        if awaiting != Awaiting::Stats {
            return Request::Nothing;
        }
        match res {
            Ok(st) => {
                self.stats = Some(st);
                self.stats_scroll = 0;
            },
            Err(e) => self.status = Some(e),
        }
        Request::Nothing
    }

    #[verifier::spinoff_prover]
    #[verifier::rlimit(40)]
    fn resume_done(&mut self, res: Result<(), String>) -> (r: Request)
        ensures
            old(self).resumed(Reply::Done(res), final(self), r),
    {
        let awaiting = self.awaiting;
        self.awaiting = Awaiting::Nothing;
        match awaiting {
            Awaiting::DeckReview => {
                if let Err(e) = res {
                    self.status = Some(e);
                }
                self.load_current_card()
            },
            Awaiting::ShownAnswer => match res {
                Ok(_) => {
                    self.answer_shown = true;
                    self.scroll = 0;
                    Request::PlayAnswerAudio
                },
                Err(e) => {
                    self.status = Some(e);
                    Request::Nothing
                },
            },
            Awaiting::GuiGrade => match res {
                Ok(_) => {
                    self.status = None;
                    // Stash the just-graded card so `u` can restore it.
                    self.prev_card = self.card.take();
                    self.load_current_card()
                },
                Err(e) => {
                    self.status = Some(e);
                    Request::Nothing
                },
            },
            Awaiting::IdGrade => match res {
                Ok(_) => {
                    self.status = None;
                    self.undone = false;
                    self.load_current_card()
                },
                Err(e) => {
                    self.status = Some(e);
                    Request::Nothing
                },
            },
            Awaiting::Suspend => match res {
                Ok(_) => {
                    self.status = Some(String::from_str("Card suspended \u{2014} u to undo"));
                    if self.undone {
                        // The GUI review screen is already on the next card; the
                        // suspended card was only shown locally, so just reload.
                        self.undone = false;
                        self.prev_card = self.card.take();
                        self.load_current_card()
                    } else {
                        // Suspending does not move the GUI review screen off the card,
                        // so continue the deck review to reach the next due card.
                        self.awaiting = Awaiting::ResumeDeck;
                        Request::ReviewDeck(self.deck_name.clone())
                    }
                },
                Err(e) => {
                    self.status = Some(e);
                    Request::Nothing
                },
            },
            Awaiting::ResumeDeck => match res {
                Ok(_) => {
                    self.prev_card = self.card.take();
                    self.load_current_card()
                },
                Err(e) => {
                    self.status = Some(e);
                    Request::Nothing
                },
            },
            Awaiting::Sync => match res {
                Ok(_) => {
                    if self.screen == Screen::DeckList {
                        self.awaiting = Awaiting::SyncedDecks;
                        Request::LoadDecks
                    } else {
                        self.status = Some(String::from_str("Synced with AnkiWeb"));
                        Request::Nothing
                    }
                },
                Err(e) => {
                    self.status = Some(e);
                    Request::Nothing
                },
            },
            _ => Request::Nothing,
        }
    }
}


/// A key press, as far as the screens tell keys apart.
#[derive(PartialEq, Eq, Structural, Clone, Copy, Debug)]
pub enum Key {
    Char(char),
    /// A character typed with Ctrl held.
    Ctrl(char),
    Up,
    Down,
    Left,
    Right,
    Enter,
    Esc,
    Backspace,
    Other,
}

/// What a key does where it is pressed.
#[derive(PartialEq, Eq, Structural, Clone, Copy, Debug)]
pub enum Command {
    Quit,
    NextDeck,
    PrevDeck,
    PageDown,
    PageUp,
    PressG,
    SelectLast,
    EnterReview,
    ExpandOrReview,
    CollapseOrParent,
    ToggleView,
    StartSearch,
    SearchPush(char),
    SearchBackspace,
    SearchConfirm,
    SearchCancel,
    Sync,
    BackToDecks,
    Space,
    ReplayAudio,
    ToggleStats,
    Undo,
    ScrollDown,
    ScrollUp,
    StatsScrollDown,
    StatsScrollUp,
    Grade(i64),
    Ignore,
}

/// The key bindings.
///
/// Deck list: `q` quits, `j`/Down and `k`/Up move, Ctrl-d and Ctrl-u jump
/// half a page, `gg` and `G` go to the first and last deck, Enter reviews the
/// highlighted deck, `l`/Right unfolds it or reviews it, `h`/Left folds it or
/// goes to its parent, `,` switches between tree and flat list, `/` starts a
/// search and `y` syncs. While a search is typed, characters go into it,
/// Backspace deletes one, Enter keeps the filter and Esc clears it.
///
/// Review screen: `q` quits, `d` goes back to the decks, space shows the answer
/// (and once it is shown grades Good), `1`..`4` grade, `r` replays the audio,
/// `i` opens the card info, `u` undoes the last grade, and `j`/`k` (Down/Up)
/// scroll. While the card info is open, `i` or Esc closes it, `j`/`k`
/// (Down/Up) scroll it and `q` quits.
pub open spec fn command_of(screen: Screen, searching: bool, info_open: bool, key: Key) -> Command {
    match screen {
        Screen::DeckList => if searching {
            match key {
                Key::Char(c) => Command::SearchPush(c),
                Key::Backspace => Command::SearchBackspace,
                Key::Enter => Command::SearchConfirm,
                Key::Esc => Command::SearchCancel,
                _ => Command::Ignore,
            }
        } else {
            match key {
                Key::Char('q') => Command::Quit,
                Key::Char('j') | Key::Down => Command::NextDeck,
                Key::Char('k') | Key::Up => Command::PrevDeck,
                Key::Ctrl('d') => Command::PageDown,
                Key::Ctrl('u') => Command::PageUp,
                Key::Char('g') => Command::PressG,
                Key::Char('G') => Command::SelectLast,
                Key::Enter => Command::EnterReview,
                Key::Char('l') | Key::Right => Command::ExpandOrReview,
                Key::Char('h') | Key::Left => Command::CollapseOrParent,
                Key::Char(',') => Command::ToggleView,
                Key::Char('/') => Command::StartSearch,
                Key::Char('y') => Command::Sync,
                _ => Command::Ignore,
            }
        },
        Screen::Review => if info_open {
            match key {
                Key::Char('q') => Command::Quit,
                Key::Char('i') | Key::Esc => Command::ToggleStats,
                Key::Char('j') | Key::Down => Command::StatsScrollDown,
                Key::Char('k') | Key::Up => Command::StatsScrollUp,
                _ => Command::Ignore,
            }
        } else {
            match key {
                Key::Char('q') => Command::Quit,
                Key::Char('d') => Command::BackToDecks,
                Key::Char(' ') => Command::Space,
                Key::Char('r') => Command::ReplayAudio,
                Key::Char('i') => Command::ToggleStats,
                Key::Char('u') => Command::Undo,
                Key::Char('j') | Key::Down => Command::ScrollDown,
                Key::Char('k') | Key::Up => Command::ScrollUp,
                Key::Char('1') => Command::Grade(1),
                Key::Char('2') => Command::Grade(2),
                Key::Char('3') => Command::Grade(3),
                Key::Char('4') => Command::Grade(4),
                _ => Command::Ignore,
            }
        },
    }
}

pub fn command_for(screen: Screen, searching: bool, info_open: bool, key: Key) -> (c: Command)
    ensures
        c == command_of(screen, searching, info_open, key),
{
    match screen {
        Screen::DeckList => if searching {
            match key {
                Key::Char(c) => Command::SearchPush(c),
                Key::Backspace => Command::SearchBackspace,
                Key::Enter => Command::SearchConfirm,
                Key::Esc => Command::SearchCancel,
                _ => Command::Ignore,
            }
        } else {
            match key {
                Key::Char('q') => Command::Quit,
                Key::Char('j') | Key::Down => Command::NextDeck,
                Key::Char('k') | Key::Up => Command::PrevDeck,
                Key::Ctrl('d') => Command::PageDown,
                Key::Ctrl('u') => Command::PageUp,
                Key::Char('g') => Command::PressG,
                Key::Char('G') => Command::SelectLast,
                Key::Enter => Command::EnterReview,
                Key::Char('l') | Key::Right => Command::ExpandOrReview,
                Key::Char('h') | Key::Left => Command::CollapseOrParent,
                Key::Char(',') => Command::ToggleView,
                Key::Char('/') => Command::StartSearch,
                Key::Char('y') => Command::Sync,
                _ => Command::Ignore,
            }
        },
        Screen::Review => if info_open {
            match key {
                Key::Char('q') => Command::Quit,
                Key::Char('i') | Key::Esc => Command::ToggleStats,
                Key::Char('j') | Key::Down => Command::StatsScrollDown,
                Key::Char('k') | Key::Up => Command::StatsScrollUp,
                _ => Command::Ignore,
            }
        } else {
            match key {
                Key::Char('q') => Command::Quit,
                Key::Char('d') => Command::BackToDecks,
                Key::Char(' ') => Command::Space,
                Key::Char('r') => Command::ReplayAudio,
                Key::Char('i') => Command::ToggleStats,
                Key::Char('u') => Command::Undo,
                Key::Char('j') | Key::Down => Command::ScrollDown,
                Key::Char('k') | Key::Up => Command::ScrollUp,
                Key::Char('1') => Command::Grade(1),
                Key::Char('2') => Command::Grade(2),
                Key::Char('3') => Command::Grade(3),
                Key::Char('4') => Command::Grade(4),
                _ => Command::Ignore,
            }
        },
    }
}

impl<S, C> App<S, C> {
    /// What `key` does in the current state: on which screen it is pressed,
    /// whether a search is being typed, and whether the card info is open.
    pub open spec fn command(&self, key: Key) -> Command {
        command_of(self.screen, self.searching, self.stats is Some, key)
    }

    /// `after` and `r` are what a key does in the current state.
    pub open spec fn key_handled(&self, key: Key, after: &Self, r: Request) -> bool {
        match self.command(key) {
            Command::Quit => *after == (App { should_quit: true, ..*self }) && r is Nothing,
            Command::NextDeck => *after == self.stepped_next() && r is Nothing,
            Command::PrevDeck => *after == self.stepped_prev() && r is Nothing,
            Command::PageDown => r is Nothing && *after == (App {
                deck_selected: if self.visible().len() > 0 {
                    if self.deck_selected + PAGE_JUMP <= self.visible().len() - 1 {
                        (self.deck_selected + PAGE_JUMP) as usize
                    } else {
                        (self.visible().len() - 1) as usize
                    }
                } else {
                    self.deck_selected
                },
                ..*self
            }),
            Command::PageUp => r is Nothing && *after == (App {
                deck_selected: if self.deck_selected >= PAGE_JUMP {
                    (self.deck_selected - PAGE_JUMP) as usize
                } else {
                    0
                },
                ..*self
            }),
            Command::PressG => *after == self.g_pressed() && r is Nothing,
            Command::SelectLast => r is Nothing && *after == (App {
                deck_selected: clamped(usize::MAX, self.visible().len() as int),
                ..*self
            }),
            Command::EnterReview => match self.selected_name() {
                None => *after == *self && r is Nothing,
                Some(n) => self.review_entered(after, r, n),
            },
            Command::ExpandOrReview => self.expanded(after, r),
            Command::CollapseOrParent => self.folded(after, r),
            Command::ToggleView => *after == self.toggled() && r is Nothing,
            Command::StartSearch => *after == (App { searching: true, ..*self }) && r is Nothing,
            Command::SearchPush(c) => {
                &&& after.search@ == self.search@.push(c)
                &&& *after == (App { search: after.search, deck_selected: 0, ..*self })
                &&& r is Nothing
            },
            Command::SearchBackspace => {
                &&& after.search@ == (if self.search@.len() > 0 {
                    self.search@.drop_last()
                } else {
                    self.search@
                })
                &&& *after == (App { search: after.search, deck_selected: 0, ..*self })
                &&& r is Nothing
            },
            Command::SearchConfirm => *after == (App { searching: false, ..*self }) && r is Nothing,
            Command::SearchCancel => {
                &&& after.search@.len() == 0
                &&& *after == (App {
                    search: after.search,
                    searching: false,
                    deck_selected: 0,
                    ..*self
                })
                &&& r is Nothing
            },
            Command::Sync => *after == (App { awaiting: Awaiting::Sync, ..*self }) && r is Sync,
            Command::BackToDecks => *after == self.returned() && r is LoadDecks,
            Command::Space => if self.answer_shown {
                self.graded(3, after, r)
            } else {
                self.answer_requested(after, r)
            },
            Command::ReplayAudio => self.replay_requested(after, r),
            Command::ToggleStats => if self.stats is Some {
                *after == (App { stats: None, ..*self }) && r is Nothing
            } else {
                match self.card {
                    None => *after == *self && r is Nothing,
                    Some(c) => *after == (App { awaiting: Awaiting::Stats, ..*self }) && r
                        == Request::CardStats(c.card_id),
                }
            },
            Command::Undo => self.undo_requested(after, r),
            Command::ScrollDown => *after == self.scrolled_down() && r is Nothing,
            Command::ScrollUp => *after == self.scrolled_up() && r is Nothing,
            Command::StatsScrollDown => r is Nothing && *after == (App {
                stats_scroll: if self.stats_scroll < u16::MAX {
                    (self.stats_scroll + 1) as u16
                } else {
                    u16::MAX
                },
                ..*self
            }),
            Command::StatsScrollUp => r is Nothing && *after == (App {
                stats_scroll: if self.stats_scroll > 0 {
                    (self.stats_scroll - 1) as u16
                } else {
                    0
                },
                ..*self
            }),
            Command::Grade(e) => self.graded(e, after, r),
            Command::Ignore => *after == *self && r is Nothing,
        }
    }

    /// Act on a key press.
    pub fn handle_key(&mut self, key: Key) -> (r: Request)
        requires
            old(self).command(key) == Command::NextDeck && old(self).visible().len() > 0
                ==> old(self).deck_selected < usize::MAX,
            old(self).command(key) == Command::PageDown && old(self).visible().len() > 0
                ==> old(self).deck_selected + PAGE_JUMP <= usize::MAX,
        ensures
            old(self).key_handled(key, final(self), r),
    {
        let info_open = self.stats.is_some();
        match command_for(self.screen, self.searching, info_open, key) {
            Command::Quit => {
                self.should_quit = true;
                Request::Nothing
            },
            Command::NextDeck => {
                self.select_next_deck();
                Request::Nothing
            },
            Command::PrevDeck => {
                self.select_prev_deck();
                Request::Nothing
            },
            Command::PageDown => {
                self.select_page_down();
                Request::Nothing
            },
            Command::PageUp => {
                self.select_page_up();
                Request::Nothing
            },
            Command::PressG => {
                self.press_g();
                Request::Nothing
            },
            Command::SelectLast => {
                self.select_last();
                Request::Nothing
            },
            Command::EnterReview => self.enter_review(),
            Command::ExpandOrReview => self.expand_or_review(),
            Command::CollapseOrParent => self.collapse_or_parent(),
            Command::ToggleView => {
                self.toggle_view();
                Request::Nothing
            },
            Command::StartSearch => {
                self.start_search();
                Request::Nothing
            },
            Command::SearchPush(c) => {
                self.push_search(c);
                Request::Nothing
            },
            Command::SearchBackspace => {
                self.backspace_search();
                Request::Nothing
            },
            Command::SearchConfirm => {
                self.confirm_search();
                Request::Nothing
            },
            Command::SearchCancel => {
                self.cancel_search();
                Request::Nothing
            },
            Command::Sync => self.sync(),
            Command::BackToDecks => self.back_to_decks(),
            Command::Space => self.space(),
            Command::ReplayAudio => self.replay_audio(),
            Command::ToggleStats => self.toggle_stats(),
            Command::Undo => self.undo(),
            Command::ScrollDown => {
                self.scroll_down();
                Request::Nothing
            },
            Command::ScrollUp => {
                self.scroll_up();
                Request::Nothing
            },
            Command::StatsScrollDown => {
                self.stats_scroll_down();
                Request::Nothing
            },
            Command::StatsScrollUp => {
                self.stats_scroll_up();
                Request::Nothing
            },
            Command::Grade(e) => self.grade(e),
            Command::Ignore => Request::Nothing,
        }
    }
}

} // verus!
