//! The deck tree: names split on `::`, parent/child relations, and the deck
//! list built from AnkiConnect's answers.

use std::collections::HashMap;

use vstd::prelude::*;

use crate::anki::DeckCounts;
use crate::sort::{sort_by_key, sort_stable, SortKey};
use crate::text::{chars_of, matches_at, string_of};

verus! {

broadcast use vstd::std_specs::hash::group_hash_axioms;

/// The separator of deck name components, `::`.
pub open spec fn sep() -> Seq<char> {
    seq![':', ':']
}

/// Start indices of the `::` separators of `s` at or after `i`, found scanning
/// left to right without overlap (as `str::split("::")` finds them).
pub open spec fn seps_from(s: Seq<char>, i: int) -> Seq<int>
    decreases s.len() - i,
{
    if i < 0 || i + 2 > s.len() {
        seq![]
    } else if s[i] == ':' && s[i + 1] == ':' {
        seq![i] + seps_from(s, i + 2)
    } else {
        seps_from(s, i + 1)
    }
}

pub open spec fn separators(s: Seq<char>) -> Seq<int> {
    seps_from(s, 0)
}

/// Nesting depth: the number of `::` separators.
pub open spec fn depth_of(s: Seq<char>) -> nat {
    separators(s).len()
}

/// The strict ancestors of a deck: the text before each separator.
pub open spec fn ancestors(s: Seq<char>) -> Seq<Seq<char>> {
    separators(s).map_values(|p: int| s.take(p))
}

/// The start of the last `::` of `s` that begins before `i`, or -1.
pub open spec fn last_sep_before(s: Seq<char>, i: int) -> int
    decreases i,
{
    if i <= 0 {
        -1
    } else if matches_at(s, i - 1, sep()) {
        i - 1
    } else {
        last_sep_before(s, i - 1)
    }
}

pub open spec fn last_sep(s: Seq<char>) -> int {
    last_sep_before(s, s.len() as int)
}

/// The last `::` component, shown in the tree.
pub open spec fn label_of(s: Seq<char>) -> Seq<char> {
    if last_sep(s) < 0 {
        s
    } else {
        s.skip(last_sep(s) + 2)
    }
}

/// The name of the parent deck: the text before the last `::`.
pub open spec fn parent_of(s: Seq<char>) -> Option<Seq<char>> {
    if last_sep(s) < 0 {
        None
    } else {
        Some(s.take(last_sep(s)))
    }
}

/// Every strict ancestor of every name, name by name.
pub open spec fn all_ancestors(names: Seq<Seq<char>>) -> Seq<Seq<char>>
    decreases names.len(),
{
    if names.len() == 0 {
        seq![]
    } else {
        all_ancestors(names.drop_last()) + ancestors(names.last())
    }
}

/// A deck has children when it is a strict ancestor of some deck.
pub open spec fn is_parent(name: Seq<char>, names: Seq<Seq<char>>) -> bool {
    all_ancestors(names).contains(name)
}

/// Full Unicode lower-case mapping of a string (`str::to_lowercase`).
pub uninterp spec fn lowercase(s: Seq<char>) -> Seq<char>;

/// `str::to_lowercase`: the string with every character mapped to lower case
/// by Unicode's rules (including the final-sigma rule). Claimed: the result is
/// a function of the input's characters alone.
#[verifier::external_body]
pub(crate) fn to_lowercase(s: &str) -> (r: String)
    ensures
        r@ == lowercase(s@),
{
    s.to_lowercase()
}

/// Lexicographic order of character sequences (the order of `String`, whose
/// UTF-8 bytes compare as the characters do).
pub open spec fn seq_le(a: Seq<char>, b: Seq<char>) -> bool
    decreases a.len(),
{
    if a.len() == 0 {
        true
    } else if b.len() == 0 {
        false
    } else if a[0] != b[0] {
        a[0] < b[0]
    } else {
        seq_le(a.drop_first(), b.drop_first())
    }
}

pub fn str_le(a: &str, b: &str) -> (r: bool)
    ensures
        r == seq_le(a@, b@),
{
    let x = chars_of(a);
    let y = chars_of(b);
    let mut i: usize = 0;
    assert(x@.skip(0) =~= x@);
    assert(y@.skip(0) =~= y@);
    while i < x.len() && i < y.len() && x[i] == y[i]
        invariant
            i <= x@.len(),
            i <= y@.len(),
            seq_le(x@, y@) == seq_le(x@.skip(i as int), y@.skip(i as int)),
        decreases x@.len() - i,
    {
        assert(x@.skip(i as int).drop_first() =~= x@.skip(i + 1));
        assert(y@.skip(i as int).drop_first() =~= y@.skip(i + 1));
        i += 1;
    }
    if i == x.len() {
        true
    } else if i == y.len() {
        false
    } else {
        x[i] < y[i]
    }
}

/// A deck plus its new/learn/review counts for the overview.
pub struct DeckInfo {
    /// Full `A::B::C` name.
    pub name: String,
    /// Last `::` component, shown in the tree.
    pub label: String,
    /// Nesting depth (number of `::` separators).
    pub depth: usize,
    /// Whether any other deck is nested under this one.
    pub has_children: bool,
    pub counts: DeckCounts,
}

impl SortKey for DeckInfo {
    /// Decks sort case-insensitively by full name.
    open spec fn key_le(&self, other: &Self) -> bool {
        seq_le(lowercase(self.name@), lowercase(other.name@))
    }

    fn le(&self, other: &Self) -> (r: bool) {
        let a = to_lowercase(self.name.as_str());
        let b = to_lowercase(other.name.as_str());
        str_le(a.as_str(), b.as_str())
    }

    proof fn lemma_total(a: &Self, b: &Self) {
        lemma_seq_le_total(lowercase(a.name@), lowercase(b.name@));
    }
}

/// Any two character sequences are ordered one way or the other.
pub proof fn lemma_seq_le_total(a: Seq<char>, b: Seq<char>)
    ensures
        seq_le(a, b) || seq_le(b, a),
    decreases a.len(),
{
    if a.len() > 0 && b.len() > 0 && a[0] == b[0] {
        lemma_seq_le_total(a.drop_first(), b.drop_first());
    }
}

pub open spec fn zero_counts() -> DeckCounts {
    DeckCounts { new: 0, learn: 0, review: 0 }
}

/// The counts recorded for deck `id`, or zeros.
pub open spec fn counts_of(stats: Map<i64, DeckCounts>, id: i64) -> DeckCounts {
    if stats.contains_key(id) {
        stats[id]
    } else {
        zero_counts()
    }
}

/// `d` is the deck entry for `name` (with id `id`) among all deck `names`.
pub open spec fn deck_built(
    d: DeckInfo,
    name: Seq<char>,
    id: i64,
    names: Seq<Seq<char>>,
    stats: Map<i64, DeckCounts>,
) -> bool {
    &&& d.name@ == name
    &&& d.label@ == label_of(name)
    &&& d.depth == depth_of(name)
    &&& d.has_children == is_parent(name, names)
    &&& d.counts == counts_of(stats, id)
}

pub open spec fn entry_names(entries: Seq<(String, i64)>) -> Seq<Seq<char>> {
    entries.map_values(|e: (String, i64)| e.0@)
}

} // verus!

verus! {

pub open spec fn as_ints(v: Seq<usize>) -> Seq<int> {
    v.map_values(|p: usize| p as int)
}

fn separator_positions(s: &Vec<char>) -> (r: Vec<usize>)
    ensures
        as_ints(r@) == separators(s@),
        forall|k: int| 0 <= k < r@.len() ==> r@[k] + 2 <= s@.len(),
{
    let mut out: Vec<usize> = Vec::new();
    let mut i: usize = 0;
    let n = s.len();
    while n > 0 && i < n - 1
        invariant
            n == s@.len(),
            i <= n,
            as_ints(out@) + seps_from(s@, i as int) == separators(s@),
            forall|k: int| 0 <= k < out@.len() ==> out@[k] + 2 <= s@.len(),
        decreases n - i,
    {
        if s[i] == ':' && s[i + 1] == ':' {
            let ghost before = as_ints(out@);
            out.push(i);
            assert(as_ints(out@) =~= before.push(i as int));
            assert(as_ints(out@) + seps_from(s@, i + 2) =~= before + seps_from(s@, i as int));
            i += 2;
        } else {
            i += 1;
        }
    }
    assert(seps_from(s@, i as int) =~= Seq::<int>::empty());
    assert(as_ints(out@) =~= as_ints(out@) + seps_from(s@, i as int));
    out
}

/// Append the strict ancestors of `name` to `out`.
fn push_ancestors(out: &mut Vec<String>, name: &str)
    ensures
        views(final(out)@) == views(old(out)@) + ancestors(name@),
{
    let s = chars_of(name);
    let seps = separator_positions(&s);
    let ghost anc = ancestors(s@);
    let mut k: usize = 0;
    while k < seps.len()
        invariant
            k <= seps@.len(),
            as_ints(seps@) == separators(s@),
            forall|q: int| 0 <= q < seps@.len() ==> seps@[q] + 2 <= s@.len(),
            anc == ancestors(s@),
            s@ == name@,
            views(out@) == views(old(out)@) + anc.take(k as int),
        decreases seps@.len() - k,
    {
        let p = seps[k];
        let prefix = string_of(&s, 0, p);
        let ghost before = views(out@);
        out.push(prefix);
        assert(as_ints(seps@)[k as int] == p as int);
        assert(anc[k as int] =~= s@.take(p as int));
        assert(anc.take(k + 1) =~= anc.take(k as int).push(anc[k as int]));
        assert(views(out@) =~= before.push(prefix@));
        k += 1;
    }
    assert(anc.take(k as int) =~= anc);
}

pub open spec fn views(v: Seq<String>) -> Seq<Seq<char>> {
    v.map_values(|x: String| x@)
}

/// Whether `v` holds a string equal to `s`.
pub fn contains_string(v: &Vec<String>, s: &String) -> (r: bool)
    ensures
        r == views(v@).contains(s@),
{
    let mut i: usize = 0;
    while i < v.len()
        invariant
            i <= v@.len(),
            forall|k: int| 0 <= k < i ==> v@[k]@ != s@,
        decreases v@.len() - i,
    {
        if v[i] == *s {
            assert(views(v@)[i as int] == s@);
            return true;
        }
        i += 1;
    }
    assert forall|k: int| 0 <= k < views(v@).len() implies views(v@)[k] != s@ by {
        assert(views(v@)[k] == v@[k]@);
    }
    false
}

/// The start of the last `::` in `s`, if any.
fn last_separator(s: &Vec<char>) -> (r: Option<usize>)
    ensures
        match r {
            Some(j) => j == last_sep(s@) && j + 2 <= s@.len(),
            None => last_sep(s@) == -1,
        },
{
    let n = s.len();
    let mut j = n;
    while j > 0 && !(j < n && s[j - 1] == ':' && s[j] == ':')
        invariant
            j <= n,
            n == s@.len(),
            last_sep(s@) == last_sep_before(s@, j as int),
        decreases j,
    {
        assert(!matches_at(s@, j - 1, sep())) by {
            if j + 1 <= n {
                assert(s@.subrange(j - 1, j + 1)[0] == s@[j - 1]);
                assert(s@.subrange(j - 1, j + 1)[1] == s@[j as int]);
            }
        }
        j -= 1;
    }
    if j == 0 {
        None
    } else {
        assert(s@.subrange(j - 1, j + 1) =~= sep());
        Some(j - 1)
    }
}

/// The last `::` component of a deck name.
pub fn deck_label(name: &str) -> (r: String)
    ensures
        r@ == label_of(name@),
{
    let s = chars_of(name);
    let n = s.len();
    match last_separator(&s) {
        Some(j) => {
            let r = string_of(&s, j + 2, n);
            assert(r@ =~= s@.skip(j + 2));
            r
        },
        None => {
            let r = string_of(&s, 0, s.len());
            assert(r@ =~= s@);
            r
        },
    }
}

/// The parent deck's name: the text before the last `::`, if there is one.
pub fn deck_parent(name: &str) -> (r: Option<String>)
    ensures
        opt_view(r) == parent_of(name@),
{
    let s = chars_of(name);
    match last_separator(&s) {
        Some(j) => {
            let r = string_of(&s, 0, j);
            assert(r@ =~= s@.take(j as int));
            Some(r)
        },
        None => None,
    }
}

pub open spec fn opt_view(o: Option<String>) -> Option<Seq<char>> {
    match o {
        Some(s) => Some(s@),
        None => None,
    }
}

/// Nesting depth of a deck name.
pub fn deck_depth(name: &str) -> (r: usize)
    ensures
        r == depth_of(name@),
{
    let s = chars_of(name);
    let seps = separator_positions(&s);
    assert(as_ints(seps@).len() == seps@.len());
    seps.len()
}

/// The deck list from AnkiConnect's deck names (with their ids) and per-deck
/// counts: each deck gets its label, depth, whether any deck is nested under it
/// and its counts (zeros when none were reported), and the list is sorted
/// case-insensitively by full name.
pub fn build_decks(entries: Vec<(String, i64)>, stats: &HashMap<i64, DeckCounts>) -> (r: Vec<
    DeckInfo,
>)
    ensures
        exists|u: Seq<DeckInfo>|
            {
                &&& u.len() == entries@.len()
                &&& forall|j: int|
                    0 <= j < u.len() ==> deck_built(
                        #[trigger] u[j],
                        entries@[j].0@,
                        entries@[j].1,
                        entry_names(entries@),
                        stats@,
                    )
                &&& r@ == sort_by_key(u)
            },
{
    let ghost names = entry_names(entries@);
    // Every full name that is a strict ancestor of another deck has children.
    let mut parents: Vec<String> = Vec::new();
    let mut i: usize = 0;
    while i < entries.len()
        invariant
            i <= entries@.len(),
            names == entry_names(entries@),
            views(parents@) == all_ancestors(names.take(i as int)),
        decreases entries@.len() - i,
    {
        push_ancestors(&mut parents, entries[i].0.as_str());
        assert(names.take(i + 1).drop_last() =~= names.take(i as int));
        assert(names.take(i + 1).last() == entries@[i as int].0@);
        i += 1;
    }
    assert(names.take(i as int) =~= names);
    let mut decks: Vec<DeckInfo> = Vec::new();
    let mut j: usize = 0;
    while j < entries.len()
        invariant
            j <= entries@.len(),
            names == entry_names(entries@),
            views(parents@) == all_ancestors(names),
            decks@.len() == j,
            forall|q: int|
                0 <= q < j ==> deck_built(
                    #[trigger] decks@[q],
                    entries@[q].0@,
                    entries@[q].1,
                    names,
                    stats@,
                ),
        decreases entries@.len() - j,
    {
        let name = entries[j].0.clone();
        let id = entries[j].1;
        let label = deck_label(name.as_str());
        let depth = deck_depth(name.as_str());
        let has_children = contains_string(&parents, &name);
        let counts = match stats.get(&id) {
            Some(c) => *c,
            None => DeckCounts::default(),
        };
        decks.push(DeckInfo { name, label, depth, has_children, counts });
        j += 1;
    }
    let sorted = sort_stable(decks);
    sorted
}

/// Default fold state: collapse every parent so only top-level decks show.
pub fn default_collapsed(decks: &[DeckInfo]) -> (r: Vec<String>)
    ensures
        views(r@) == parent_names(decks@),
{
    let mut out: Vec<String> = Vec::new();
    let mut i: usize = 0;
    while i < decks.len()
        invariant
            i <= decks@.len(),
            views(out@) == parent_names(decks@.take(i as int)),
        decreases decks@.len() - i,
    {
        let ghost before = views(out@);
        assert(decks@.take(i + 1).drop_last() =~= decks@.take(i as int));
        if decks[i].has_children {
            out.push(decks[i].name.clone());
            assert(views(out@) =~= before.push(decks@[i as int].name@));
        }
        i += 1;
    }
    assert(decks@.take(i as int) =~= decks@);
    out
}

/// Names of the decks that have children, in list order.
pub open spec fn parent_names(decks: Seq<DeckInfo>) -> Seq<Seq<char>>
    decreases decks.len(),
{
    if decks.len() == 0 {
        seq![]
    } else if decks.last().has_children {
        parent_names(decks.drop_last()).push(decks.last().name@)
    } else {
        parent_names(decks.drop_last())
    }
}

/// `s` with each name kept at its first occurrence only.
pub open spec fn distinct_names(s: Seq<Seq<char>>) -> Seq<Seq<char>>
    decreases s.len(),
{
    if s.len() == 0 {
        seq![]
    } else if distinct_names(s.drop_last()).contains(s.last()) {
        distinct_names(s.drop_last())
    } else {
        distinct_names(s.drop_last()).push(s.last())
    }
}

/// Keeping first occurrences leaves no name twice and the same names.
pub proof fn lemma_distinct_names(s: Seq<Seq<char>>)
    ensures
        distinct_names(s).no_duplicates(),
        forall|x: Seq<char>| #[trigger] distinct_names(s).contains(x) <==> s.contains(x),
    decreases s.len(),
{
    if s.len() > 0 {
        let p = s.drop_last();
        lemma_distinct_names(p);
        assert forall|x: Seq<char>| #[trigger] s.contains(x) <==> (p.contains(x) || x == s.last()) by {
            if s.contains(x) {
                let k = choose|k: int| 0 <= k < s.len() && #[trigger] s[k] == x;
                if k < s.len() - 1 {
                    assert(p[k] == x);
                }
            }
            if p.contains(x) {
                let k = choose|k: int| 0 <= k < p.len() && #[trigger] p[k] == x;
                assert(s[k] == x);
            }
            if x == s.last() {
                assert(s[s.len() - 1] == x);
            }
        }
        let d = distinct_names(p);
        if !d.contains(s.last()) {
            let e = d.push(s.last());
            assert forall|x: Seq<char>| #[trigger] e.contains(x) <==> (d.contains(x) || x == s.last()) by {
                if e.contains(x) {
                    let k = choose|k: int| 0 <= k < e.len() && #[trigger] e[k] == x;
                    if k < d.len() {
                        assert(d[k] == x);
                    }
                }
                if d.contains(x) {
                    let k = choose|k: int| 0 <= k < d.len() && #[trigger] d[k] == x;
                    assert(e[k] == x);
                }
                if x == s.last() {
                    assert(e[d.len() as int] == x);
                }
            }
            assert forall|i: int, j: int| 0 <= i < e.len() && 0 <= j < e.len() && i != j implies e[i]
                != e[j] by {
                if i < d.len() && j < d.len() {
                } else if i < d.len() {
                    assert(d[i] == e[i]);
                } else {
                    assert(d[j] == e[j]);
                }
            }
        }
    }
}

/// The names of `v` with each kept at its first occurrence only.
pub fn distinct(v: Vec<String>) -> (r: Vec<String>)
    ensures
        views(r@) == distinct_names(views(v@)),
{
    let ghost all = views(v@);
    let mut out: Vec<String> = Vec::new();
    let mut i: usize = 0;
    while i < v.len()
        invariant
            i <= v@.len(),
            all == views(v@),
            views(out@) == distinct_names(all.take(i as int)),
        decreases v@.len() - i,
    {
        assert(all.take(i + 1).drop_last() =~= all.take(i as int));
        assert(all.take(i + 1).last() == v@[i as int]@);
        if !contains_string(&out, &v[i]) {
            let ghost before = views(out@);
            out.push(v[i].clone());
            assert(views(out@) =~= before.push(all[i as int]));
        }
        i += 1;
    }
    assert(all.take(i as int) =~= all);
    out
}

/// True if any strict ancestor of `name` is in `collapsed`.
pub open spec fn ancestor_in(name: Seq<char>, collapsed: Seq<Seq<char>>) -> bool {
    exists|k: int| 0 <= k < ancestors(name).len() && collapsed.contains(#[trigger] ancestors(name)[k])
}

pub fn ancestor_collapsed(name: &str, collapsed: &Vec<String>) -> (r: bool)
    ensures
        r == ancestor_in(name@, views(collapsed@)),
{
    let mut anc: Vec<String> = Vec::new();
    push_ancestors(&mut anc, name);
    assert(views(anc@) =~= ancestors(name@));
    let mut k: usize = 0;
    while k < anc.len()
        invariant
            k <= anc@.len(),
            views(anc@) == ancestors(name@),
            forall|q: int| 0 <= q < k ==> !views(collapsed@).contains(#[trigger] ancestors(name@)[q]),
        decreases anc@.len() - k,
    {
        if contains_string(collapsed, &anc[k]) {
            assert(ancestors(name@)[k as int] == anc@[k as int]@);
            return true;
        }
        assert(ancestors(name@)[k as int] == anc@[k as int]@);
        k += 1;
    }
    false
}


impl SortKey for String {
    open spec fn key_le(&self, other: &Self) -> bool {
        seq_le(self@, other@)
    }

    fn le(&self, other: &Self) -> (r: bool) {
        str_le(self.as_str(), other.as_str())
    }

    proof fn lemma_total(a: &Self, b: &Self) {
        lemma_seq_le_total(a@, b@);
    }
}

/// The names in ascending order, as the fold state is written to disk.
pub fn sorted_names(names: &Vec<String>) -> (r: Vec<String>)
    ensures
        r@ == sort_by_key(names@),
{
    let copy = names.clone();
    sort_stable(copy)
}

} // verus!
