//! What the screens show, computed from plain values: the grading hint, deck
//! rows, the card body layout and the card-info table.

use vstd::prelude::*;

use crate::anki::join;
use crate::deck::{contains_string, views as name_views, DeckInfo};
use crate::stats::{kind_label, CardStats, ReviewKind, ReviewRow};
use crate::text::{
    chars_of, decimal, decimal_string, digits, push_decimal, push_digits, push_str, string_of,
};

verus! {

/// `n` copies of `c`.
pub open spec fn repeat(c: char, n: nat) -> Seq<char> {
    Seq::new(n, |i: int| c)
}

/// `s` followed by spaces up to `w` characters (`format!("{s:<w$}")`).
pub open spec fn padded_right(s: Seq<char>, w: int) -> Seq<char> {
    if s.len() >= w {
        s
    } else {
        s + repeat(' ', (w - s.len()) as nat)
    }
}

/// Spaces then `s`, up to `w` characters (`format!("{s:>w$}")`).
pub open spec fn padded_left(s: Seq<char>, w: int) -> Seq<char> {
    if s.len() >= w {
        s
    } else {
        repeat(' ', (w - s.len()) as nat) + s
    }
}

fn push_spaces(s: &mut String, n: usize)
    ensures
        final(s)@ == old(s)@ + repeat(' ', n as nat),
{
    let mut i: usize = 0;
    while i < n
        invariant
            i <= n,
            s@ == old(s)@ + repeat(' ', i as nat),
        decreases n - i,
    {
        s.push(' ');
        assert(repeat(' ', (i + 1) as nat) =~= repeat(' ', i as nat).push(' '));
        i += 1;
    }
}

pub fn pad_right(s: &str, w: usize) -> (r: String)
    ensures
        r@ == padded_right(s@, w as int),
{
    let c = chars_of(s);
    let mut r = String::new();
    push_str(&mut r, s);
    if c.len() < w {
        push_spaces(&mut r, w - c.len());
    }
    assert(r@ =~= padded_right(s@, w as int));
    r
}

pub fn pad_left(s: &str, w: usize) -> (r: String)
    ensures
        r@ == padded_left(s@, w as int),
{
    let c = chars_of(s);
    let mut r = String::new();
    if c.len() < w {
        push_spaces(&mut r, w - c.len());
    }
    push_str(&mut r, s);
    assert(r@ =~= padded_left(s@, w as int));
    r
}

/// The label of grade `ease` (1 Again .. 4 Easy), or `?` for any other value.
pub open spec fn grade_label_of(ease: int) -> Seq<char> {
    if ease == 1 {
        "Again"@
    } else if ease == 2 {
        "Hard"@
    } else if ease == 3 {
        "Good"@
    } else if ease == 4 {
        "Easy"@
    } else {
        "?"@
    }
}

pub fn grade_label(ease: i64) -> (r: &'static str)
    ensures
        r@ == grade_label_of(ease as int),
{
    if ease == 1 {
        "Again"
    } else if ease == 2 {
        "Hard"
    } else if ease == 3 {
        "Good"
    } else if ease == 4 {
        "Easy"
    } else {
        "?"
    }
}

/// Index of the first `ease` in `buttons`, or -1.
pub open spec fn button_pos(buttons: Seq<i64>, ease: int) -> int
    decreases buttons.len(),
{
    if buttons.len() == 0 {
        -1
    } else if button_pos(buttons.drop_last(), ease) >= 0 {
        button_pos(buttons.drop_last(), ease)
    } else if buttons.last() == ease {
        buttons.len() - 1
    } else {
        -1
    }
}

pub open spec fn views(v: Seq<String>) -> Seq<Seq<char>> {
    v.map_values(|x: String| x@)
}

/// The hint part for grade `ease` when its button sits at `pos`: `e:Label`,
/// with the next-interval preview in brackets when there is a non-empty one.
pub open spec fn grade_part(ease: int, pos: int, next: Seq<Seq<char>>) -> Seq<char> {
    let interval = if pos < next.len() {
        next[pos]
    } else {
        seq![]
    };
    if interval.len() == 0 {
        decimal(ease) + ":"@ + grade_label_of(ease)
    } else {
        decimal(ease) + ":"@ + grade_label_of(ease) + "("@ + interval + ")"@
    }
}

/// The parts for grades `1..=k` that have a button.
pub open spec fn grade_parts(buttons: Seq<i64>, next: Seq<Seq<char>>, k: int) -> Seq<Seq<char>>
    decreases k,
{
    if k <= 0 {
        seq![]
    } else if button_pos(buttons, k) >= 0 {
        grade_parts(buttons, next, k - 1).push(grade_part(k, button_pos(buttons, k), next))
    } else {
        grade_parts(buttons, next, k - 1)
    }
}

pub open spec fn grade_hint_text(buttons: Seq<i64>, next: Seq<Seq<char>>) -> Seq<char> {
    " "@ + join(grade_parts(buttons, next, 4), "  "@)
        + "   space: good   r: replay   i: info   u: undo   d: decks   q: quit "@
}

fn find_button(buttons: &[i64], ease: i64) -> (r: Option<usize>)
    ensures
        match r {
            Some(p) => p == button_pos(buttons@, ease as int),
            None => button_pos(buttons@, ease as int) == -1,
        },
{
    let mut i: usize = 0;
    while i < buttons.len()
        invariant
            i <= buttons@.len(),
            button_pos(buttons@.take(i as int), ease as int) == -1,
        decreases buttons@.len() - i,
    {
        assert(buttons@.take(i + 1).drop_last() =~= buttons@.take(i as int));
        if buttons[i] == ease {
            proof {
                lemma_button_pos_prefix(buttons@, ease as int, i as int + 1);
            }
            return Some(i);
        }
        i += 1;
    }
    assert(buttons@.take(i as int) =~= buttons@);
    None
}

proof fn lemma_button_pos_prefix(b: Seq<i64>, ease: int, k: int)
    requires
        0 < k <= b.len(),
        button_pos(b.take(k), ease) >= 0,
    ensures
        button_pos(b, ease) == button_pos(b.take(k), ease),
    decreases b.len() - k,
{
    if k < b.len() {
        assert(b.take(k + 1).drop_last() =~= b.take(k));
        lemma_button_pos_prefix(b, ease, k + 1);
    } else {
        assert(b.take(k) =~= b);
    }
}

/// Build the grading footer from the card's available buttons/intervals.
pub fn grade_hint(buttons: &[i64], next_reviews: &[String]) -> (r: String)
    ensures
        r@ == grade_hint_text(buttons@, views(next_reviews@)),
{
    let ghost next = views(next_reviews@);
    let mut r = String::new();
    r.append(" ");
    assert(r@ =~= " "@ + join(grade_parts(buttons@, next, 0), "  "@));
    let mut first = true;
    let mut e: i64 = 1;
    while e <= 4
        invariant
            1 <= e <= 5,
            next == views(next_reviews@),
            first == (grade_parts(buttons@, next, e - 1).len() == 0),
            r@ == " "@ + join(grade_parts(buttons@, next, e - 1), "  "@),
        decreases 5 - e,
    {
        let ghost before = r@;
        if let Some(pos) = find_button(buttons, e) {
            if !first {
                r.append("  ");
            }
            push_decimal(&mut r, e);
            r.append(":");
            r.append(grade_label(e));
            if pos < next_reviews.len() && chars_of(next_reviews[pos].as_str()).len() > 0 {
                r.append("(");
                r.append(next_reviews[pos].as_str());
                r.append(")");
            }
            proof {
                let parts = grade_parts(buttons@, next, e - 1);
                let part = grade_part(e as int, pos as int, next);
                assert(grade_parts(buttons@, next, e as int) == parts.push(part));
                assert(parts.push(part).drop_last() =~= parts);
                if pos < next_reviews@.len() {
                    assert(next[pos as int] == next_reviews@[pos as int]@);
                }
                if first {
                    assert(r@ =~= " "@ + join(parts.push(part), "  "@));
                } else {
                    assert(r@ =~= " "@ + join(parts.push(part), "  "@));
                }
            }
            first = false;
        }
        e += 1;
    }
    r.append("   space: good   r: replay   i: info   u: undo   d: decks   q: quit ");
    r
}

} // verus!

verus! {

/// Width of each right-aligned count column.
pub const COUNT_WIDTH: usize = 5;

/// The deck name column of a deck-list row `width` cells wide: indentation
/// (two spaces per level), fold marker and label, cut with `…` when longer than
/// the column (the row width less three count columns, at least one), else
/// padded with spaces to the column width.
pub open spec fn deck_name_field(label: Seq<char>, depth: nat, marker: Seq<char>, width: int) -> Seq<
    char,
> {
    let name_width = if width - 15 > 1 {
        width - 15
    } else {
        1
    };
    let left = repeat(' ', 2 * depth) + marker + label;
    if left.len() > name_width {
        left.take(name_width - 1) + seq!['\u{2026}']
    } else {
        padded_right(left, name_width)
    }
}

pub fn deck_name_column(label: &str, depth: usize, marker: &str, width: u16) -> (r: String)
    requires
        2 * depth <= usize::MAX,
    ensures
        r@ == deck_name_field(label@, depth as nat, marker@, width as int),
{
    let name_width: usize = if width > 16 {
        (width - 15) as usize
    } else {
        1
    };
    let mut left = String::new();
    push_spaces(&mut left, 2 * depth);
    push_str(&mut left, marker);
    push_str(&mut left, label);
    let c = chars_of(left.as_str());
    if c.len() > name_width {
        let mut r = string_of(&c, 0, name_width - 1);
        r.push('\u{2026}');
        r
    } else {
        pad_right(left.as_str(), name_width)
    }
}

/// A count right-aligned in its column.
pub fn count_text(n: u32) -> (r: String)
    ensures
        r@ == padded_left(decimal(n as int), COUNT_WIDTH as int),
{
    let d = decimal_string(n as i64);
    pad_left(d.as_str(), COUNT_WIDTH)
}

/// Fold marker: `▶` for a collapsed parent, `▼` for an expanded one (and for
/// every parent while searching, when the tree is flattened), blank for leaves.
pub open spec fn marker_of(has_children: bool, searching: bool, collapsed: bool) -> Seq<char> {
    if has_children {
        if !searching && collapsed {
            "\u{25b6} "@
        } else {
            "\u{25bc} "@
        }
    } else {
        "  "@
    }
}

pub fn deck_marker(has_children: bool, searching: bool, collapsed: bool) -> (r: &'static str)
    ensures
        r@ == marker_of(has_children, searching, collapsed),
{
    if has_children {
        if !searching && collapsed {
            "\u{25b6} "
        } else {
            "\u{25bc} "
        }
    } else {
        "  "
    }
}

/// The deck list's title: the number of decks shown and the active filter.
pub open spec fn list_title(count: nat, search: Seq<char>) -> Seq<char> {
    if search.len() == 0 {
        " Decks ("@ + digits(count) + ") "@
    } else {
        " Decks ("@ + digits(count) + ") \u{2014} /"@ + search + " "@
    }
}

pub fn deck_list_title(count: usize, search: &str) -> (r: String)
    ensures
        r@ == list_title(count as nat, search@),
{
    let mut r = String::new();
    r.append(" Decks (");
    push_digits(&mut r, count as u64);
    if chars_of(search).len() == 0 {
        r.append(") ");
    } else {
        r.append(") \u{2014} /");
        r.append(search);
        r.append(" ");
    }
    r
}

/// The name column of a deck's row: in the flat view its full name with no
/// indentation or fold marker; in the tree its label, indented by its depth,
/// after its fold marker.
pub open spec fn deck_row_field(
    d: DeckInfo,
    flat_view: bool,
    searching: bool,
    collapsed: Seq<Seq<char>>,
    width: int,
) -> Seq<char> {
    if flat_view {
        deck_name_field(d.name@, 0, ""@, width)
    } else {
        deck_name_field(
            d.label@,
            d.depth as nat,
            marker_of(d.has_children, searching, collapsed.contains(d.name@)),
            width,
        )
    }
}

pub fn deck_row_name(
    d: &DeckInfo,
    flat_view: bool,
    searching: bool,
    collapsed: &Vec<String>,
    width: u16,
) -> (r: String)
    requires
        !flat_view ==> 2 * d.depth <= usize::MAX,
    ensures
        r@ == deck_row_field(*d, flat_view, searching, name_views(collapsed@), width as int),
{
    if flat_view {
        deck_name_column(d.name.as_str(), 0, "", width)
    } else {
        let folded = contains_string(collapsed, &d.name);
        let marker = deck_marker(d.has_children, searching, folded);
        deck_name_column(d.label.as_str(), d.depth, marker, width)
    }
}

/// The row of the deck list shown as selected: the selection when any deck is
/// listed, none for an empty list.
pub fn highlighted_row(count: usize, selected: usize) -> (r: Option<usize>)
    ensures
        r == (if count > 0 {
            Some(selected)
        } else {
            None
        }),
{
    if count > 0 {
        Some(selected)
    } else {
        None
    }
}

/// The colour a review kind is shown in.
#[derive(PartialEq, Eq, Structural, Clone, Copy, Debug)]
pub enum Tint {
    Blue,
    Green,
    Red,
    Cyan,
}

/// Learn is blue, Review green, Relearn red and Filtered cyan, as Anki shows them.
pub open spec fn tint_of(kind: ReviewKind) -> Tint {
    match kind {
        ReviewKind::Learn => Tint::Blue,
        ReviewKind::Review => Tint::Green,
        ReviewKind::Relearn => Tint::Red,
        ReviewKind::Filtered => Tint::Cyan,
    }
}

pub fn kind_tint(kind: ReviewKind) -> (r: Tint)
    ensures
        r == tint_of(kind),
{
    match kind {
        ReviewKind::Learn => Tint::Blue,
        ReviewKind::Review => Tint::Green,
        ReviewKind::Relearn => Tint::Red,
        ReviewKind::Filtered => Tint::Cyan,
    }
}

/// Whether a rating is shown in red: only Again (1) is.
pub fn rating_alert(rating: i64) -> (r: bool)
    ensures
        r == (rating == 1),
{
    rating == 1
}

/// Whether the popup shows the history table (a blank line, its header and
/// one line per review): only when there is any review.
pub fn history_shown(stats: &CardStats) -> (r: bool)
    ensures
        r == (stats.history@.len() > 0),
{
    stats.history.len() > 0
}

} // verus!

verus! {

/// One block of a card side for layout: an image or a text block, its height
/// in rows and (for images) its natural width in columns.
#[derive(Clone, Copy, Debug)]
pub struct BodyItem {
    pub image: bool,
    pub height: i32,
    pub cols: u16,
}

/// Where a block is drawn inside the card body: the row offset of its top
/// from the body's top, the rows drawn, the rows of the block scrolled off the
/// top (text only), and the columns used.
#[derive(PartialEq, Eq, Structural, Clone, Copy, Debug)]
pub struct Placement {
    pub top: u16,
    pub height: u16,
    pub skip: u16,
    pub width: u16,
}

/// Sum of the heights of the first `k` items.
pub open spec fn heights_before(items: Seq<BodyItem>, k: int) -> int
    decreases k,
{
    if k <= 0 {
        0
    } else {
        heights_before(items, k - 1) + items[k - 1].height
    }
}

/// Top row of item `k` relative to the body's top: blocks follow each other
/// with one blank row between them, shifted up by the scroll offset.
pub open spec fn item_top(items: Seq<BodyItem>, scroll: int, k: int) -> int {
    -scroll + k + heights_before(items, k)
}

pub open spec fn min(a: int, b: int) -> int {
    if a <= b {
        a
    } else {
        b
    }
}

pub open spec fn max(a: int, b: int) -> int {
    if a >= b {
        a
    } else {
        b
    }
}

/// A text block of `h` rows with its top at row `y` of a body `view_h` rows
/// tall: drawn where any of it is visible, clipped at both ends.
pub open spec fn text_placement(y: int, h: int, view_h: int, width: int) -> Option<Placement> {
    if y + h > 0 && y < view_h {
        let skip = max(-y, 0);
        let top = max(y, 0);
        let dh = max(min(h - skip, view_h - top), 0);
        if dh > 0 {
            Some(
                Placement {
                    top: top as u16,
                    height: dh as u16,
                    skip: skip as u16,
                    width: width as u16,
                },
            )
        } else {
            None
        }
    } else {
        None
    }
}

/// An image `h` rows tall at row `y`: drawn only when its top row is visible
/// (a partly scrolled image is not drawn), cut to the rows and columns left.
pub open spec fn image_placement(y: int, h: int, cols: int, view_h: int, width: int) -> Option<
    Placement,
> {
    if y >= 0 && y < view_h {
        Some(
            Placement {
                top: y as u16,
                height: min(h, view_h - y) as u16,
                skip: 0,
                width: min(cols, width) as u16,
            },
        )
    } else {
        None
    }
}

pub open spec fn placement_of(
    items: Seq<BodyItem>,
    scroll: int,
    view_h: int,
    width: int,
    k: int,
) -> Option<Placement> {
    let y = item_top(items, scroll, k);
    if items[k].image {
        image_placement(y, items[k].height as int, items[k].cols as int, view_h, width)
    } else {
        text_placement(y, items[k].height as int, view_h, width)
    }
}

/// The layout's arithmetic stays within `i32`, as the row arithmetic of the
/// card body requires.
pub open spec fn layout_fits(items: Seq<BodyItem>, scroll: int) -> bool {
    items.len() == 0 || item_top(items, scroll, items.len() - 1) + items.last().height <= i32::MAX
}

proof fn lemma_heights_mono(items: Seq<BodyItem>, j: int, k: int)
    requires
        0 <= j <= k <= items.len(),
        forall|q: int| 0 <= q < items.len() ==> #[trigger] items[q].height >= 0,
    ensures
        heights_before(items, j) <= heights_before(items, k),
        heights_before(items, k) >= 0,
    decreases k,
{
    if k > j {
        lemma_heights_mono(items, j, k - 1);
    } else if k > 0 {
        lemma_heights_mono(items, 0, k - 1);
    }
}

/// Lay out the blocks of a card side in a body `view_h` rows tall and `width`
/// columns wide, scrolled by `scroll` rows: one placement per block, `None`
/// for blocks not drawn. The whole result is `None` when the row arithmetic
/// would overflow an `i32`.
pub fn body_layout(items: &Vec<BodyItem>, scroll: u16, view_h: u16, width: u16) -> (r: Option<
    Vec<Option<Placement>>,
>)
    requires
        forall|q: int| 0 <= q < items@.len() ==> #[trigger] items@[q].height >= 0,
    ensures
        r is Some == layout_fits(items@, scroll as int),
        r matches Some(v) ==> v@.len() == items@.len() && forall|k: int|
            0 <= k < items@.len() ==> #[trigger] v@[k] == placement_of(
                items@,
                scroll as int,
                view_h as int,
                width as int,
                k,
            ),
{
    let n = items.len();
    if (n as u64) > 4294967296u64 {
        proof {
            lemma_heights_mono(items@, n - 1, n as int);
        }
        return None;
    }
    let mut sum: i64 = 0;
    let mut k: usize = 0;
    while k < n
        invariant
            n == items@.len(),
            n <= 4294967296,
            k <= n,
            sum == heights_before(items@, k as int),
            forall|q: int| 0 <= q < items@.len() ==> #[trigger] items@[q].height >= 0,
            0 <= sum <= 8589934592,
        decreases n - k,
    {
        sum = sum + items[k].height as i64;
        if sum > 8589934592 {
            proof {
                lemma_heights_mono(items@, k + 1, n as int);
                lemma_heights_mono(items@, n - 1, n as int);
            }
            return None;
        }
        k += 1;
    }
    if n > 0 {
        let last_bottom: i64 = -(scroll as i64) + (n as i64 - 1) + sum;
        if last_bottom > 2147483647 {
            return None;
        }
    }
    let mut out: Vec<Option<Placement>> = Vec::new();
    let mut y: i64 = -(scroll as i64);
    let vh = view_h as i64;
    let mut j: usize = 0;
    while j < n
        invariant
            n == items@.len(),
            j <= n,
            out@.len() == j,
            vh == view_h as i64,
            layout_fits(items@, scroll as int),
            forall|q: int| 0 <= q < items@.len() ==> #[trigger] items@[q].height >= 0,
            y == (if j == 0 {
                -(scroll as int)
            } else {
                item_top(items@, scroll as int, j - 1) + items@[j - 1].height
            }),
            forall|q: int|
                0 <= q < j ==> #[trigger] out@[q] == placement_of(
                    items@,
                    scroll as int,
                    view_h as int,
                    width as int,
                    q,
                ),
        decreases n - j,
    {
        proof {
            lemma_heights_mono(items@, j as int, n as int);
            lemma_heights_mono(items@, j as int + 1, n as int);
            lemma_heights_mono(items@, 0, j as int);
        }
        if j > 0 {
            y = y + 1;
        }
        assert(y == item_top(items@, scroll as int, j as int));
        let h = items[j].height as i64;
        let p = if items[j].image {
            if y >= 0 && y < vh {
                let avail = vh - y;
                let ph: i64 = if h <= avail {
                    h
                } else {
                    avail
                };
                let pw: u16 = if items[j].cols <= width {
                    items[j].cols
                } else {
                    width
                };
                Some(Placement { top: y as u16, height: ph as u16, skip: 0, width: pw })
            } else {
                None
            }
        } else {
            if y + h > 0 && y < vh {
                let skip: i64 = if -y > 0 {
                    -y
                } else {
                    0
                };
                let top: i64 = if y > 0 {
                    y
                } else {
                    0
                };
                let a = h - skip;
                let b = vh - top;
                let m = if a <= b {
                    a
                } else {
                    b
                };
                let dh = if m > 0 {
                    m
                } else {
                    0
                };

                if dh > 0 {
                    Some(
                        Placement {
                            top: top as u16,
                            height: dh as u16,
                            skip: skip as u16,
                            width,
                        },
                    )
                } else {
                    None
                }
            } else {
                None
            }
        };
        assert(p == placement_of(items@, scroll as int, view_h as int, width as int, j as int));
        out.push(p);
        y = y + h;
        j += 1;
    }
    Some(out)
}

} // verus!

verus! {

/// The widest label among the popup's rows, in characters (0 with no rows).
pub open spec fn widest_label(rows: Seq<(String, String)>) -> nat
    decreases rows.len(),
{
    if rows.len() == 0 {
        0
    } else {
        let w = widest_label(rows.drop_last());
        if rows.last().0@.len() > w {
            rows.last().0@.len()
        } else {
            w
        }
    }
}

/// Width of the label column of the card-info popup.
pub fn label_width(rows: &Vec<(String, String)>) -> (r: usize)
    ensures
        r == widest_label(rows@),
{
    let mut w: usize = 0;
    let mut i: usize = 0;
    while i < rows.len()
        invariant
            i <= rows@.len(),
            w == widest_label(rows@.take(i as int)),
        decreases rows@.len() - i,
    {
        assert(rows@.take(i + 1).drop_last() =~= rows@.take(i as int));
        let c = chars_of(rows[i].0.as_str());
        if c.len() > w {
            w = c.len();
        }
        i += 1;
    }
    assert(rows@.take(i as int) =~= rows@);
    w
}

/// A popup row's label cell: the label padded to the column width, then two spaces.
pub fn label_cell(label: &str, width: usize) -> (r: String)
    ensures
        r@ == padded_right(label@, width as int) + "  "@,
{
    let mut r = pad_right(label, width);
    r.append("  ");
    r
}

/// The header of the review-history table.
pub open spec fn history_header_text() -> Seq<char> {
    padded_right("Date"@, 18) + padded_right("Type"@, 9) + padded_right("Rating"@, 8)
        + padded_right("Interval"@, 13) + "Time"@
}

pub fn history_header() -> (r: String)
    ensures
        r@ == history_header_text(),
{
    let mut r = pad_right("Date", 18);
    r.append(pad_right("Type", 9).as_str());
    r.append(pad_right("Rating", 8).as_str());
    r.append(pad_right("Interval", 13).as_str());
    r.append("Time");
    r
}

/// The five cells of a history line: date, kind, rating and interval padded to
/// their columns, then the time taken.
pub fn history_cells(row: &ReviewRow) -> (r: Vec<String>)
    ensures
        views(r@) == seq![
            padded_right(row.date@, 18),
            padded_right(kind_label(row.kind), 9),
            padded_right(decimal(row.rating as int), 8),
            padded_right(row.interval@, 13),
            row.time@,
        ],
{
    let mut r: Vec<String> = Vec::new();
    r.push(pad_right(row.date.as_str(), 18));
    r.push(pad_right(row.kind.label(), 9));
    r.push(pad_right(decimal_string(row.rating).as_str(), 8));
    r.push(pad_right(row.interval.as_str(), 13));
    r.push(row.time.clone());
    assert(views(r@) =~= seq![
        padded_right(row.date@, 18),
        padded_right(kind_label(row.kind), 9),
        padded_right(decimal(row.rating as int), 8),
        padded_right(row.interval@, 13),
        row.time@,
    ]);
    r
}

} // verus!
