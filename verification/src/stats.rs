//! The card-info popup: scheduling rows and the review history, and the
//! human-readable intervals and durations shown in it.

use chrono::TimeZone;
use vstd::prelude::*;

use crate::anki::{CardInfo, ReviewEntry};
use crate::sort::{sort_by_key, sort_stable};
use crate::text::{decimal, decimal_string, digit, digits, push_decimal};

verus! {

/// The kind of a revlog entry, used for coloring the history table.
#[derive(Clone, Copy, PartialEq, Eq, Structural, Debug)]
pub enum ReviewKind {
    Learn,
    Review,
    Relearn,
    Filtered,
}

pub open spec fn kind_of(code: i64) -> ReviewKind {
    if code == 0 {
        ReviewKind::Learn
    } else if code == 2 {
        ReviewKind::Relearn
    } else if code == 3 {
        ReviewKind::Filtered
    } else {
        ReviewKind::Review
    }
}

pub open spec fn kind_label(k: ReviewKind) -> Seq<char> {
    match k {
        ReviewKind::Learn => "Learn"@,
        ReviewKind::Review => "Review"@,
        ReviewKind::Relearn => "Relearn"@,
        ReviewKind::Filtered => "Filtered"@,
    }
}

impl ReviewKind {
    /// The kind for a revlog `type` code: 0 learn, 2 relearn, 3 filtered, and
    /// review for anything else.
    pub fn from_code(code: i64) -> (r: Self)
        ensures
            r == kind_of(code),
    {
        match code {
            0 => ReviewKind::Learn,
            2 => ReviewKind::Relearn,
            3 => ReviewKind::Filtered,
            _ => ReviewKind::Review,
        }
    }

    /// The name Anki shows for this kind.
    pub fn label(self) -> (r: &'static str)
        ensures
            r@ == kind_label(self),
    {
        match self {
            ReviewKind::Learn => "Learn",
            ReviewKind::Review => "Review",
            ReviewKind::Relearn => "Relearn",
            ReviewKind::Filtered => "Filtered",
        }
    }
}

/// One row of the review-history table in the card-info popup.
pub struct ReviewRow {
    pub date: String,
    pub kind: ReviewKind,
    pub rating: i64,
    pub interval: String,
    pub time: String,
}

/// Card-info popup contents: a list of label/value rows plus the review history,
/// built on demand when the user presses `i`. FSRS-only stats (stability,
/// difficulty, retrievability) are omitted because AnkiConnect doesn't expose them.
pub struct CardStats {
    pub rows: Vec<(String, String)>,
    pub history: Vec<ReviewRow>,
}

/// A value of the popup before it is written out. Fractional amounts are kept
/// as numbers: they are written with one or two decimals by the front end.
pub enum Cell {
    /// Finished text.
    Text(String),
    /// A local date (`long`: with the time of day) of an epoch-ms timestamp.
    Date(i64, bool),
    /// A number of days written as months (`days / 30`, one decimal).
    Months(i64),
    /// A number of days written as years (`days / 365`, one decimal).
    Years(i64),
    /// A number of seconds written as hours (`secs / 3600`, one decimal).
    Hours(i64),
    /// A duration in milliseconds (`verbose`: the long form).
    Duration(i64, bool),
}

pub enum CellView {
    Text(Seq<char>),
    Date(i64, bool),
    Months(i64),
    Years(i64),
    Hours(i64),
    Duration(i64, bool),
}

impl View for Cell {
    type V = CellView;

    open spec fn view(&self) -> CellView {
        match self {
            Cell::Text(s) => CellView::Text(s@),
            Cell::Date(ms, long) => CellView::Date(*ms, *long),
            Cell::Months(d) => CellView::Months(*d),
            Cell::Years(d) => CellView::Years(*d),
            Cell::Hours(s) => CellView::Hours(*s),
            Cell::Duration(ms, v) => CellView::Duration(*ms, *v),
        }
    }
}

/// A card's interval given a count of days: `new`, `1 day`, `N days`, then
/// months below a year and years beyond.
pub open spec fn days_cell(days: i64) -> CellView {
    if days <= 0 {
        CellView::Text("new"@)
    } else if days == 1 {
        CellView::Text("1 day"@)
    } else if days < 30 {
        CellView::Text(decimal(days as int) + " days"@)
    } else if days < 365 {
        CellView::Months(days)
    } else {
        CellView::Years(days)
    }
}

/// `"s"` unless `n` is exactly 1, for simple pluralization.
pub open spec fn plural_of(n: i64) -> Seq<char> {
    if n == 1 {
        ""@
    } else {
        "s"@
    }
}

/// A revlog interval: days when non-negative, else `-ivl` seconds written as
/// seconds, whole minutes, or hours.
pub open spec fn revlog_cell(ivl: i64) -> CellView {
    if ivl >= 0 {
        days_cell(ivl)
    } else if -ivl < 60 {
        CellView::Text(decimal(-ivl) + " second"@ + plural_of((-ivl) as i64))
    } else if -ivl < 3600 {
        CellView::Text(decimal(-ivl / 60) + " minute"@ + plural_of((-ivl / 60) as i64))
    } else {
        CellView::Hours((-ivl) as i64)
    }
}

/// `"s"` unless `n` is exactly 1, for simple pluralization.
pub fn plural(n: i64) -> (r: &'static str)
    ensures
        r@ == plural_of(n),
{
    if n == 1 {
        ""
    } else {
        "s"
    }
}

/// Human-readable interval given a count of days (the card's current interval).
pub fn fmt_days(days: i64) -> (r: Cell)
    ensures
        r@ == days_cell(days),
{
    if days <= 0 {
        Cell::Text(String::from_str("new"))
    } else if days == 1 {
        Cell::Text(String::from_str("1 day"))
    } else if days < 30 {
        let mut s = decimal_string(days);
        s.append(" days");
        Cell::Text(s)
    } else if days < 365 {
        Cell::Months(days)
    } else {
        Cell::Years(days)
    }
}

/// Human-readable interval from a revlog `ivl` (negative = seconds, positive = days).
pub fn fmt_revlog_ivl(ivl: i64) -> (r: Cell)
    requires
        ivl > i64::MIN,
    ensures
        r@ == revlog_cell(ivl),
{
    if ivl >= 0 {
        return fmt_days(ivl);
    }
    let secs = -ivl;
    if secs < 60 {
        let mut s = decimal_string(secs);
        s.append(" second");
        s.append(plural(secs));
        Cell::Text(s)
    } else if secs < 3600 {
        let mins = secs / 60;
        let mut s = decimal_string(mins);
        s.append(" minute");
        s.append(plural(mins));
        Cell::Text(s)
    } else {
        Cell::Hours(secs)
    }
}

pub open spec fn day_format() -> Seq<char> {
    "%Y-%m-%d"@
}

pub open spec fn minute_format() -> Seq<char> {
    "%Y-%m-%d @ %H:%M"@
}

/// `n` characters `0`.
pub open spec fn zeros(n: int) -> Seq<char> {
    Seq::new(if n > 0 { n as nat } else { 0 }, |i: int| '0')
}

/// A year as `%Y` writes it: four digits, zero-padded, for years 0 to 9999;
/// otherwise a sign, then the digits of its magnitude zero-padded to four.
pub open spec fn year_text(y: int) -> Seq<char> {
    let m: nat = if y < 0 { (-y) as nat } else { y as nat };
    let body = zeros(4 - digits(m).len()) + digits(m);
    if 0 <= y <= 9999 {
        body
    } else if y < 0 {
        seq!['-'] + body
    } else {
        seq!['+'] + body
    }
}

/// A number below 100 as two digits (`%m`, `%d`, `%H`, `%M`).
pub open spec fn two_digits(n: int) -> Seq<char> {
    seq![digit(n / 10), digit(n % 10)]
}

/// A date as `%Y-%m-%d` writes it.
pub open spec fn date_text(y: int, m: int, d: int) -> Seq<char> {
    year_text(y) + seq!['-'] + two_digits(m) + seq!['-'] + two_digits(d)
}

/// `t` is some calendar date written as `%Y-%m-%d`.
pub open spec fn is_date_text(t: Seq<char>) -> bool {
    exists|y: int, m: int, d: int|
        1 <= m <= 12 && 1 <= d <= 31 && t == #[trigger] date_text(y, m, d)
}

/// A date and time of day as `%Y-%m-%d @ %H:%M` writes it.
pub open spec fn minute_text(y: int, m: int, d: int, h: int, mi: int) -> Seq<char> {
    date_text(y, m, d) + " @ "@ + two_digits(h) + seq![':'] + two_digits(mi)
}

/// `t` is some date and time of day written as `%Y-%m-%d @ %H:%M`.
pub open spec fn is_minute_text(t: Seq<char>) -> bool {
    exists|y: int, m: int, d: int, h: int, mi: int|
        1 <= m <= 12 && 1 <= d <= 31 && 0 <= h <= 23 && 0 <= mi <= 59 && t
            == #[trigger] minute_text(y, m, d, h, mi)
}

/// Whether chrono represents the epoch-ms timestamp `ms`
/// (`DateTime::from_timestamp_millis` gives `Some`).
pub uninterp spec fn chrono_millis_ok(ms: int) -> bool;

/// The text that chrono writes, with the format `fmt`, for the UTC date and
/// time of the epoch-ms timestamp `ms`
/// (`DateTime::from_timestamp_millis(ms)` formatted with `fmt`).
pub uninterp spec fn chrono_utc_text(ms: int, fmt: Seq<char>) -> Seq<char>;

/// The epoch-ms timestamp `ms` moved by an offset of `o` seconds.
pub open spec fn shifted_ms(ms: int, o: int) -> int {
    ms + o * 1000
}

/// The format of a date, or (`long`) of a date and the time of day.
pub open spec fn format_of(long: bool) -> Seq<char> {
    if long {
        minute_format()
    } else {
        day_format()
    }
}

/// `chrono::Local.timestamp_millis_opt(ms).single()` formatted with `fmt`: the
/// local date and time of the epoch-ms timestamp `ms`. Claimed, from chrono's
/// source: it is `Some` exactly when chrono represents `ms`; the text is a
/// date (month 1..=12, day 1..=31), with the longer format also an hour
/// (0..=23) and a minute (0..=59), written as `%Y`, `%m`, `%d`, `%H`, `%M`
/// write them (zero-padded); and since a local time is the UTC time moved by
/// the zone's offset (a whole number of seconds strictly within a day), the
/// text is what chrono writes for the UTC time of `ms` moved by that offset,
/// whenever chrono represents the moved timestamp. Which offset applies
/// depends on the machine's time zone and is not stated.
#[verifier::external_body]
fn local_time_text(ms: i64, fmt: &str) -> (r: Option<String>)
    requires
        fmt@ == day_format() || fmt@ == minute_format(),
    ensures
        r is Some <==> chrono_millis_ok(ms as int),
        r matches Some(t) ==> (fmt@ == day_format() ==> is_date_text(t@)) && (fmt@
            == minute_format() ==> is_minute_text(t@)),
        r matches Some(t) ==> exists|o: int|
            -86400 < o < 86400 && (i64::MIN <= #[trigger] shifted_ms(ms as int, o) <= i64::MAX
                && chrono_millis_ok(shifted_ms(ms as int, o)) ==> t@ == chrono_utc_text(
                shifted_ms(ms as int, o),
                fmt@,
            )),
{
    match chrono::Local.timestamp_millis_opt(ms).single() {
        Some(dt) => Some(dt.format(fmt).to_string()),
        None => None,
    }
}

proof fn lemma_date_text_long(y: int, m: int, d: int)
    ensures
        date_text(y, m, d).len() >= 10,
{
    assert(year_text(y).len() >= 4);
}

/// A text in one of the two formats is never the fallback `?`.
proof fn lemma_formatted_not_fallback(t: Seq<char>, long: bool)
    requires
        if long {
            is_minute_text(t)
        } else {
            is_date_text(t)
        },
    ensures
        t != "?"@,
{
    reveal_strlit("?");
    assert("?"@.len() == 1);
    if long {
        let (y, m, d, h, mi) = choose|y: int, m: int, d: int, h: int, mi: int|
            1 <= m <= 12 && 1 <= d <= 31 && 0 <= h <= 23 && 0 <= mi <= 59 && t
                == #[trigger] minute_text(y, m, d, h, mi);
        lemma_date_text_long(y, m, d);
        assert(t.len() >= 10);
    } else {
        let (y, m, d) = choose|y: int, m: int, d: int|
            1 <= m <= 12 && 1 <= d <= 31 && t == #[trigger] date_text(y, m, d);
        lemma_date_text_long(y, m, d);
        assert(t.len() >= 10);
    }
}

/// Format an epoch-ms timestamp in local time: the date, or (`long`) the date
/// and the time of day; `?` when chrono does not represent the timestamp.
pub fn fmt_local(ms: i64, long: bool) -> (r: String)
    ensures
        !chrono_millis_ok(ms as int) ==> r@ == "?"@,
        chrono_millis_ok(ms as int) ==> r@ != "?"@ && if long {
            is_minute_text(r@)
        } else {
            is_date_text(r@)
        },
        chrono_millis_ok(ms as int) ==> exists|o: int|
            -86400 < o < 86400 && (i64::MIN <= #[trigger] shifted_ms(ms as int, o) <= i64::MAX
                && chrono_millis_ok(shifted_ms(ms as int, o)) ==> r@ == chrono_utc_text(
                shifted_ms(ms as int, o),
                format_of(long),
            )),
{
    let text = if long {
        local_time_text(ms, "%Y-%m-%d @ %H:%M")
    } else {
        local_time_text(ms, "%Y-%m-%d")
    };
    proof {
        if text is Some {
            lemma_formatted_not_fallback(text->0@, long);
        }
    }
    local_or_unknown(text)
}

/// The text of a local time, or `?` when the time zone gave none.
pub fn local_or_unknown(text: Option<String>) -> (r: String)
    ensures
        r@ == match text {
            Some(t) => t@,
            None => "?"@,
        },
{
    match text {
        Some(t) => t,
        None => String::from_str("?"),
    }
}

} // verus!

verus! {

/// One history row before its date, interval and duration are written out.
pub struct HistoryEntry {
    /// Review time, epoch ms.
    pub at: i64,
    pub kind: ReviewKind,
    pub rating: i64,
    pub interval: Cell,
    /// Time taken, ms.
    pub time: i64,
}

/// The popup's rows and history, newest review first.
pub struct StatsPlan {
    pub rows: Vec<(String, Cell)>,
    pub history: Vec<HistoryEntry>,
}

/// AnkiConnect's `queue` value for a card in the review (graduated) queue.
pub const REVIEW_QUEUE: i64 = 2;

/// Milliseconds in a day, for projecting a due date from a review timestamp.
pub const MS_PER_DAY: i64 = 86400000;

/// Sum of the review times of `revs`.
pub open spec fn total_time(revs: Seq<ReviewEntry>) -> int
    decreases revs.len(),
{
    if revs.len() == 0 {
        0
    } else {
        total_time(revs.drop_last()) + revs.last().time
    }
}

pub open spec fn in_i64(x: int) -> bool {
    i64::MIN <= x <= i64::MAX
}

/// Every running total of the review times fits in an `i64`.
pub open spec fn totals_fit(revs: Seq<ReviewEntry>) -> bool {
    forall|k: int| 0 <= k <= revs.len() ==> in_i64(#[trigger] total_time(revs.take(k)))
}

/// Integer division rounding toward zero, as Rust's `/` does.
pub open spec fn trunc_div(a: int, b: int) -> int {
    if a >= 0 {
        a / b
    } else {
        -((-a) / b)
    }
}

/// The due date is shown: the card is in the review queue with a positive
/// interval and has been reviewed.
pub open spec fn shows_due(info: CardInfo, revs: Seq<ReviewEntry>) -> bool {
    revs.len() > 0 && info.queue == REVIEW_QUEUE && info.interval > 0
}

pub open spec fn due_ms(info: CardInfo, revs: Seq<ReviewEntry>) -> int {
    revs.last().id + info.interval * MS_PER_DAY
}

/// The arithmetic of the popup stays within `i64` (else the computation
/// would overflow, and the popup is not built).
pub open spec fn stats_fit(info: CardInfo, revs: Seq<ReviewEntry>) -> bool {
    &&& totals_fit(revs)
    &&& shows_due(info, revs) ==> in_i64(info.interval * MS_PER_DAY) && in_i64(due_ms(info, revs))
    &&& forall|k: int| 0 <= k < revs.len() ==> #[trigger] revs[k].ivl > i64::MIN
}

/// The label/value rows of the popup, for reviews sorted oldest first.
pub open spec fn stat_rows(card_id: i64, info: CardInfo, revs: Seq<ReviewEntry>) -> Seq<
    (Seq<char>, CellView),
> {
    let n = revs.len();
    let total = total_time(revs);
    seq![("Added"@, CellView::Date(info.note, false))] + (if n > 0 {
        seq![("First Review"@, CellView::Date(revs[0].id, false))]
    } else {
        seq![]
    }) + (if n > 0 {
        seq![("Latest Review"@, CellView::Date(revs.last().id, false))]
    } else {
        seq![]
    }) + (if shows_due(info, revs) {
        seq![("Due"@, CellView::Date(due_ms(info, revs) as i64, false))]
    } else {
        seq![]
    }) + seq![("Interval"@, days_cell(info.interval))] + (if info.factor > 0 {
        seq![("Ease"@, CellView::Text(decimal(info.factor / 10) + "%"@))]
    } else {
        seq![]
    }) + seq![
        ("Reviews"@, CellView::Text(decimal(info.reps as int))),
        ("Lapses"@, CellView::Text(decimal(info.lapses as int))),
    ] + (if n > 0 {
        seq![
            ("Average Time"@, CellView::Duration(trunc_div(total, n as int) as i64, true)),
            ("Total Time"@, CellView::Duration(total as i64, true)),
        ]
    } else {
        seq![]
    }) + seq![
        ("Note Type"@, CellView::Text(info.model_name@)),
        ("Deck"@, CellView::Text(info.deck_name@)),
        ("Card ID"@, CellView::Text(decimal(card_id as int))),
        ("Note ID"@, CellView::Text(decimal(info.note as int))),
    ]
}

pub open spec fn row_views(rows: Seq<(String, Cell)>) -> Seq<(Seq<char>, CellView)> {
    rows.map_values(|r: (String, Cell)| (r.0@, r.1@))
}

/// The history line for one review.
pub open spec fn history_line(r: ReviewEntry) -> (i64, ReviewKind, i64, CellView, i64) {
    (r.id, kind_of(r.kind), r.ease, revlog_cell(r.ivl), r.time)
}

pub open spec fn history_views(h: Seq<HistoryEntry>) -> Seq<(i64, ReviewKind, i64, CellView, i64)> {
    h.map_values(|e: HistoryEntry| (e.at, e.kind, e.rating, e.interval@, e.time))
}

fn push_row(rows: &mut Vec<(String, Cell)>, label: &str, cell: Cell)
    ensures
        row_views(final(rows)@) == row_views(old(rows)@).push((label@, cell@)),
{
    let ghost before = row_views(rows@);
    let l = String::from_str(label);
    let ghost cv = cell@;
    rows.push((l, cell));
    assert(row_views(rows@) =~= before.push((label@, cv)));
}

/// `a / n` rounded toward zero, for a positive count `n`.
fn trunc_div_i64(a: i64, n: usize) -> (r: i64)
    requires
        n > 0,
    ensures
        r == trunc_div(a as int, n as int),
{
    let d = n as u64;
    if a >= 0 {
        ((a as u64) / d) as i64
    } else {
        let m: u64 = (-(a as i128)) as u64;
        let q: u64 = m / d;
        (-(q as i128)) as i64
    }
}

fn text_cell(n: i64) -> (r: Cell)
    ensures
        r@ == CellView::Text(decimal(n as int)),
{
    Cell::Text(decimal_string(n))
}

/// The rows and history of the card-info popup for card `card_id`: reviews are
/// sorted by time, the rows are as [`stat_rows`] lists them, and the history has
/// one line per review, newest first. `None` exactly when the arithmetic would
/// overflow an `i64` (see [`stats_fit`]).
pub fn stats_plan(card_id: i64, info: CardInfo, reviews: Vec<ReviewEntry>) -> (r: Option<
    StatsPlan,
>)
    ensures
        r is Some == stats_fit(info, sort_by_key(reviews@)),
        r matches Some(p) ==> {
            &&& row_views(p.rows@) == stat_rows(card_id, info, sort_by_key(reviews@))
            &&& history_views(p.history@) == sort_by_key(reviews@).reverse().map_values(
                |e: ReviewEntry| history_line(e),
            )
        },
{
    let ghost input = reviews@;
    let revs = sort_stable(reviews);
    let ghost rs = revs@;
    assert(rs == sort_by_key(input));
    let n = revs.len();
    // Running total of the review times, failing where it would overflow.
    let mut total: i64 = 0;
    let mut i: usize = 0;
    while i < n
        invariant
            n == rs.len(),
            rs == revs@,
            rs == sort_by_key(input),
            input == reviews@,
            i <= n,
            total == total_time(rs.take(i as int)),
            forall|k: int| 0 <= k <= i ==> in_i64(#[trigger] total_time(rs.take(k))),
        decreases n - i,
    {
        assert(rs.take(i + 1).drop_last() =~= rs.take(i as int));
        assert(rs.take(i + 1).last() == rs[i as int]);
        match total.checked_add(revs[i].time) {
            Some(t) => total = t,
            None => {
                assert(!in_i64(total_time(rs.take(i + 1))));
                assert(!totals_fit(rs));
                assert(!stats_fit(info, rs));
                return None;
            },
        }
        i += 1;
    }
    assert(rs.take(n as int) =~= rs);
    let mut due: Option<i64> = None;
    if n > 0 && info.queue == REVIEW_QUEUE && info.interval > 0 {
        let span = match info.interval.checked_mul(MS_PER_DAY) {
            Some(s) => s,
            None => return None,
        };
        match revs[n - 1].id.checked_add(span) {
            Some(d) => due = Some(d),
            None => return None,
        }
    }
    let mut k: usize = 0;
    while k < n
        invariant
            n == rs.len(),
            rs == revs@,
            rs == sort_by_key(input),
            input == reviews@,
            k <= n,
            forall|q: int| 0 <= q < k ==> #[trigger] rs[q].ivl > i64::MIN,
        decreases n - k,
    {
        if revs[k].ivl == i64::MIN {
            assert(rs[k as int].ivl == i64::MIN);
            assert(!stats_fit(info, rs));
            return None;
        }
        k += 1;
    }
    let mut rows: Vec<(String, Cell)> = Vec::new();
    push_row(&mut rows, "Added", Cell::Date(info.note, false));
    if n > 0 {
        push_row(&mut rows, "First Review", Cell::Date(revs[0].id, false));
        push_row(&mut rows, "Latest Review", Cell::Date(revs[n - 1].id, false));
        if let Some(d) = due {
            push_row(&mut rows, "Due", Cell::Date(d, false));
        }
    }
    push_row(&mut rows, "Interval", fmt_days(info.interval));
    if info.factor > 0 {
        let mut s = decimal_string(info.factor / 10);
        s.append("%");
        push_row(&mut rows, "Ease", Cell::Text(s));
    }
    push_row(&mut rows, "Reviews", text_cell(info.reps));
    push_row(&mut rows, "Lapses", text_cell(info.lapses));
    if n > 0 {
        let avg = trunc_div_i64(total, n);
        push_row(&mut rows, "Average Time", Cell::Duration(avg, true));
        push_row(&mut rows, "Total Time", Cell::Duration(total, true));
    }
    let CardInfo { deck_name, model_name, note, .. } = info;
    push_row(&mut rows, "Note Type", Cell::Text(model_name));
    push_row(&mut rows, "Deck", Cell::Text(deck_name));
    push_row(&mut rows, "Card ID", text_cell(card_id));
    push_row(&mut rows, "Note ID", text_cell(note));
    assert(row_views(rows@) =~= stat_rows(card_id, info, rs));
    // Newest review first, as Anki shows it.
    let mut history: Vec<HistoryEntry> = Vec::new();
    let mut j: usize = n;
    while j > 0
        invariant
            n == rs.len(),
            rs == revs@,
            j <= n,
            forall|q: int| 0 <= q < n ==> #[trigger] rs[q].ivl > i64::MIN,
            history_views(history@) == rs.subrange(j as int, n as int).reverse().map_values(
                |e: ReviewEntry| history_line(e),
            ),
        decreases j,
    {
        j -= 1;
        let e = revs[j];
        let ghost before = history_views(history@);
        history.push(
            HistoryEntry {
                at: e.id,
                kind: ReviewKind::from_code(e.kind),
                rating: e.ease,
                interval: fmt_revlog_ivl(e.ivl),
                time: e.time,
            },
        );
        assert(rs.subrange(j as int, n as int).reverse() =~= rs.subrange(j + 1, n as int).reverse().push(rs[j as int]));
        assert(history_views(history@) =~= before.push(history_line(rs[j as int])));
    }
    assert(rs.subrange(0, n as int) =~= rs);
    Some(StatsPlan { rows, history })
}

} // verus!
