//! Records exchanged with the AnkiConnect add-on, and the decisions made on
//! its replies.

use std::collections::HashMap;

use base64::Engine;

use vstd::prelude::*;

use vstd::utf8::encode_utf8;

use crate::sort::{sort_by_key, sort_stable, SortKey};
use crate::text::{contains_seq, contains_str, push_str};

verus! {

/// New / learning / review (due) counts for a deck, as shown in Anki's overview.
#[derive(Debug, Clone, Copy)]
pub struct DeckCounts {
    pub new: u32,
    pub learn: u32,
    pub review: u32,
}

impl Default for DeckCounts {
    fn default() -> (r: Self)
        ensures
            r.new == 0 && r.learn == 0 && r.review == 0,
    {
        DeckCounts { new: 0, learn: 0, review: 0 }
    }
}

/// The current card shown in Anki's GUI review screen (`guiCurrentCard`).
#[derive(Debug)]
pub struct CurrentCard {
    pub question: String,
    pub answer: String,
    pub card_id: i64,
    /// Ease values that have a grading button (e.g. `[1, 3]` or `[1, 2, 3, 4]`).
    pub buttons: Vec<i64>,
    /// Next-interval preview labels aligned with `buttons` (e.g. `["<1m", "10m"]`).
    pub next_reviews: Vec<String>,
    /// Raw note fields keyed by name. Unlike the rendered `question`/`answer`
    /// HTML (where Anki replaces `[sound:...]` with replay buttons), these still
    /// carry the unrendered `[sound:...]` tokens, so they are the only reliable
    /// source of audio filenames.
    pub fields: HashMap<String, Field>,
}

/// One note field value from `guiCurrentCard`.
#[derive(Debug)]
pub struct Field {
    pub value: String,
    pub order: i64,
}

/// Scheduling metadata for a single card (subset of `cardsInfo`).
#[derive(Debug)]
pub struct CardInfo {
    pub deck_name: String,
    pub model_name: String,
    /// Note id, which also encodes the note's creation time (epoch ms).
    pub note: i64,
    /// SM-2 ease factor in permille (2500 = 250%); 0 under FSRS.
    pub factor: i64,
    /// Current interval in days.
    pub interval: i64,
    /// Total reviews.
    pub reps: i64,
    /// Times the card lapsed (forgotten after graduating).
    pub lapses: i64,
    /// Scheduling queue (2 = review).
    pub queue: i64,
}

/// One revlog entry for a card (`getReviewsOfCards`).
#[derive(Debug, Clone, Copy)]
pub struct ReviewEntry {
    /// Review time, epoch ms.
    pub id: i64,
    /// Button pressed: 1 (Again) .. 4 (Easy).
    pub ease: i64,
    /// New interval: negative = seconds, positive = days.
    pub ivl: i64,
    /// Time taken, ms.
    pub time: i64,
    /// 0 = learn, 1 = review, 2 = relearn, 3 = filtered/cram.
    pub kind: i64,
}

impl SortKey for Field {
    open spec fn key_le(&self, other: &Self) -> bool {
        self.order <= other.order
    }

    fn le(&self, other: &Self) -> (r: bool) {
        self.order <= other.order
    }

    proof fn lemma_total(a: &Self, b: &Self) {
    }
}

impl SortKey for ReviewEntry {
    open spec fn key_le(&self, other: &Self) -> bool {
        self.id <= other.id
    }

    fn le(&self, other: &Self) -> (r: bool) {
        self.id <= other.id
    }

    proof fn lemma_total(a: &Self, b: &Self) {
    }
}

/// The words AnkiConnect's error carries when the GUI review screen has closed.
/// The message of an error that AnkiConnect reports for `action`.
pub open spec fn action_error_text(action: Seq<char>, err: Seq<char>) -> Seq<char> {
    "AnkiConnect error for `"@ + action + "`: "@ + err
}

/// What the `error` field of an AnkiConnect reply to `action` means: no
/// error when it is absent, else a failure with the message naming the action.
pub fn reply_error(action: &str, error: Option<String>) -> (r: Option<String>)
    ensures
        match error {
            None => r is None,
            Some(e) => r matches Some(m) && m@ == action_error_text(action@, e@),
        },
{
    match error {
        None => None,
        Some(e) => {
            let mut m = String::new();
            push_str(&mut m, "AnkiConnect error for `");
            push_str(&mut m, action);
            push_str(&mut m, "`: ");
            push_str(&mut m, e.as_str());
            Some(m)
        },
    }
}

pub open spec fn inactive_words() -> Seq<char> {
    "Gui review is not currently active"@
}

/// Whether an AnkiConnect error says that the GUI review screen is not active. When
/// the last card is graded Anki leaves the review screen (showing its own congrats
/// screen), so `guiCurrentCard` errors instead of returning null; such an
/// error means "no card left" rather than a failure.
pub fn review_inactive(message: &str) -> (r: bool)
    ensures
        r == contains_seq(message@, inactive_words()),
{
    contains_str(message, "Gui review is not currently active")
}

/// `parts` joined with `sep` between consecutive parts.
pub open spec fn join(parts: Seq<Seq<char>>, sep: Seq<char>) -> Seq<char>
    decreases parts.len(),
{
    if parts.len() == 0 {
        seq![]
    } else if parts.len() == 1 {
        parts[0]
    } else {
        join(parts.drop_last(), sep) + sep + parts.last()
    }
}

pub open spec fn field_values(fields: Seq<Field>) -> Seq<Seq<char>> {
    fields.map_values(|f: Field| f.value@)
}

/// The raw note fields joined in the note's field order, one per line: the
/// text in which a card's `[sound:...]` references survive.
pub fn field_html(fields: Vec<Field>) -> (r: String)
    ensures
        r@ == join(field_values(sort_by_key(fields@)), seq!['\n']),
{
    let sorted = sort_stable(fields);
    let ghost vals = field_values(sorted@);
    let mut r = String::new();
    let mut i: usize = 0;
    while i < sorted.len()
        invariant
            i <= sorted@.len(),
            vals == field_values(sorted@),
            r@ == join(vals.take(i as int), seq!['\n']),
        decreases sorted@.len() - i,
    {
        let ghost before = r@;
        if i > 0 {
            r.push('\n');
        }
        push_str(&mut r, sorted[i].value.as_str());
        assert(vals.take(i + 1).drop_last() =~= vals.take(i as int));
        if i > 0 {
            assert(r@ =~= before + seq!['\n'] + vals[i as int]);
        } else {
            assert(r@ =~= vals.take(1)[0]);
        }
        i += 1;
    }
    assert(vals.take(i as int) =~= vals);
    r
}

/// What `retrieveMediaFile` may answer.
pub enum MediaReply {
    /// `false`: the file does not exist.
    Missing,
    /// A string: the file's bytes in standard base64.
    Encoded(String),
    /// Anything else.
    Other,
}

/// The bytes that standard base64 (with padding) decodes `data` to, or `None`
/// when `data` is not valid standard base64.
pub uninterp spec fn base64_standard(data: Seq<u8>) -> Option<Seq<u8>>;

pub open spec fn opt_bytes(o: Option<Vec<u8>>) -> Option<Seq<u8>> {
    match o {
        Some(v) => Some(v@),
        None => None,
    }
}

/// `base64::engine::general_purpose::STANDARD.decode`: the bytes that `data`
/// encodes in the standard alphabet with padding, or `None` when it is not
/// valid base64 of that kind. Its result depends on `data` alone.
#[verifier::external_body]
fn decode_base64(data: &[u8]) -> (r: Option<Vec<u8>>)
    ensures
        opt_bytes(r) == base64_standard(data@),
{
    match base64::engine::general_purpose::STANDARD.decode(data) {
        Ok(bytes) => Some(bytes),
        Err(_) => None,
    }
}

/// The error for a media reply that is not valid base64.
pub open spec fn bad_base64_message() -> Seq<char> {
    "media file was not valid base64"@
}

/// A media file's bytes from a `retrieveMediaFile` reply: `None` when the file
/// is missing (or the reply is neither `false` nor a string), the decoded
/// bytes for a string, and an error when that string is not valid base64.
pub fn media_bytes(reply: MediaReply) -> (r: Result<Option<Vec<u8>>, String>)
    ensures
        match reply {
            MediaReply::Encoded(s) => match base64_standard(encode_utf8(s@)) {
                Some(b) => r matches Ok(Some(v)) && v@ == b,
                None => r matches Err(e) && e@ == bad_base64_message(),
            },
            _ => r matches Ok(None),
        },
{
    match reply {
        MediaReply::Encoded(s) => match decode_base64(s.as_str().as_bytes()) {
            Some(b) => Ok(Some(b)),
            None => Err(String::from_str("media file was not valid base64")),
        },
        _ => Ok(None),
    }
}

} // verus!
