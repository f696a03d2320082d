//! Scanning card HTML: `[sound:...]` references, `<img>` tags and `<hr>` rules,
//! and rendering its text to styled lines.

use html2text::render::{RichAnnotation as Rich, TaggedLineElement as Element};
use image::GenericImageView;
use vstd::prelude::*;
use vstd::utf8::encode_utf8;

use crate::text::{
    all_white, chars_of, find_from, find_seq, is_blank, is_white_space, is_whitespace,
    lemma_find_from, lemma_find_shift, lower_chars, lower_seq, matches_at, matches_here, string_of,
};

verus! {

/// The opening of an audio reference, `[sound:`.
pub open spec fn sound_open() -> Seq<char> {
    seq!['[', 's', 'o', 'u', 'n', 'd', ':']
}

pub open spec fn one(c: char) -> Seq<char> {
    seq![c]
}

/// Filenames of the `[sound:name]` tokens of `s` found scanning from `i`:
/// each token runs from `[sound:` to the next `]`; an unclosed token ends the scan.
pub open spec fn audio_names_from(s: Seq<char>, i: int) -> Seq<Seq<char>>
    decreases s.len() - i,
{
    if i < 0 || i > s.len() {
        seq![]
    } else {
        let st = find_from(s, sound_open(), i);
        if st < 0 {
            seq![]
        } else {
            let e = find_from(s, one(']'), st + 7);
            if e < 0 {
                seq![]
            } else {
                proof {
                    lemma_find_from(s, sound_open(), i);
                    lemma_find_from(s, one(']'), st + 7);
                }
                seq![s.subrange(st + 7, e)] + audio_names_from(s, e + 1)
            }
        }
    }
}

pub open spec fn audio_names(s: Seq<char>) -> Seq<Seq<char>> {
    audio_names_from(s, 0)
}

pub open spec fn views(v: Seq<String>) -> Seq<Seq<char>> {
    v.map_values(|x: String| x@)
}

/// Pull filenames out of `[sound:filename]` tokens.
pub fn extract_audio(html: &str) -> (out: Vec<String>)
    ensures
        views(out@) == audio_names(html@),
{
    let s = chars_of(html);
    let open = ['[', 's', 'o', 'u', 'n', 'd', ':'];
    let close = [']'];
    assert(open@ =~= sound_open());
    assert(close@ =~= one(']'));
    let mut out: Vec<String> = Vec::new();
    let mut pos: usize = 0;
    let n = s.len();
    loop
        invariant
            n == s@.len(),
            pos <= s@.len(),
            s@ == html@,
            open@ == sound_open(),
            close@ == one(']'),
            views(out@) + audio_names_from(s@, pos as int) == audio_names(s@),
        ensures
            views(out@) == audio_names(s@),
        decreases s@.len() + 1 - pos,
    {
        let Some(start) = find_seq(&s, &open, pos) else {
            assert(views(out@) =~= views(out@) + audio_names_from(s@, pos as int));
            break;
        };
        proof {
            lemma_find_from(s@, sound_open(), pos as int);
        }
        let Some(end) = find_seq(&s, &close, start + 7) else {
            assert(views(out@) =~= views(out@) + audio_names_from(s@, pos as int));
            break;
        };
        proof {
            lemma_find_from(s@, one(']'), start + 7);
        }
        let name = string_of(&s, start + 7, end);
        let ghost before = views(out@);
        out.push(name);
        assert(views(out@) =~= before.push(name@));
        assert(views(out@) + audio_names_from(s@, end + 1) =~= before + audio_names_from(s@, pos as int));
        pos = end + 1;
    }
    out
}

} // verus!

verus! {

/// `s` from `i` on with every `[sound:...]` token removed; a token with no
/// closing `]` swallows the rest of the text.
pub open spec fn strip_sound_from(s: Seq<char>, i: int) -> Seq<char>
    decreases s.len() - i,
{
    if i < 0 || i > s.len() {
        seq![]
    } else {
        let st = find_from(s, sound_open(), i);
        if st < 0 {
            s.subrange(i, s.len() as int)
        } else {
            let e = find_from(s, one(']'), st);
            if e < 0 {
                s.subrange(i, st)
            } else {
                proof {
                    lemma_find_from(s, sound_open(), i);
                    lemma_find_from(s, one(']'), st);
                }
                s.subrange(i, st) + strip_sound_from(s, e + 1)
            }
        }
    }
}

/// The opening of an image tag, `<img` (matched without regard to ASCII case).
pub open spec fn img_open() -> Seq<char> {
    seq!['<', 'i', 'm', 'g']
}

/// `s` from `i` on with every `<img ...>` tag removed; an unclosed tag swallows
/// the rest of the text.
pub open spec fn strip_img_from(s: Seq<char>, i: int) -> Seq<char>
    decreases s.len() - i,
{
    if i < 0 || i >= s.len() {
        seq![]
    } else if matches_at(lower_seq(s), i, img_open()) {
        let e = find_from(s, one('>'), i);
        if e < 0 {
            seq![]
        } else {
            proof {
                lemma_find_from(s, one('>'), i);
            }
            strip_img_from(s, e + 1)
        }
    } else {
        seq![s[i]] + strip_img_from(s, i + 1)
    }
}

/// The text of `s` without its `[sound:...]` tokens and `<img>` tags.
pub open spec fn strip_media(s: Seq<char>) -> Seq<char> {
    strip_img_from(strip_sound_from(s, 0), 0)
}

fn strip_sound_chars(s: &Vec<char>) -> (t: Vec<char>)
    ensures
        t@ == strip_sound_from(s@, 0),
{
    let open = ['[', 's', 'o', 'u', 'n', 'd', ':'];
    let close = [']'];
    assert(open@ =~= sound_open());
    assert(close@ =~= one(']'));
    let mut t: Vec<char> = Vec::new();
    let mut pos: usize = 0;
    let n = s.len();
    loop
        invariant_except_break
            t@ + strip_sound_from(s@, pos as int) == strip_sound_from(s@, 0),
        invariant
            n == s@.len(),
            pos <= s@.len(),
            open@ == sound_open(),
            close@ == one(']'),
        ensures
            t@ == strip_sound_from(s@, 0),
        decreases s@.len() + 1 - pos,
    {
        let start = match find_seq(s, &open, pos) {
            Some(st) => st,
            None => {
                let ghost before = t@;
                let mut k = pos;
                while k < n
                    invariant
                        pos <= k <= n,
                        n == s@.len(),
                        t@ == before + s@.subrange(pos as int, k as int),
                    decreases n - k,
                {
                    t.push(s[k]);
                    assert(s@.subrange(pos as int, k + 1) =~= s@.subrange(pos as int, k as int).push(s@[k as int]));
                    k += 1;
                }
                assert(strip_sound_from(s@, pos as int) == s@.subrange(pos as int, n as int));
                break;
            },
        };
        proof {
            lemma_find_from(s@, sound_open(), pos as int);
        }
        let ghost before = t@;
        let mut k = pos;
        while k < start
            invariant
                pos <= k <= start <= n,
                n == s@.len(),
                t@ == before + s@.subrange(pos as int, k as int),
            decreases start - k,
        {
            t.push(s[k]);
            assert(s@.subrange(pos as int, k + 1) =~= s@.subrange(pos as int, k as int).push(s@[k as int]));
            k += 1;
        }
        match find_seq(s, &close, start) {
            Some(end) => {
                proof {
                    lemma_find_from(s@, one(']'), start as int);
                }
                assert(t@ + strip_sound_from(s@, end + 1) =~= before + strip_sound_from(s@, pos as int));
                pos = end + 1;
            },
            None => {
                assert(t@ =~= before + strip_sound_from(s@, pos as int));
                break;
            },
        }
    }
    t
}

/// Remove media tokens that would otherwise show up as stray text:
/// `[sound:...]` references and `<img>` tags (images are drawn separately).
pub fn strip_media_tokens(html: &str) -> (out: String)
    ensures
        out@ == strip_media(html@),
{
    let s0 = chars_of(html);
    let s = strip_sound_chars(&s0);
    let lower = lower_chars(&s);
    let open = ['<', 'i', 'm', 'g'];
    let close = ['>'];
    assert(open@ =~= img_open());
    assert(close@ =~= one('>'));
    let mut out = String::new();
    let mut i: usize = 0;
    let n = s.len();
    while i < n
        invariant
            n == s@.len(),
            i <= n,
            lower@ == lower_seq(s@),
            open@ == img_open(),
            close@ == one('>'),
            out@ + strip_img_from(s@, i as int) == strip_img_from(s@, 0),
        decreases n - i,
    {
        if matches_here(&lower, i, &open) {
            match find_seq(&s, &close, i) {
                Some(end) => {
                    proof {
                        lemma_find_from(s@, one('>'), i as int);
                    }
                    i = end + 1;
                    continue;
                },
                None => {
                    assert(out@ =~= out@ + strip_img_from(s@, i as int));
                    assert(strip_img_from(s@, n as int) =~= Seq::<char>::empty());
                    assert(out@ + strip_img_from(s@, n as int) =~= out@);
                    i = n;
                    continue;
                },
            }
        }
        let ghost before = out@;
        out.push(s[i]);
        assert(out@ + strip_img_from(s@, i + 1) =~= before + strip_img_from(s@, i as int));
        i += 1;
    }
    assert(strip_img_from(s@, i as int) =~= Seq::<char>::empty());
    out
}

} // verus!

verus! {

/// The opening of a horizontal rule, `<hr` (matched without regard to ASCII case).
pub open spec fn hr_open() -> Seq<char> {
    seq!['<', 'h', 'r']
}

/// A rule tag starts at `i`: `<hr` followed by the end of the text, `>`, `/`
/// or white space, and closed by a later `>`.
pub open spec fn hr_at(s: Seq<char>, i: int) -> bool {
    let lower = lower_seq(s);
    &&& matches_at(lower, i, hr_open())
    &&& (i + 3 >= s.len() || lower[i + 3] == '>' || lower[i + 3] == '/' || is_white_space(
        lower[i + 3],
    ))
    &&& find_from(s, one('>'), i) >= 0
}

/// The pieces of `s` between rule tags, scanning from `i` with the current
/// piece starting at `start`.
pub open spec fn hr_pieces_from(s: Seq<char>, start: int, i: int) -> Seq<Seq<char>>
    decreases s.len() - i,
{
    if i < 0 || i >= s.len() {
        seq![s.subrange(start, s.len() as int)]
    } else if hr_at(s, i) {
        let e = find_from(s, one('>'), i);
        proof {
            lemma_find_from(s, one('>'), i);
        }
        seq![s.subrange(start, i)] + hr_pieces_from(s, e + 1, e + 1)
    } else {
        hr_pieces_from(s, start, i + 1)
    }
}

pub open spec fn hr_pieces(s: Seq<char>) -> Seq<Seq<char>> {
    hr_pieces_from(s, 0, 0)
}

/// Split HTML on `<hr ...>` tags. Returns the text between (and around) the
/// rules, so the caller can draw a separator between them.
pub fn split_on_hr(html: &str) -> (out: Vec<String>)
    ensures
        views(out@) == hr_pieces(html@),
{
    let s = chars_of(html);
    let lower = lower_chars(&s);
    let open = ['<', 'h', 'r'];
    let close = ['>'];
    assert(open@ =~= hr_open());
    assert(close@ =~= one('>'));
    let mut out: Vec<String> = Vec::new();
    let mut start: usize = 0;
    let mut i: usize = 0;
    let n = s.len();
    while i < n
        invariant
            n == s@.len(),
            start <= i <= n,
            s@ == html@,
            lower@ == lower_seq(s@),
            open@ == hr_open(),
            close@ == one('>'),
            views(out@) + hr_pieces_from(s@, start as int, i as int) == hr_pieces(s@),
        decreases n - i,
    {
        if matches_here(&lower, i, &open) {
            let boundary = i + 3 >= n || lower[i + 3] == '>' || lower[i + 3] == '/'
                || is_whitespace(lower[i + 3]);
            if boundary {
                if let Some(end) = find_seq(&s, &close, i) {
                    proof {
                        lemma_find_from(s@, one('>'), i as int);
                    }
                    let piece = string_of(&s, start, i);
                    let ghost before = views(out@);
                    out.push(piece);
                    assert(views(out@) =~= before.push(piece@));
                    assert(views(out@) + hr_pieces_from(s@, end + 1, end + 1) =~= before
                        + hr_pieces_from(s@, start as int, i as int));
                    i = end + 1;
                    start = i;
                    continue;
                }
            }
        }
        i += 1;
    }
    let last = string_of(&s, start, n);
    let ghost before = views(out@);
    out.push(last);
    assert(views(out@) =~= before + hr_pieces_from(s@, start as int, i as int));
    out
}

/// Index of the first white-space or `>` character of `s` at or after `i`,
/// or the length of `s` when there is none.
pub open spec fn value_end_from(s: Seq<char>, i: int) -> int
    decreases s.len() - i,
{
    if i < 0 || i >= s.len() {
        s.len() as int
    } else if is_white_space(s[i]) || s[i] == '>' {
        i
    } else {
        value_end_from(s, i + 1)
    }
}

/// The value of attribute `attr` in the tag text `tag`: the key `attr=` is
/// found without regard to ASCII case, and the value is either quoted with `"`
/// or `'` (and must be closed) or runs to the next white space or `>`.
pub open spec fn attr_value_of(tag: Seq<char>, attr: Seq<char>) -> Option<Seq<char>> {
    let key = attr.push('=');
    let f = find_from(lower_seq(tag), key, 0);
    if f < 0 {
        None
    } else {
        let rest = tag.skip(f + key.len());
        if rest.len() == 0 {
            None
        } else if rest[0] == '"' || rest[0] == '\'' {
            let inner = rest.skip(1);
            let e = find_from(inner, one(rest[0]), 0);
            if e < 0 {
                None
            } else {
                Some(inner.take(e))
            }
        } else {
            Some(rest.take(value_end_from(rest, 0)))
        }
    }
}

pub open spec fn opt_view(o: Option<String>) -> Option<Seq<char>> {
    match o {
        Some(s) => Some(s@),
        None => None,
    }
}

/// Read a quoted attribute value (e.g. `src="foo.jpg"`) from a tag substring.
pub fn attr_value(tag: &str, attr: &str) -> (r: Option<String>)
    ensures
        opt_view(r) == attr_value_of(tag@, attr@),
{
    let t = chars_of(tag);
    let lower = lower_chars(&t);
    let mut key = chars_of(attr);
    key.push('=');
    let ghost k = attr@.push('=');
    assert(key@ =~= k);
    let n = t.len();
    let f = find_seq(&lower, key.as_slice(), 0)?;
    proof {
        lemma_find_from(lower@, k, 0);
    }
    let idx = f + key.len();
    let ghost rest = t@.skip(idx as int);
    if idx >= n {
        assert(rest.len() == 0);
        return None;
    }
    let quote = t[idx];
    assert(rest[0] == quote);
    if quote == '"' || quote == '\'' {
        let q = [quote];
        let ghost inner = rest.skip(1);
        assert(inner =~= t@.skip(idx + 1));
        match find_seq(&t, &q, idx + 1) {
            Some(e) => {
                proof {
                    lemma_find_from(t@, q@, idx + 1);
                    lemma_find_shift(t@, q@, idx + 1);
                }
                assert(q@ =~= one(quote));
                let v = string_of(&t, idx + 1, e);
                assert(inner.take(e - idx - 1) =~= t@.subrange(idx + 1, e as int));
                Some(v)
            },
            None => {
                proof {
                    lemma_find_shift(t@, q@, idx + 1);
                }
                assert(q@ =~= one(quote));
                None
            },
        }
    } else {
        let mut e = idx;
        while e < n && !(is_whitespace(t[e]) || t[e] == '>')
            invariant
                idx <= e <= n,
                n == t@.len(),
                rest == t@.skip(idx as int),
                value_end_from(rest, 0) == value_end_from(rest, e - idx),
            decreases n - e,
        {
            e += 1;
        }
        let v = string_of(&t, idx, e);
        assert(rest.take(e - idx) =~= t@.subrange(idx as int, e as int));
        Some(v)
    }
}

} // verus!

verus! {

/// One renderable piece of a card side, kept in the order it appears in the
/// card HTML so images sit inline with the text rather than all at the bottom.
pub enum Block {
    /// HTML fragment (media tokens removed), rendered to styled text on demand.
    Text(String),
    /// Index into the side's decoded images.
    Image(usize),
}

pub enum BlockView {
    Text(Seq<char>),
    Image(usize),
}

impl View for Block {
    type V = BlockView;

    open spec fn view(&self) -> BlockView {
        match self {
            Block::Text(s) => BlockView::Text(s@),
            Block::Image(i) => BlockView::Image(*i),
        }
    }
}

pub open spec fn block_views(v: Seq<Block>) -> Seq<BlockView> {
    v.map_values(|b: Block| b@)
}

/// The text block a fragment contributes: its text without media tokens, or
/// nothing when only white space is left.
pub open spec fn text_block(html: Seq<char>) -> Seq<BlockView> {
    let cleaned = strip_media(html);
    if all_white(cleaned) {
        seq![]
    } else {
        seq![BlockView::Text(cleaned)]
    }
}

/// Strip media tokens from an HTML fragment and, if anything renderable is left,
/// append it as a [`Block::Text`].
pub fn push_text_block(blocks: &mut Vec<Block>, html: &str)
    ensures
        block_views(final(blocks)@) == block_views(old(blocks)@) + text_block(html@),
{
    let cleaned = strip_media_tokens(html);
    let c = chars_of(cleaned.as_str());
    let ghost before = block_views(blocks@);
    if !is_blank(&c) {
        blocks.push(Block::Text(cleaned));
        assert(block_views(blocks@) =~= before + text_block(html@));
    } else {
        assert(block_views(blocks@) =~= before + text_block(html@));
    }
}

/// An image tag starts at `i`: `<img` (any ASCII case) closed by a later `>`.
pub open spec fn img_tag_at(s: Seq<char>, i: int) -> bool {
    &&& matches_at(lower_seq(s), i, img_open())
    &&& find_from(s, one('>'), i) >= 0
}

/// The card HTML cut into text runs (`false`) and image tags (`true`), in
/// order; a text run comes before each tag and one more ends the sequence.
pub open spec fn segments_from(s: Seq<char>, start: int, i: int) -> Seq<(bool, Seq<char>)>
    decreases s.len() - i,
{
    if i < 0 || i >= s.len() {
        seq![(false, s.subrange(start, s.len() as int))]
    } else if img_tag_at(s, i) {
        let e = find_from(s, one('>'), i);
        proof {
            lemma_find_from(s, one('>'), i);
        }
        seq![(false, s.subrange(start, i)), (true, s.subrange(i, e + 1))] + segments_from(
            s,
            e + 1,
            e + 1,
        )
    } else {
        segments_from(s, start, i + 1)
    }
}

pub open spec fn segments(s: Seq<char>) -> Seq<(bool, Seq<char>)> {
    segments_from(s, 0, 0)
}

pub open spec fn src_attr() -> Seq<char> {
    seq!['s', 'r', 'c']
}

/// The `src` value of each image tag, in order.
pub open spec fn tag_sources(segs: Seq<(bool, Seq<char>)>) -> Seq<Option<Seq<char>>>
    decreases segs.len(),
{
    if segs.len() == 0 {
        seq![]
    } else if segs[0].0 {
        seq![attr_value_of(segs[0].1, src_attr())] + tag_sources(segs.drop_first())
    } else {
        tag_sources(segs.drop_first())
    }
}

/// Whether the `k`-th image tag was fetched and decoded.
pub open spec fn is_loaded(loaded: Seq<bool>, k: int) -> bool {
    0 <= k < loaded.len() && loaded[k]
}

/// The blocks of a card side: the text runs that keep something visible, and
/// one image block per image that loaded, numbered in order (`m` counts the
/// images placed so far, `k` the tags seen so far).
pub open spec fn blocks_of(segs: Seq<(bool, Seq<char>)>, loaded: Seq<bool>, k: int, m: int) -> Seq<
    BlockView,
>
    decreases segs.len(),
{
    if segs.len() == 0 {
        seq![]
    } else if segs[0].0 {
        if is_loaded(loaded, k) {
            seq![BlockView::Image(m as usize)] + blocks_of(segs.drop_first(), loaded, k + 1, m + 1)
        } else {
            blocks_of(segs.drop_first(), loaded, k + 1, m)
        }
    } else {
        text_block(segs[0].1) + blocks_of(segs.drop_first(), loaded, k, m)
    }
}

pub open spec fn seg_views(v: Seq<(bool, String)>) -> Seq<(bool, Seq<char>)> {
    v.map_values(|g: (bool, String)| (g.0, g.1@))
}

fn scan_segments(html: &str) -> (out: Vec<(bool, String)>)
    ensures
        seg_views(out@) == segments(html@),
{
    let s = chars_of(html);
    let lower = lower_chars(&s);
    let open = ['<', 'i', 'm', 'g'];
    let close = ['>'];
    assert(open@ =~= img_open());
    assert(close@ =~= one('>'));
    let mut out: Vec<(bool, String)> = Vec::new();
    let mut start: usize = 0;
    let mut i: usize = 0;
    let n = s.len();
    while i < n
        invariant
            n == s@.len(),
            start <= i <= n,
            s@ == html@,
            lower@ == lower_seq(s@),
            open@ == img_open(),
            close@ == one('>'),
            seg_views(out@) + segments_from(s@, start as int, i as int) == segments(s@),
        decreases n - i,
    {
        if matches_here(&lower, i, &open) {
            if let Some(end) = find_seq(&s, &close, i) {
                proof {
                    lemma_find_from(s@, one('>'), i as int);
                }
                let text = string_of(&s, start, i);
                let tag = string_of(&s, i, end + 1);
                let ghost before = seg_views(out@);
                out.push((false, text));
                out.push((true, tag));
                assert(seg_views(out@) =~= before + seq![(false, text@), (true, tag@)]);
                assert(seg_views(out@) + segments_from(s@, end + 1, end + 1) =~= before
                    + segments_from(s@, start as int, i as int));
                i = end + 1;
                start = i;
                continue;
            }
        }
        i += 1;
    }
    let last = string_of(&s, start, n);
    let ghost before = seg_views(out@);
    out.push((false, last));
    assert(seg_views(out@) =~= before + segments_from(s@, start as int, i as int));
    out
}

/// The `src` attribute of each `<img>` tag of a card side, in document order
/// (`None` for a tag without one). These are the images to fetch and decode.
pub fn image_sources(html: &str) -> (out: Vec<Option<String>>)
    ensures
        out@.map_values(|o: Option<String>| opt_view(o)) == tag_sources(segments(html@)),
{
    let segs = scan_segments(html);
    let ghost all = seg_views(segs@);
    let mut out: Vec<Option<String>> = Vec::new();
    let mut j: usize = 0;
    assert(all.skip(0) =~= all);
    assert(out@.map_values(|o: Option<String>| opt_view(o)) + tag_sources(all) =~= tag_sources(all));
    while j < segs.len()
        invariant
            j <= segs@.len(),
            all == seg_views(segs@),
            all == segments(html@),
            out@.map_values(|o: Option<String>| opt_view(o)) + tag_sources(all.skip(j as int))
                == tag_sources(all),
        decreases segs@.len() - j,
    {
        let ghost before = out@.map_values(|o: Option<String>| opt_view(o));
        assert(all.skip(j as int).drop_first() =~= all.skip(j + 1));
        assert(all.skip(j as int)[0] == all[j as int]);
        if segs[j].0 {
            let v = attr_value(segs[j].1.as_str(), "src");
            proof {
                reveal_strlit("src");
            }
            assert("src"@ =~= src_attr());
            out.push(v);
            assert(out@.map_values(|o: Option<String>| opt_view(o)) =~= before.push(opt_view(v)));
        }
        j += 1;
    }
    assert(all.skip(j as int) =~= Seq::<(bool, Seq<char>)>::empty());
    assert(out@.map_values(|o: Option<String>| opt_view(o)) =~= out@.map_values(|o: Option<String>| opt_view(o)) + tag_sources(all.skip(j as int)));
    out
}

/// The blocks of one card side, given for each image tag (in the order of
/// [`image_sources`]) whether its image was fetched and decoded: text runs
/// between images (media tokens removed, blank runs dropped) and one
/// [`Block::Image`] per loaded image, numbered in order.
pub fn card_blocks(html: &str, loaded: &Vec<bool>) -> (out: Vec<Block>)
    ensures
        block_views(out@) == blocks_of(segments(html@), loaded@, 0, 0),
{
    let segs = scan_segments(html);
    let ghost all = seg_views(segs@);
    let mut out: Vec<Block> = Vec::new();
    let mut j: usize = 0;
    assert(all.skip(0) =~= all);
    assert(block_views(out@) + blocks_of(all, loaded@, 0, 0) =~= blocks_of(all, loaded@, 0, 0));
    let mut k: usize = 0;
    let mut m: usize = 0;
    while j < segs.len()
        invariant
            j <= segs@.len(),
            k <= j,
            m <= k,
            all == seg_views(segs@),
            all == segments(html@),
            block_views(out@) + blocks_of(all.skip(j as int), loaded@, k as int, m as int)
                == blocks_of(all, loaded@, 0, 0),
        decreases segs@.len() - j,
    {
        let ghost before = block_views(out@);
        assert(all.skip(j as int).drop_first() =~= all.skip(j + 1));
        assert(all.skip(j as int)[0] == all[j as int]);
        if segs[j].0 {
            if k < loaded.len() && loaded[k] {
                out.push(Block::Image(m));
                assert(block_views(out@) =~= before.push(BlockView::Image(m)));
                m += 1;
            }
            k += 1;
        } else {
            push_text_block(&mut out, segs[j].1.as_str());
            assert(block_views(out@) + blocks_of(all.skip(j + 1), loaded@, k as int, m as int)
                =~= before + blocks_of(all.skip(j as int), loaded@, k as int, m as int));
        }
        j += 1;
    }
    assert(all.skip(j as int) =~= Seq::<(bool, Seq<char>)>::empty());
    assert(block_views(out@) =~= block_views(out@) + blocks_of(all.skip(j as int), loaded@, k as int, m as int));
    out
}

} // verus!

verus! {

/// `n / f` rounded up.
pub open spec fn div_ceil(n: int, f: int) -> int {
    n / f + if n % f == 0 {
        0int
    } else {
        1int
    }
}

/// How many cells of size `font` cover `n` pixels, kept within `1..=u16::MAX`;
/// a zero font size counts as one pixel.
pub open spec fn cells_for(n: u32, font: u16) -> u16 {
    let f: int = if font == 0 {
        1
    } else {
        font as int
    };
    let c = div_ceil(n as int, f);
    if c < 1 {
        1
    } else if c > 65535 {
        65535
    } else {
        c as u16
    }
}

/// An image's natural size in terminal cells (columns, rows), given its pixel
/// size and the font's cell size in pixels.
pub fn natural_cells(width: u32, height: u32, font_width: u16, font_height: u16) -> (r: (
    u16,
    u16,
))
    ensures
        r == (cells_for(width, font_width), cells_for(height, font_height)),
{
    (cells(width, font_width), cells(height, font_height))
}

fn cells(n: u32, font: u16) -> (r: u16)
    ensures
        r == cells_for(n, font),
{
    let f: u64 = if font == 0 {
        1
    } else {
        font as u64
    };
    let m: u64 = n as u64;
    let c: u64 = m / f + if m % f == 0 {
        0
    } else {
        1
    };
    if c < 1 {
        1
    } else if c > 65535 {
        65535
    } else {
        c as u16
    }
}

/// Index just past the last `/` or `\` of `s` before `i`, or 0 when there is none.
pub open spec fn name_start(s: Seq<char>, i: int) -> int
    decreases i,
{
    if i <= 0 {
        0
    } else if s[i - 1] == '/' || s[i - 1] == '\\' {
        i
    } else {
        name_start(s, i - 1)
    }
}

/// The last path component of a media name: the text after its last `/` or
/// `\`, so a media name cannot point outside the staging directory.
pub open spec fn file_name_of(s: Seq<char>) -> Seq<char> {
    s.subrange(name_start(s, s.len() as int), s.len() as int)
}

pub fn safe_file_name(name: &str) -> (r: String)
    ensures
        r@ == file_name_of(name@),
{
    let s = chars_of(name);
    let mut i = s.len();
    while i > 0 && !(s[i - 1] == '/' || s[i - 1] == '\\')
        invariant
            i <= s@.len(),
            name_start(s@, s@.len() as int) == name_start(s@, i as int),
        decreases i,
    {
        i -= 1;
    }
    proof {
        lemma_name_start_bound(s@, s@.len() as int);
    }
    string_of(&s, i, s.len())
}

proof fn lemma_name_start_bound(s: Seq<char>, i: int)
    requires
        0 <= i <= s.len(),
    ensures
        0 <= name_start(s, i) <= i,
    decreases i,
{
    if i > 0 && !(s[i - 1] == '/' || s[i - 1] == '\\') {
        lemma_name_start_bound(s, i - 1);
    }
}

} // verus!

verus! {

#[verifier::external_type_specification]
#[verifier::external_body]
pub struct ExDynamicImage(image::DynamicImage);

/// Whether `bytes` hold an image in a format that `image` can decode.
pub uninterp spec fn image_decodes(bytes: Seq<u8>) -> bool;

/// The width and height in pixels of the image that `bytes` decode to.
pub uninterp spec fn image_dims(bytes: Seq<u8>) -> (u32, u32);

/// `image::load_from_memory` (format guessed from the content), with the
/// decoded image's `GenericImageView::dimensions`. Claimed: the result is
/// `Some` exactly when the bytes decode, and its width and height are those
/// of the image the bytes hold; both depend on the bytes alone. Nothing is
/// said of the decoded pixels.
#[verifier::external_body]
fn load_image(bytes: &[u8]) -> (r: Option<(image::DynamicImage, u32, u32)>)
    ensures
        r is Some == image_decodes(bytes@),
        r matches Some(t) ==> (t.1, t.2) == image_dims(bytes@),
{
    let img = image::load_from_memory(bytes).ok()?;
    let (w, h) = img.dimensions();
    Some((img, w, h))
}

/// A decoded card image and its natural size in terminal cells.
pub struct CardPicture {
    pub image: image::DynamicImage,
    pub cols: u16,
    pub rows: u16,
}

/// Decode a media file as an image and size it in cells for the given font;
/// `None` when the bytes are not a decodable image.
pub fn decode_card_image(bytes: &[u8], font_width: u16, font_height: u16) -> (r: Option<
    CardPicture,
>)
    ensures
        r is Some == image_decodes(bytes@),
        r matches Some(p) ==> p.cols == cells_for(image_dims(bytes@).0, font_width) && p.rows
            == cells_for(image_dims(bytes@).1, font_height),
{
    let (img, w, h) = load_image(bytes)?;
    let (cols, rows) = natural_cells(w, h, font_width, font_height);
    Some(CardPicture { image: img, cols, rows })
}

} // verus!

verus! {

/// The markup of a run of rendered text that the screen shows.
#[derive(PartialEq, Eq, Structural, Clone, Copy, Debug)]
pub enum Annot {
    Strong,
    Emphasis,
    Strikeout,
    Code,
    Link,
    Other,
}

/// One element of a rendered line: a run of text with its markup (outer
/// markup first), or a zero-width anchor of a named fragment.
pub enum RichPiece {
    Text(String, Vec<Annot>),
    Anchor(String),
}

pub enum PieceView {
    Text(Seq<char>, Seq<Annot>),
    Anchor(Seq<char>),
}

impl View for RichPiece {
    type V = PieceView;

    open spec fn view(&self) -> PieceView {
        match self {
            RichPiece::Text(s, a) => PieceView::Text(s@, a@),
            RichPiece::Anchor(n) => PieceView::Anchor(n@),
        }
    }
}

pub open spec fn rich_view(r: Option<Vec<Vec<RichPiece>>>) -> Option<Seq<Seq<PieceView>>> {
    match r {
        Some(v) => Some(v@.map_values(|l: Vec<RichPiece>| l@.map_values(|p: RichPiece| p@))),
        None => None,
    }
}

/// The lines html2text's rich renderer makes of the UTF-8 bytes `html`,
/// wrapped to `width` columns, or `None` when it fails.
pub uninterp spec fn rich_lines_of(html: Seq<u8>, width: nat) -> Option<Seq<Seq<PieceView>>>;

/// `html2text::config::rich().lines_from_read(html.as_bytes(), width)`, each
/// element converted one for one (strong, emphasis, strikeout, code and link
/// markup kept apart, any other markup as `Other`). Claimed: the result is a
/// function of the bytes and the width alone.
#[verifier::external_body]
fn rich_lines(html: &str, width: usize) -> (r: Option<Vec<Vec<RichPiece>>>)
    ensures
        rich_view(r) == rich_lines_of(encode_utf8(html@), width as nat),
{
    let lines = html2text::config::rich().lines_from_read(html.as_bytes(), width).ok()?;
    Some(lines.into_iter().map(|line| line.into_iter().map(|e| match e {
        Element::Str(t) => RichPiece::Text(t.s, t.tag.into_iter().map(|a| match a {
            Rich::Strong => Annot::Strong,
            Rich::Emphasis => Annot::Emphasis,
            Rich::Strikeout => Annot::Strikeout,
            Rich::Code => Annot::Code,
            Rich::Link(_) => Annot::Link,
            _ => Annot::Other,
        }).collect()),
        Element::FragmentStart(name) => RichPiece::Anchor(name),
    }).collect()).collect())
}

/// How a run of text is drawn: the modifiers it carries, and (`muted`) a
/// dark-grey foreground.
#[derive(PartialEq, Eq, Structural, Clone, Copy, Debug)]
pub struct SpanStyle {
    pub bold: bool,
    pub italic: bool,
    pub crossed_out: bool,
    pub dim: bool,
    pub underlined: bool,
    pub muted: bool,
}

/// Every markup of a run adds its modifier: strong text is bold, emphasis
/// italic, strikeout crossed out, code dim and links underlined; colours of
/// the card's styling are ignored.
pub open spec fn style_of(tags: Seq<Annot>) -> SpanStyle {
    SpanStyle {
        bold: tags.contains(Annot::Strong),
        italic: tags.contains(Annot::Emphasis),
        crossed_out: tags.contains(Annot::Strikeout),
        dim: tags.contains(Annot::Code),
        underlined: tags.contains(Annot::Link),
        muted: false,
    }
}

pub open spec fn plain_style() -> SpanStyle {
    SpanStyle {
        bold: false,
        italic: false,
        crossed_out: false,
        dim: false,
        underlined: false,
        muted: false,
    }
}

/// The style of a run with the given markup.
pub fn span_style(tags: &Vec<Annot>) -> (r: SpanStyle)
    ensures
        r == style_of(tags@),
{
    let mut r = SpanStyle {
        bold: false,
        italic: false,
        crossed_out: false,
        dim: false,
        underlined: false,
        muted: false,
    };
    let mut i: usize = 0;
    while i < tags.len()
        invariant
            i <= tags@.len(),
            r == style_of(tags@.take(i as int)),
        decreases tags@.len() - i,
    {
        let t = tags[i];
        let ghost before = tags@.take(i as int);
        let ghost next = tags@.take(i + 1);
        assert(next =~= before.push(t));
        assert forall|a: Annot| #[trigger] next.contains(a) <==> (before.contains(a) || a == t) by {
            if next.contains(a) {
                let k = choose|k: int| 0 <= k < next.len() && #[trigger] next[k] == a;
                if k < i {
                    assert(before[k] == a);
                }
            }
            if before.contains(a) {
                let k = choose|k: int| 0 <= k < before.len() && #[trigger] before[k] == a;
                assert(next[k] == a);
            }
            if a == t {
                assert(next[i as int] == a);
            }
        }
        match t {
            Annot::Strong => r.bold = true,
            Annot::Emphasis => r.italic = true,
            Annot::Strikeout => r.crossed_out = true,
            Annot::Code => r.dim = true,
            Annot::Link => r.underlined = true,
            Annot::Other => {},
        }
        i += 1;
    }
    assert(tags@.take(i as int) =~= tags@);
    r
}

/// The runs of a rendered line that carry text, each with its style.
pub open spec fn line_spans(l: Seq<PieceView>) -> Seq<(Seq<char>, SpanStyle)>
    decreases l.len(),
{
    if l.len() == 0 {
        seq![]
    } else {
        match l.last() {
            PieceView::Text(s, t) => line_spans(l.drop_last()).push((s, style_of(t))),
            PieceView::Anchor(_) => line_spans(l.drop_last()),
        }
    }
}

/// The styled lines of one fragment: the renderer's lines, or, when it
/// fails, the raw fragment as a single unstyled line.
pub open spec fn segment_text(lines: Option<Seq<Seq<PieceView>>>, html: Seq<char>) -> Seq<
    Seq<(Seq<char>, SpanStyle)>,
> {
    match lines {
        Some(ls) => ls.map_values(|l: Seq<PieceView>| line_spans(l)),
        None => seq![seq![(html, plain_style())]],
    }
}

pub open spec fn spans_view(v: Seq<(String, SpanStyle)>) -> Seq<(Seq<char>, SpanStyle)> {
    v.map_values(|p: (String, SpanStyle)| (p.0@, p.1))
}

pub open spec fn lines_view(v: Seq<Vec<(String, SpanStyle)>>) -> Seq<Seq<(Seq<char>, SpanStyle)>> {
    v.map_values(|l: Vec<(String, SpanStyle)>| spans_view(l@))
}

fn line_of(line: Vec<RichPiece>) -> (r: Vec<(String, SpanStyle)>)
    ensures
        spans_view(r@) == line_spans(line@.map_values(|p: RichPiece| p@)),
{
    let ghost pv = line@.map_values(|p: RichPiece| p@);
    let mut out: Vec<(String, SpanStyle)> = Vec::new();
    proof {
        assert(pv.take(0) =~= Seq::<PieceView>::empty());
    }
    for p in iter: line
        invariant
            pv == iter.seq().map_values(|p: RichPiece| p@),
            spans_view(out@) == line_spans(pv.take(iter.index() as int)),
    {
        let ghost k = iter.index() as int;
        assert(pv.take(k + 1).drop_last() =~= pv.take(k));
        assert(pv.take(k + 1).last() == p@);
        match p {
            RichPiece::Text(s, tags) => {
                let st = span_style(&tags);
                let ghost before = spans_view(out@);
                out.push((s, st));
                assert(spans_view(out@) =~= before.push((s@, st)));
            },
            RichPiece::Anchor(_) => {},
        }
    }
    assert(pv.take(pv.len() as int) =~= pv);
    out
}

/// The styled lines of one fragment from what the renderer made of it:
/// its lines, or the raw fragment as one unstyled line when it failed.
pub fn styled_lines(lines: Option<Vec<Vec<RichPiece>>>, html: &str) -> (r: Vec<
    Vec<(String, SpanStyle)>,
>)
    ensures
        lines_view(r@) == segment_text(rich_view(lines), html@),
{
    match lines {
        None => {
            let mut line: Vec<(String, SpanStyle)> = Vec::new();
            line.push((String::from_str(html), SpanStyle {
                bold: false,
                italic: false,
                crossed_out: false,
                dim: false,
                underlined: false,
                muted: false,
            }));
            let mut r: Vec<Vec<(String, SpanStyle)>> = Vec::new();
            assert(spans_view(line@) =~= seq![(html@, plain_style())]);
            r.push(line);
            assert(lines_view(r@) =~= segment_text(rich_view(lines), html@));
            r
        },
        Some(ls) => {
            let ghost lv = ls@.map_values(|l: Vec<RichPiece>| l@.map_values(|p: RichPiece| p@));
            let mut r: Vec<Vec<(String, SpanStyle)>> = Vec::new();
            for l in iter: ls
                invariant
                    lv == iter.seq().map_values(
                        |l: Vec<RichPiece>| l@.map_values(|p: RichPiece| p@),
                    ),
                    lines_view(r@) == lv.take(iter.index() as int).map_values(
                        |l: Seq<PieceView>| line_spans(l),
                    ),
            {
                let ghost k = iter.index() as int;
                let ghost before = lines_view(r@);
                assert(lv[k] == l@.map_values(|p: RichPiece| p@));
                let v = line_of(l);
                let ghost vv = spans_view(v@);
                r.push(v);
                assert(lines_view(r@) =~= before.push(vv));
                assert(lv.take(k + 1) =~= lv.take(k).push(lv[k]));
                assert(lines_view(r@) =~= lv.take(k + 1).map_values(
                    |l: Seq<PieceView>| line_spans(l),
                ));
            }
            assert(lv.take(lv.len() as int) =~= lv);
            r
        },
    }
}

/// A rule `w` characters wide, drawn in dark grey, between two parts.
pub open spec fn rule_line(w: nat) -> Seq<(Seq<char>, SpanStyle)> {
    seq![(Seq::new(w, |i: int| '\u{2500}'), SpanStyle { muted: true, ..plain_style() })]
}

/// The lines of the first `k` parts: a part with no lines is skipped, and a
/// rule separates each part from the lines before it.
pub open spec fn joined_parts(parts: Seq<Seq<Seq<(Seq<char>, SpanStyle)>>>, w: nat, k: int) -> Seq<
    Seq<(Seq<char>, SpanStyle)>,
>
    decreases k,
{
    if k <= 0 {
        seq![]
    } else {
        let prev = joined_parts(parts, w, k - 1);
        let cur = parts[k - 1];
        if cur.len() == 0 {
            prev
        } else if prev.len() == 0 {
            cur
        } else {
            prev.push(rule_line(w)) + cur
        }
    }
}

/// The width text is wrapped to: at least ten columns.
pub open spec fn wrap_width(width: u16) -> nat {
    if width < 10 {
        10
    } else {
        width as nat
    }
}

/// The styled lines of each part of `html` between `<hr>` rules.
pub open spec fn html_parts(html: Seq<char>, w: nat) -> Seq<Seq<Seq<(Seq<char>, SpanStyle)>>> {
    hr_pieces(html).map_values(
        |p: Seq<char>| segment_text(rich_lines_of(encode_utf8(p), w), p),
    )
}

/// The whole rendering of a card side's HTML.
pub open spec fn rendered_html(html: Seq<char>, width: u16) -> Seq<Seq<(Seq<char>, SpanStyle)>> {
    let w = wrap_width(width);
    joined_parts(html_parts(html, w), w, hr_pieces(html).len() as int)
}

/// Render an HTML fragment to styled lines wrapped to `width` columns (at
/// least ten): each part between `<hr>` rules is rendered by html2text's rich
/// renderer (the raw part when it fails), empty parts are skipped, and a grey
/// rule as wide as the text separates the parts.
pub fn render_html(html: &str, width: u16) -> (r: Vec<Vec<(String, SpanStyle)>>)
    ensures
        lines_view(r@) == rendered_html(html@, width),
{
    let w: usize = if width < 10 {
        10
    } else {
        width as usize
    };
    let ghost wn = wrap_width(width);
    assert(w as nat == wn);
    let pieces = split_on_hr(html);
    let ghost parts = html_parts(html@, wn);
    let mut rule = String::new();
    let mut k: usize = 0;
    while k < w
        invariant
            k <= w,
            rule@ == Seq::new(k as nat, |i: int| '\u{2500}'),
        decreases w - k,
    {
        rule.push('\u{2500}');
        assert(rule@ =~= Seq::new((k + 1) as nat, |i: int| '\u{2500}'));
        k += 1;
    }
    let mut out: Vec<Vec<(String, SpanStyle)>> = Vec::new();
    let mut i: usize = 0;
    while i < pieces.len()
        invariant
            i <= pieces@.len(),
            views(pieces@) == hr_pieces(html@),
            parts == html_parts(html@, wn),
            w as nat == wn,
            rule@ == Seq::new(wn, |i: int| '\u{2500}'),
            lines_view(out@) == joined_parts(parts, wn, i as int),
        decreases pieces@.len() - i,
    {
        let piece = pieces[i].as_str();
        assert(piece@ == hr_pieces(html@)[i as int]);
        let seg = styled_lines(rich_lines(piece, w), piece);
        assert(lines_view(seg@) == parts[i as int]);
        if seg.len() > 0 {
            if out.len() > 0 {
                let mut line: Vec<(String, SpanStyle)> = Vec::new();
                line.push((rule.clone(), SpanStyle {
                    bold: false,
                    italic: false,
                    crossed_out: false,
                    dim: false,
                    underlined: false,
                    muted: true,
                }));
                assert(spans_view(line@) =~= rule_line(wn));
                let ghost l0 = lines_view(out@);
                out.push(line);
                assert(lines_view(out@) =~= l0.push(rule_line(wn)));
            }
            let ghost l1 = lines_view(out@);
            let mut seg = seg;
            out.append(&mut seg);
            assert(lines_view(out@) =~= l1 + parts[i as int]);
        }
        i += 1;
    }
    out
}

} // verus!
