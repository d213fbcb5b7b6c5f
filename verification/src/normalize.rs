//! Normalization of one raw product record: markup stripping, numbered-key
//! splitting, preview collection, download-variant grouping, score
//! rescaling and counter defaulting.

use vstd::prelude::*;

use crate::numtext::{
    dec_rep, dec_value, is_digit_char, is_u64_numeral, char_to_digit, parse_u64_digits,
    u64_to_string,
};
use crate::order::{detail_le, detail_le_exec, detail_le_fn, lemma_detail_le_total_ordering};
use crate::product::{
    details_view, extra_view,
    DetailView, DownloadDetail, Product, ProductView, RawRecord, RawRecordView, RawValue,
    RawValueView,
};
use crate::strutil::{push_char, str_eq, strings_view};

verus! {

// ---------------------------------------------------------------------
// Markup stripping
// ---------------------------------------------------------------------

/// One pass of the tag stripper over `s`, entered with the "inside a
/// tag" flag set to `inside`: both delimiters and everything between
/// them are dropped; everything outside tags passes through.
pub open spec fn strip_rec(s: Seq<char>, inside: bool) -> Seq<char>
    decreases s.len(),
{
    if s.len() == 0 {
        Seq::empty()
    } else if s[0] == '<' {
        strip_rec(s.drop_first(), true)
    } else if s[0] == '>' {
        strip_rec(s.drop_first(), false)
    } else if inside {
        strip_rec(s.drop_first(), inside)
    } else {
        seq![s[0]] + strip_rec(s.drop_first(), inside)
    }
}

/// The description text with inline markup stripped.
pub open spec fn spec_strip_markup(s: Seq<char>) -> Seq<char> {
    strip_rec(s, false)
}

/// Whether `s` contains neither tag delimiter.
pub open spec fn no_delims(s: Seq<char>) -> bool {
    forall|i: int| 0 <= i < s.len() ==> #[trigger] s[i] != '<' && s[i] != '>'
}

/// Stripping leaves no tag delimiter behind.
pub proof fn lemma_strip_no_delims(s: Seq<char>, inside: bool)
    ensures
        no_delims(strip_rec(s, inside)),
    decreases s.len(),
{
    if s.len() > 0 {
        lemma_strip_no_delims(s.drop_first(), true);
        lemma_strip_no_delims(s.drop_first(), false);
        lemma_strip_no_delims(s.drop_first(), inside);
    }
}

/// A string without delimiters passes through the stripper unchanged.
pub proof fn lemma_strip_clean_identity(s: Seq<char>)
    requires
        no_delims(s),
    ensures
        strip_rec(s, false) == s,
    decreases s.len(),
{
    if s.len() == 0 {
        assert(strip_rec(s, false) =~= s);
    } else {
        assert(no_delims(s.drop_first())) by {
            assert(forall|i: int|
                0 <= i < s.len() - 1 ==> s.drop_first()[i] == #[trigger] s[i + 1]);
        }
        lemma_strip_clean_identity(s.drop_first());
        assert(strip_rec(s, false) =~= s);
    }
}

/// Law: description stripping is idempotent — stripping an already
/// stripped string returns it unchanged.
pub proof fn lemma_strip_idempotent(s: Seq<char>)
    ensures
        spec_strip_markup(spec_strip_markup(s)) == spec_strip_markup(s),
{
    lemma_strip_no_delims(s, false);
    lemma_strip_clean_identity(spec_strip_markup(s));
}

/// Strips inline markup from a description: while a tag is open every
/// character is dropped, the `<` and `>` delimiters themselves included;
/// everything outside tags passes through unchanged.
pub fn strip_markup(s: &str) -> (r: String)
    ensures
        r@ == spec_strip_markup(s@),
{
    let len = s.unicode_len();
    let mut out = String::new();
    let mut inside = false;
    let mut i: usize = 0;
    proof {
        assert(s@.skip(0) =~= s@);
    }
    while i < len
        invariant
            i <= len,
            len == s@.len(),
            spec_strip_markup(s@) == out@ + strip_rec(s@.skip(i as int), inside),
        decreases len - i,
    {
        let c = s.get_char(i);
        proof {
            assert(s@.skip(i as int).drop_first() =~= s@.skip(i as int + 1));
            assert(s@.skip(i as int)[0] == c);
        }
        if c == '<' {
            inside = true;
        } else if c == '>' {
            inside = false;
        } else if !inside {
            push_char(&mut out, c);
            proof {
                assert(out@ + strip_rec(s@.skip(i as int + 1), inside) =~= (out@.drop_last())
                    + (seq![c] + strip_rec(s@.skip(i as int + 1), inside)));
            }
        }
        i += 1;
    }
    proof {
        assert(s@.skip(len as int) =~= Seq::<char>::empty());
        assert(out@ + strip_rec(s@.skip(len as int), inside) =~= out@);
    }
    out
}

// ---------------------------------------------------------------------
// Numbered-key splitting
// ---------------------------------------------------------------------

/// The position of the first ASCII digit in `s`, if any.
pub open spec fn first_digit_pos(s: Seq<char>) -> Option<int>
    decreases s.len(),
{
    if s.len() == 0 {
        None
    } else if is_digit_char(s[0]) {
        Some(0)
    } else {
        match first_digit_pos(s.drop_first()) {
            Some(i) => Some(i + 1),
            None => None,
        }
    }
}

/// A position that is the first digit is what `first_digit_pos` finds.
pub proof fn lemma_first_digit_pos_converse(s: Seq<char>, i: int)
    requires
        0 <= i < s.len(),
        is_digit_char(s[i]),
        forall|j: int| 0 <= j < i ==> !is_digit_char(#[trigger] s[j]),
    ensures
        first_digit_pos(s) == Some(i),
    decreases s.len(),
{
    if i > 0 {
        assert(forall|j: int|
            1 <= j < s.len() ==> #[trigger] s.drop_first()[j - 1] == s[j]);
        lemma_first_digit_pos_converse(s.drop_first(), i - 1);
    }
}

/// Splits a flattened key such as "downloadlink12" into the textual field
/// name and its numeric suffix: the suffix starts at the first digit and
/// must consist of digits only, with a value that fits in a u64; a key
/// without such a suffix carries no field.
pub open spec fn spec_split_field(key: Seq<char>) -> Option<(Seq<char>, int)> {
    match first_digit_pos(key) {
        None => None,
        Some(i) => {
            let suffix = key.skip(i);
            if is_u64_numeral(suffix) {
                Some((key.take(i), dec_value(suffix)))
            } else {
                None
            }
        },
    }
}

/// Splits a flattened key into field name and numeric suffix index.
pub fn split_field(key: &str) -> (r: Option<(String, u64)>)
    ensures
        match r {
            Some(p) => spec_split_field(key@) == Some((p.0@, p.1 as int)),
            None => spec_split_field(key@) is None,
        },
{
    let len = key.unicode_len();
    let mut i: usize = 0;
    while i < len
        invariant
            i <= len,
            len == key@.len(),
            forall|j: int| 0 <= j < i ==> !is_digit_char(#[trigger] key@[j]),
        decreases len - i,
    {
        let c = key.get_char(i);
        if char_to_digit(c).is_some() {
            proof {
                lemma_first_digit_pos_converse(key@, i as int);
            }
            let field = key.substring_char(0, i);
            let suffix = key.substring_char(i, len);
            proof {
                assert(suffix@ =~= key@.skip(i as int));
                assert(field@ =~= key@.take(i as int));
            }
            let n = match parse_u64_digits(suffix) {
                Some(n) => n,
                None => {
                    return None;
                },
            };
            return Some((field.to_owned(), n));
        }
        i += 1;
    }
    proof {
        lemma_first_digit_pos_none(key@);
    }
    None
}

/// A sequence without digits has no first digit.
proof fn lemma_first_digit_pos_none(s: Seq<char>)
    requires
        forall|j: int| 0 <= j < s.len() ==> !is_digit_char(#[trigger] s[j]),
    ensures
        first_digit_pos(s) is None,
    decreases s.len(),
{
    if s.len() > 0 {
        assert(forall|j: int|
            0 <= j < s.len() - 1 ==> #[trigger] s.drop_first()[j] == s[j + 1]);
        lemma_first_digit_pos_none(s.drop_first());
    }
}

// ---------------------------------------------------------------------
// Preview pictures
// ---------------------------------------------------------------------

/// The value of the first entry with the given key, if any.
pub open spec fn lookup(extra: Seq<(Seq<char>, RawValueView)>, key: Seq<char>) -> Option<
    RawValueView,
>
    decreases extra.len(),
{
    if extra.len() == 0 {
        None
    } else if extra[0].0 == key {
        Some(extra[0].1)
    } else {
        lookup(extra.drop_first(), key)
    }
}

/// Finds the first entry of the bag carrying the given key.
pub fn find_value<'a>(extra: &'a Vec<(String, RawValue)>, key: &str) -> (r: Option<&'a RawValue>)
    ensures
        match r {
            Some(v) => lookup(extra_view(extra@), key@) == Some(v@),
            None => lookup(extra_view(extra@), key@) is None,
        },
{
    let ghost ev = extra_view(extra@);
    let mut i: usize = 0;
    proof {
        assert(ev.skip(0) =~= ev);
    }
    while i < extra.len()
        invariant
            i <= extra.len(),
            ev == extra_view(extra@),
            ev.len() == extra@.len(),
            lookup(ev, key@) == lookup(ev.skip(i as int), key@),
        decreases extra.len() - i,
    {
        proof {
            assert(ev.skip(i as int)[0] == ev[i as int]);
            assert(ev.skip(i as int).drop_first() =~= ev.skip(i as int + 1));
        }
        if str_eq(extra[i].0.as_str(), key) {
            return Some(&extra[i].1);
        }
        i += 1;
    }
    None
}

/// The key probed for preview picture `i`.
pub open spec fn preview_key(i: int) -> Seq<char> {
    "previewpic"@ + dec_rep(i as nat)
}

/// The contribution of preview index `i`: its URL when the probed key
/// holds text, nothing otherwise.
pub open spec fn preview_at(extra: Seq<(Seq<char>, RawValueView)>, i: int) -> Seq<Seq<char>> {
    match lookup(extra, preview_key(i)) {
        Some(v) => match v {
            RawValueView::Text(u) => seq![u],
            _ => Seq::empty(),
        },
        None => Seq::empty(),
    }
}

/// The preview URLs contributed by indices `i..=10`, in ascending index
/// order.
pub open spec fn previews_from(extra: Seq<(Seq<char>, RawValueView)>, i: int) -> Seq<Seq<char>>
    decreases 11 - i,
{
    if i >= 11 || i < 1 {
        Seq::empty()
    } else {
        preview_at(extra, i) + previews_from(extra, i + 1)
    }
}

/// The ordered preview list of a record: the string values of the keys
/// `previewpic1` through `previewpic10`, in index order, skipping absent
/// indices.
pub open spec fn spec_previews(extra: Seq<(Seq<char>, RawValueView)>) -> Seq<Seq<char>> {
    previews_from(extra, 1)
}

/// Law: a record yields at most ten preview pictures.
pub proof fn lemma_previews_len(extra: Seq<(Seq<char>, RawValueView)>)
    ensures
        spec_previews(extra).len() <= 10,
{
    lemma_previews_from_len(extra, 1);
}

/// Law: the preview list preserves ascending index order — it is the
/// concatenation, for the indices one through ten in that order, of
/// each index's contribution.
pub proof fn lemma_previews_ascending(extra: Seq<(Seq<char>, RawValueView)>)
    ensures
        spec_previews(extra) == preview_at(extra, 1) + preview_at(extra, 2) + preview_at(extra, 3)
            + preview_at(extra, 4) + preview_at(extra, 5) + preview_at(extra, 6) + preview_at(
            extra,
            7,
        ) + preview_at(extra, 8) + preview_at(extra, 9) + preview_at(extra, 10),
{
    let p1 = preview_at(extra, 1);
    let p2 = preview_at(extra, 2);
    let p3 = preview_at(extra, 3);
    let p4 = preview_at(extra, 4);
    let p5 = preview_at(extra, 5);
    let p6 = preview_at(extra, 6);
    let p7 = preview_at(extra, 7);
    let p8 = preview_at(extra, 8);
    let p9 = preview_at(extra, 9);
    let p10 = preview_at(extra, 10);
    // the recursion reads as a right-nested concatenation
    assert(previews_from(extra, 11) =~= Seq::<Seq<char>>::empty());
    assert(previews_from(extra, 10) == preview_at(extra, 10) + previews_from(extra, 11));
    assert(previews_from(extra, 10) =~= p10);
    let c9 = p9 + p10;
    let c8 = p8 + c9;
    let c7 = p7 + c8;
    let c6 = p6 + c7;
    let c5 = p5 + c6;
    let c4 = p4 + c5;
    let c3 = p3 + c4;
    let c2 = p2 + c3;
    let c1 = p1 + c2;
    assert(previews_from(extra, 9) == p9 + previews_from(extra, 10));
    assert(previews_from(extra, 9) == c9);
    assert(previews_from(extra, 8) == p8 + previews_from(extra, 9));
    assert(previews_from(extra, 8) == c8);
    assert(previews_from(extra, 7) == p7 + previews_from(extra, 8));
    assert(previews_from(extra, 7) == c7);
    assert(previews_from(extra, 6) == p6 + previews_from(extra, 7));
    assert(previews_from(extra, 6) == c6);
    assert(previews_from(extra, 5) == p5 + previews_from(extra, 6));
    assert(previews_from(extra, 5) == c5);
    assert(previews_from(extra, 4) == p4 + previews_from(extra, 5));
    assert(previews_from(extra, 4) == c4);
    assert(previews_from(extra, 3) == p3 + previews_from(extra, 4));
    assert(previews_from(extra, 3) == c3);
    assert(previews_from(extra, 2) == p2 + previews_from(extra, 3));
    assert(previews_from(extra, 2) == c2);
    assert(previews_from(extra, 1) == p1 + previews_from(extra, 2));
    assert(spec_previews(extra) == c1);
    // re-associate to the left, one step at a time
    let l2 = p1 + p2;
    vstd::seq_lib::lemma_concat_associative(p1, p2, c3);
    let l3 = l2 + p3;
    vstd::seq_lib::lemma_concat_associative(l2, p3, c4);
    let l4 = l3 + p4;
    vstd::seq_lib::lemma_concat_associative(l3, p4, c5);
    let l5 = l4 + p5;
    vstd::seq_lib::lemma_concat_associative(l4, p5, c6);
    let l6 = l5 + p6;
    vstd::seq_lib::lemma_concat_associative(l5, p6, c7);
    let l7 = l6 + p7;
    vstd::seq_lib::lemma_concat_associative(l6, p7, c8);
    let l8 = l7 + p8;
    vstd::seq_lib::lemma_concat_associative(l7, p8, c9);
    let l9 = l8 + p9;
    vstd::seq_lib::lemma_concat_associative(l8, p9, p10);
    assert(spec_previews(extra) == l9 + p10);
}

/// Indices `i..=10` contribute at most `11 - i` previews.
proof fn lemma_previews_from_len(extra: Seq<(Seq<char>, RawValueView)>, i: int)
    requires
        1 <= i <= 11,
    ensures
        previews_from(extra, i).len() <= 11 - i,
    decreases 11 - i,
{
    if i < 11 {
        lemma_previews_from_len(extra, i + 1);
    }
}

/// Collects the preview-picture URLs of a record, probing the keys
/// `previewpic1` through `previewpic10` in ascending order.
pub fn collect_previews(extra: &Vec<(String, RawValue)>) -> (r: Vec<String>)
    ensures
        strings_view(r@) == spec_previews(extra_view(extra@)),
{
    let ghost ev = extra_view(extra@);
    let mut out: Vec<String> = Vec::new();
    let mut i: u64 = 1;
    proof {
        assert(strings_view(out@) + previews_from(ev, 1) =~= previews_from(ev, 1));
    }
    while i <= 10
        invariant
            1 <= i <= 11,
            ev == extra_view(extra@),
            spec_previews(ev) == strings_view(out@) + previews_from(ev, i as int),
        decreases 11 - i,
    {
        let mut key = String::from_str("previewpic");
        let num = u64_to_string(i);
        key.append(num.as_str());
        proof {
            assert(key@ == preview_key(i as int));
        }
        match find_value(extra, key.as_str()) {
            Some(v) => match v {
                RawValue::Text(u) => {
                    let ghost old_out = out@;
                    out.push(u.clone());
                    proof {
                        assert(preview_at(ev, i as int) =~= seq![u@]);
                        assert(strings_view(out@) =~= strings_view(old_out).push(u@));
                        assert(strings_view(old_out) + (seq![u@] + previews_from(
                            ev,
                            i as int + 1,
                        )) =~= strings_view(out@) + previews_from(ev, i as int + 1));
                    }
                },
                _ => {
                    proof {
                        assert(preview_at(ev, i as int) =~= Seq::<Seq<char>>::empty());
                        assert(preview_at(ev, i as int) + previews_from(ev, i as int + 1)
                            =~= previews_from(ev, i as int + 1));
                    }
                },
            },
            None => {
                proof {
                    assert(preview_at(ev, i as int) =~= Seq::<Seq<char>>::empty());
                    assert(preview_at(ev, i as int) + previews_from(ev, i as int + 1)
                        =~= previews_from(ev, i as int + 1));
                }
            },
        }
        i += 1;
    }
    proof {
        assert(previews_from(ev, 11) =~= Seq::<Seq<char>>::empty());
        assert(strings_view(out@) + previews_from(ev, 11) =~= strings_view(out@));
    }
    out
}

// ---------------------------------------------------------------------
// Downloads counter and score
// ---------------------------------------------------------------------

/// The normalized downloads counter: an empty raw counter reads "0";
/// any other raw counter passes through unchanged.
pub open spec fn spec_normalize_downloads(raw: Seq<char>) -> Seq<char> {
    if raw.len() == 0 {
        "0"@
    } else {
        raw
    }
}

/// Normalizes the aggregate downloads counter.
pub fn normalize_downloads(raw: String) -> (r: String)
    ensures
        r@ == spec_normalize_downloads(raw@),
{
    if raw.as_str().is_empty() {
        String::from_str("0")
    } else {
        raw
    }
}

/// The whole-star part of a score given in tenths of a star.
pub fn score_whole(score_tenths: u64) -> (r: u64)
    ensures
        r == score_tenths as int / 10,
{
    score_tenths / 10
}

/// The tenths part of a score given in tenths of a star.
pub fn score_frac(score_tenths: u64) -> (r: u64)
    ensures
        r == score_tenths as int % 10,
{
    score_tenths % 10
}

/// The score as display text, e.g. "4.7" for 47 tenths.
pub open spec fn spec_score_text(score_tenths: int) -> Seq<char> {
    dec_rep((score_tenths / 10) as nat) + "."@ + dec_rep((score_tenths % 10) as nat)
}

/// Renders a score given in tenths of a star as "whole.tenths".
pub fn score_text(score_tenths: u64) -> (r: String)
    ensures
        r@ == spec_score_text(score_tenths as int),
{
    let mut s = u64_to_string(score_tenths / 10);
    s.append(".");
    let frac = u64_to_string(score_tenths % 10);
    s.append(frac.as_str());
    s
}

/// Law: a raw score of at most 50 rescales to at most 5.0 stars, and the
/// rescaled value (whole stars and tenths) is exactly the raw value
/// divided by ten.
pub proof fn lemma_score_rescale(raw: int)
    requires
        0 <= raw <= 50,
    ensures
        0 <= raw / 10 <= 5,
        0 <= raw % 10 <= 9,
        (raw / 10) * 10 + raw % 10 == raw,
        raw / 10 == 5 ==> raw % 10 == 0,
{
}

// ---------------------------------------------------------------------
// Download-variant grouping
// ---------------------------------------------------------------------

/// The text carried by a raw value; non-text values read as empty.
pub open spec fn text_or_empty(v: RawValueView) -> Seq<char> {
    match v {
        RawValueView::Text(s) => s,
        _ => Seq::empty(),
    }
}

/// The size carried by a raw value: a non-negative integer directly, a
/// text field by parsing it as a decimal numeral; anything unparseable
/// or missing defaults to 0.
pub open spec fn size_of_value(v: RawValueView) -> int {
    match v {
        RawValueView::Uint(n) => n,
        RawValueView::Text(s) => if is_u64_numeral(s) {
            dec_value(s)
        } else {
            0
        },
        RawValueView::Other => 0,
    }
}

/// One numbered field applied to a variant under construction.
pub open spec fn apply_field(d: DetailView, field: Seq<char>, v: RawValueView) -> DetailView {
    if field == "downloadlink"@ {
        DetailView { link: text_or_empty(v), ..d }
    } else if field == "downloadname"@ {
        DetailView { name: text_or_empty(v), ..d }
    } else if field == "downloadsize"@ {
        DetailView { size: size_of_value(v), ..d }
    } else {
        d
    }
}

/// The position of the first group with the given suffix index, if any.
pub open spec fn find_group(gs: Seq<(int, DetailView)>, idx: int) -> Option<int>
    decreases gs.len(),
{
    if gs.len() == 0 {
        None
    } else if gs[0].0 == idx {
        Some(0)
    } else {
        match find_group(gs.drop_first(), idx) {
            Some(j) => Some(j + 1),
            None => None,
        }
    }
}

/// What `find_group` finds is the first group with that index.
pub proof fn lemma_find_group(gs: Seq<(int, DetailView)>, idx: int)
    ensures
        match find_group(gs, idx) {
            Some(j) => 0 <= j < gs.len() && gs[j].0 == idx && forall|k: int|
                0 <= k < j ==> (#[trigger] gs[k]).0 != idx,
            None => forall|k: int| 0 <= k < gs.len() ==> (#[trigger] gs[k]).0 != idx,
        },
    decreases gs.len(),
{
    if gs.len() > 0 && gs[0].0 != idx {
        lemma_find_group(gs.drop_first(), idx);
        assert(forall|k: int| 1 <= k < gs.len() ==> #[trigger] gs[k] == gs.drop_first()[k - 1]);
    }
}

/// One bag entry folded into the grouping table: a key without a numeric
/// suffix changes nothing; otherwise the field lands in the group of its
/// suffix index, a fresh group starting from the all-empty variant.
pub open spec fn apply_entry(
    gs: Seq<(int, DetailView)>,
    key: Seq<char>,
    v: RawValueView,
) -> Seq<(int, DetailView)> {
    match spec_split_field(key) {
        None => gs,
        Some(fi) => match find_group(gs, fi.1) {
            Some(j) => gs.update(j, (fi.1, apply_field(gs[j].1, fi.0, v))),
            None => gs.push((fi.1, apply_field(DownloadDetail::spec_default(), fi.0, v))),
        },
    }
}

/// The grouping table built from the whole bag, in entry order.
pub open spec fn groups_of(extra: Seq<(Seq<char>, RawValueView)>) -> Seq<(int, DetailView)>
    decreases extra.len(),
{
    if extra.len() == 0 {
        Seq::empty()
    } else {
        apply_entry(groups_of(extra.drop_last()), extra.last().0, extra.last().1)
    }
}

/// Whether no two groups share a suffix index.
pub open spec fn distinct_indices(gs: Seq<(int, DetailView)>) -> bool {
    forall|i: int, j: int| 0 <= i < j < gs.len() ==> (#[trigger] gs[i]).0 != (#[trigger] gs[j]).0
}

/// Folding one entry keeps the suffix indices distinct.
proof fn lemma_apply_entry_distinct(gs: Seq<(int, DetailView)>, key: Seq<char>, v: RawValueView)
    requires
        distinct_indices(gs),
    ensures
        distinct_indices(apply_entry(gs, key, v)),
{
    match spec_split_field(key) {
        None => {},
        Some(fi) => {
            lemma_find_group(gs, fi.1);
            match find_group(gs, fi.1) {
                Some(j) => {
                    let out = gs.update(j, (fi.1, apply_field(gs[j].1, fi.0, v)));
                    assert(forall|k: int| 0 <= k < out.len() ==> (#[trigger] out[k]).0 == gs[k].0);
                },
                None => {},
            }
        },
    }
}

/// The grouping table of any bag has no duplicate suffix index.
pub proof fn lemma_groups_distinct(extra: Seq<(Seq<char>, RawValueView)>)
    ensures
        distinct_indices(groups_of(extra)),
    decreases extra.len(),
{
    if extra.len() > 0 {
        lemma_groups_distinct(extra.drop_last());
        lemma_apply_entry_distinct(groups_of(extra.drop_last()), extra.last().0, extra.last().1);
    }
}

/// The groups whose link field was set.
pub open spec fn linked_pred() -> spec_fn((int, DetailView)) -> bool {
    |g: (int, DetailView)| g.1.link.len() > 0
}

/// The download variants of a record: the grouping table, with groups
/// whose link never got set dropped, sorted by display name (then by
/// suffix index), and reduced to the variants themselves.
pub open spec fn spec_downloads(extra: Seq<(Seq<char>, RawValueView)>) -> Seq<DetailView> {
    drop_idx(groups_of(extra).filter(linked_pred()).sort_by(detail_le_fn()))
}

/// The variants of a grouping table, the indices dropped.
pub open spec fn drop_idx(gs: Seq<(int, DetailView)>) -> Seq<DetailView> {
    gs.map_values(|g: (int, DetailView)| g.1)
}

/// The view of a grouped-variant vector.
pub open spec fn groups_view(gs: Seq<(u64, DownloadDetail)>) -> Seq<(int, DetailView)> {
    gs.map_values(|p: (u64, DownloadDetail)| (p.0 as int, p.1@))
}

/// The text carried by a raw value.
fn text_or_empty_exec(v: &RawValue) -> (r: String)
    ensures
        r@ == text_or_empty(v@),
{
    match v {
        RawValue::Text(s) => s.clone(),
        _ => String::new(),
    }
}

/// The size carried by a raw value.
fn size_of_value_exec(v: &RawValue) -> (r: u64)
    ensures
        r as int == size_of_value(v@),
{
    match v {
        RawValue::Uint(n) => *n,
        RawValue::Text(s) => match parse_u64_digits(s.as_str()) {
            Some(n) => n,
            None => 0,
        },
        RawValue::Other => 0,
    }
}

/// Applies one numbered field to a variant under construction.
fn apply_field_exec(d: DownloadDetail, field: &str, v: &RawValue) -> (r: DownloadDetail)
    ensures
        r@ == apply_field(d@, field@, v@),
{
    if str_eq(field, "downloadlink") {
        DownloadDetail { downloadlink: text_or_empty_exec(v), ..d }
    } else if str_eq(field, "downloadname") {
        DownloadDetail { downloadname: text_or_empty_exec(v), ..d }
    } else if str_eq(field, "downloadsize") {
        DownloadDetail { downloadsize: size_of_value_exec(v), ..d }
    } else {
        d
    }
}

/// Finds the first group with the given suffix index.
fn find_group_exec(gs: &Vec<(u64, DownloadDetail)>, idx: u64) -> (r: Option<usize>)
    ensures
        match r {
            Some(j) => j < gs@.len() && find_group(groups_view(gs@), idx as int) == Some(j as int),
            None => find_group(groups_view(gs@), idx as int) is None,
        },
{
    let ghost gv = groups_view(gs@);
    let mut i: usize = 0;
    while i < gs.len()
        invariant
            i <= gs.len(),
            gv == groups_view(gs@),
            gv.len() == gs@.len(),
            forall|k: int| 0 <= k < i ==> (#[trigger] gv[k]).0 != idx as int,
        decreases gs.len() - i,
    {
        if gs[i].0 == idx {
            proof {
                lemma_find_group_at(gv, idx as int, i as int);
            }
            return Some(i);
        }
        i += 1;
    }
    proof {
        lemma_find_group_none(gv, idx as int);
    }
    None
}

/// A position that is the first match is what `find_group` finds.
proof fn lemma_find_group_at(gs: Seq<(int, DetailView)>, idx: int, j: int)
    requires
        0 <= j < gs.len(),
        gs[j].0 == idx,
        forall|k: int| 0 <= k < j ==> (#[trigger] gs[k]).0 != idx,
    ensures
        find_group(gs, idx) == Some(j),
    decreases gs.len(),
{
    if j > 0 {
        assert(forall|k: int| 0 <= k < gs.len() - 1 ==> #[trigger] gs.drop_first()[k] == gs[k + 1]);
        lemma_find_group_at(gs.drop_first(), idx, j - 1);
    }
}

/// A table without the index has no match.
proof fn lemma_find_group_none(gs: Seq<(int, DetailView)>, idx: int)
    requires
        forall|k: int| 0 <= k < gs.len() ==> (#[trigger] gs[k]).0 != idx,
    ensures
        find_group(gs, idx) is None,
    decreases gs.len(),
{
    if gs.len() > 0 {
        assert(forall|k: int| 0 <= k < gs.len() - 1 ==> #[trigger] gs.drop_first()[k] == gs[k + 1]);
        lemma_find_group_none(gs.drop_first(), idx);
    }
}

/// Builds the grouping table of a bag, folding its entries in order.
fn group_downloads(extra: &Vec<(String, RawValue)>) -> (r: Vec<(u64, DownloadDetail)>)
    ensures
        groups_view(r@) == groups_of(extra_view(extra@)),
{
    let ghost ev = extra_view(extra@);
    let mut gs: Vec<(u64, DownloadDetail)> = Vec::new();
    let mut i: usize = 0;
    proof {
        assert(ev.take(0) =~= Seq::<(Seq<char>, RawValueView)>::empty());
        assert(groups_view(gs@) =~= groups_of(ev.take(0)));
    }
    while i < extra.len()
        invariant
            i <= extra.len(),
            ev == extra_view(extra@),
            ev.len() == extra@.len(),
            groups_view(gs@) == groups_of(ev.take(i as int)),
        decreases extra.len() - i,
    {
        let ghost gv0 = groups_view(gs@);
        let key = &extra[i].0;
        let v = &extra[i].1;
        match split_field(key.as_str()) {
            None => {},
            Some(fi) => {
                let (field, idx) = fi;
                match find_group_exec(&gs, idx) {
                    Some(j) => {
                        let d0 = gs[j].1.clone_detail();
                        let d1 = apply_field_exec(d0, field.as_str(), v);
                        let slot = &mut gs[j];
                        *slot = (idx, d1);
                        proof {
                            assert(groups_view(gs@) =~= gv0.update(
                                j as int,
                                (idx as int, d1@),
                            ));
                        }
                    },
                    None => {
                        let d1 = apply_field_exec(DownloadDetail::default(), field.as_str(), v);
                        gs.push((idx, d1));
                        proof {
                            assert(groups_view(gs@) =~= gv0.push((idx as int, d1@)));
                        }
                    },
                }
            },
        }
        proof {
            assert(ev.take(i as int + 1).drop_last() =~= ev.take(i as int));
            assert(ev.take(i as int + 1).last() == ev[i as int]);
            assert(ev[i as int].0 == key@ && ev[i as int].1 == v@);
            assert(groups_view(gs@) == apply_entry(gv0, key@, v@));
        }
        i += 1;
    }
    proof {
        assert(ev.take(ev.len() as int) =~= ev);
    }
    gs
}

/// Keeps the groups whose link field was set.
fn keep_linked(gs: Vec<(u64, DownloadDetail)>) -> (r: Vec<(u64, DownloadDetail)>)
    ensures
        groups_view(r@) == groups_view(gs@).filter(linked_pred()),
{
    let ghost gv = groups_view(gs@);
    let mut out: Vec<(u64, DownloadDetail)> = Vec::new();
    let mut i: usize = 0;
    proof {
        reveal(Seq::filter);
        assert(gv.take(0) =~= Seq::<(int, DetailView)>::empty());
        assert(groups_view(out@) =~= gv.take(0).filter(linked_pred()));
    }
    while i < gs.len()
        invariant
            i <= gs.len(),
            gv == groups_view(gs@),
            gv.len() == gs@.len(),
            groups_view(out@) == gv.take(i as int).filter(linked_pred()),
        decreases gs.len() - i,
    {
        let ghost out0 = groups_view(out@);
        if !gs[i].1.downloadlink.as_str().is_empty() {
            let pair = (gs[i].0, gs[i].1.clone_detail());
            out.push(pair);
            proof {
                assert(groups_view(out@) =~= out0.push((gs@[i as int].0 as int, gs@[i as int].1@)));
            }
        }
        proof {
            reveal(Seq::filter);
            let t = gv.take(i as int + 1);
            assert(t.drop_last() =~= gv.take(i as int));
            assert(t.last() == gv[i as int]);
            assert(linked_pred()(gv[i as int]) == (gs@[i as int].1.downloadlink@.len() > 0));
        }
        i += 1;
    }
    proof {
        assert(gv.take(gv.len() as int) =~= gv);
    }
    out
}

/// The position before which `x` belongs in a table sorted by the
/// variant order.
fn find_insert_pos(out: &Vec<(u64, DownloadDetail)>, x: &(u64, DownloadDetail)) -> (p: usize)
    ensures
        p <= out@.len(),
        forall|j: int|
            0 <= j < p ==> detail_le(#[trigger] groups_view(out@)[j], (x.0 as int, x.1@)),
        p < out@.len() ==> !detail_le(groups_view(out@)[p as int], (x.0 as int, x.1@)),
{
    let mut p: usize = 0;
    while p < out.len()
        invariant
            p <= out@.len(),
            forall|j: int|
                0 <= j < p ==> detail_le(#[trigger] groups_view(out@)[j], (x.0 as int, x.1@)),
        decreases out@.len() - p,
    {
        if !detail_le_exec(&out[p], x) {
            return p;
        }
        p += 1;
    }
    p
}

/// Sorts a grouping table by the variant order.
fn sort_details(input: Vec<(u64, DownloadDetail)>) -> (r: Vec<(u64, DownloadDetail)>)
    ensures
        groups_view(r@).to_multiset() == groups_view(input@).to_multiset(),
        vstd::relations::sorted_by(groups_view(r@), detail_le_fn()),
{
    broadcast use vstd::seq_lib::group_to_multiset_ensures;

    let ghost orig = groups_view(input@);
    let mut rest = input;
    let mut out: Vec<(u64, DownloadDetail)> = Vec::new();
    proof {
        lemma_detail_le_total_ordering();
        assert(groups_view(out@) =~= Seq::<(int, DetailView)>::empty());
        assert(groups_view(out@).to_multiset().add(groups_view(rest@).to_multiset())
            =~= orig.to_multiset());
    }
    while rest.len() > 0
        invariant
            groups_view(out@).to_multiset().add(groups_view(rest@).to_multiset())
                == orig.to_multiset(),
            vstd::relations::sorted_by(groups_view(out@), detail_le_fn()),
            vstd::relations::total_ordering(detail_le_fn()),
        decreases rest.len(),
    {
        broadcast use vstd::seq_lib::group_to_multiset_ensures;

        let ghost rest0 = groups_view(rest@);
        let ghost out0 = groups_view(out@);
        let x = rest.pop().unwrap();
        proof {
            assert(rest0 =~= groups_view(rest@).push((x.0 as int, x.1@)));
        }
        let p = find_insert_pos(&out, &x);
        let ghost xv = (x.0 as int, x.1@);
        proof {
            if p < out@.len() {
                let leq = detail_le_fn();
                assert(leq(out0[p as int], xv) == detail_le(out0[p as int], xv));
                assert(leq(xv, out0[p as int]) || leq(out0[p as int], xv));
                assert(detail_le(xv, out0[p as int]));
            }
        }
        out.insert(p, x);
        proof {
            let out1 = groups_view(out@);
            assert(out1 =~= out0.take(p as int) + seq![xv] + out0.skip(p as int));
            assert(out0 =~= out0.take(p as int) + out0.skip(p as int));
            vstd::seq_lib::lemma_multiset_commutative(out0.take(p as int), out0.skip(p as int));
            vstd::seq_lib::lemma_multiset_commutative(
                out0.take(p as int) + seq![xv],
                out0.skip(p as int),
            );
            vstd::seq_lib::lemma_multiset_commutative(out0.take(p as int), seq![xv]);
            assert(seq![xv].to_multiset() =~= vstd::multiset::Multiset::<(int, DetailView)>::empty().insert(xv))
                by {
                assert(seq![xv] =~= Seq::<(int, DetailView)>::empty().push(xv));
            }
            assert(out1.to_multiset() =~= out0.to_multiset().insert(xv));
            assert(out1.to_multiset().add(groups_view(rest@).to_multiset()) =~= orig.to_multiset());
            // sortedness of the new table
            let leq = detail_le_fn();
            assert forall|i: int, j: int| 0 <= i < j < out1.len() implies #[trigger] leq(
                out1[i],
                out1[j],
            ) by {
                if i < p as int && j < p as int {
                    assert(leq(out0[i], out0[j]));
                } else if i < p as int && j == p as int {
                    assert(detail_le(out0[i], xv));
                } else if i < p as int && j > p as int {
                    assert(leq(out0[i], out0[j - 1]));
                } else if i == p as int {
                    if j - 1 == p as int {
                        assert(detail_le(xv, out0[p as int]));
                    } else {
                        assert(detail_le(xv, out0[p as int]));
                        assert(leq(out0[p as int], out0[j - 1]));
                        crate::order::lemma_detail_le_trans(xv, out0[p as int], out0[j - 1]);
                    }
                } else {
                    assert(leq(out0[i - 1], out0[j - 1]));
                }
            }
        }
    }
    proof {
        assert(groups_view(rest@) =~= Seq::<(int, DetailView)>::empty());
        assert(groups_view(out@).to_multiset() =~= orig.to_multiset());
    }
    out
}

/// Builds the download variants of a record: grouped, pruned of linkless
/// groups, and sorted into the presentation order.
pub fn build_details(extra: &Vec<(String, RawValue)>) -> (r: Vec<DownloadDetail>)
    ensures
        details_view(r@) == spec_downloads(extra_view(extra@)),
{
    let gs = group_downloads(extra);
    let kept = keep_linked(gs);
    let ghost keptv = groups_view(kept@);
    let sorted = sort_details(kept);
    proof {
        lemma_detail_le_total_ordering();
        keptv.lemma_sort_by_ensures(detail_le_fn());
        vstd::seq_lib::lemma_sorted_unique(
            groups_view(sorted@),
            keptv.sort_by(detail_le_fn()),
            detail_le_fn(),
        );
        assert(groups_view(sorted@) == keptv.sort_by(detail_le_fn()));
    }
    let mut out: Vec<DownloadDetail> = Vec::new();
    let mut i: usize = 0;
    proof {
        assert(details_view(out@) =~= drop_idx(groups_view(sorted@).take(0)));
    }
    while i < sorted.len()
        invariant
            i <= sorted.len(),
            sorted@.len() == groups_view(sorted@).len(),
            groups_view(sorted@) == extra_sorted_view(extra@),
            details_view(out@) == drop_idx(groups_view(sorted@).take(i as int)),
        decreases sorted.len() - i,
    {
        let ghost out0 = out@;
        out.push(sorted[i].1.clone_detail());
        proof {
            let lhs = details_view(out@);
            let rhs = drop_idx(groups_view(sorted@).take(i as int + 1));
            let prev = details_view(out0);
            assert(out@.len() == out0.len() + 1);
            assert(details_view(out0).len() == out0.len());
            assert(drop_idx(groups_view(sorted@).take(i as int)).len() == i as int);
            assert(out0.len() == i as int);
            assert(lhs.len() == out@.len());
            assert(rhs.len() == i as int + 1);
            assert(lhs.len() == rhs.len());
            assert forall|k: int| 0 <= k < lhs.len() implies lhs[k] == rhs[k] by {
                if k < i as int {
                    assert(lhs[k] == out0[k]@);
                    assert(prev[k] == out0[k]@);
                    assert(rhs[k] == drop_idx(groups_view(sorted@).take(i as int))[k]);
                } else {
                    assert(out@[k]@ == sorted@[i as int].1@);
                    assert(rhs[k] == groups_view(sorted@)[i as int].1);
                }
            }
            assert(lhs =~= rhs);
        }
        i += 1;
    }
    proof {
        assert(groups_view(sorted@).take(sorted@.len() as int) =~= groups_view(sorted@));
        assert(details_view(out@) =~= spec_downloads(extra_view(extra@)));
    }
    out
}

/// The sorted grouping view of a bag.
pub open spec fn extra_sorted_view(extra: Seq<(String, RawValue)>) -> Seq<(int, DetailView)> {
    groups_of(extra_view(extra)).filter(linked_pred()).sort_by(detail_le_fn())
}

// ---------------------------------------------------------------------
// The whole record
// ---------------------------------------------------------------------

/// The normalized product of a raw record: fixed fields carried over,
/// the score kept in tenths of a star, the downloads counter defaulted,
/// the description stripped of markup, the previews collected in index
/// order, and the download variants grouped, pruned and sorted.
pub open spec fn spec_normalize(r: RawRecordView) -> ProductView {
    ProductView {
        details: r.details,
        id: r.id,
        name: r.name,
        typeid: r.typeid,
        typename: r.typename,
        personid: r.personid,
        created: r.created,
        changed: r.changed,
        score_tenths: r.score_raw,
        downloads: spec_normalize_downloads(r.downloads),
        description: spec_strip_markup(r.description),
        previewpics: spec_previews(r.extra),
        downloaddetails: spec_downloads(r.extra),
    }
}

/// Normalizes one raw record into a product.
pub fn normalize_record(rec: RawRecord) -> (p: Product)
    ensures
        p@ == spec_normalize(rec@),
{
    let ghost rv = rec@;
    let RawRecord {
        details,
        id,
        name,
        typeid,
        typename,
        personid,
        created,
        changed,
        score_raw,
        downloads,
        description,
        extra,
    } = rec;
    let previewpics = collect_previews(&extra);
    let downloaddetails = build_details(&extra);
    let downloads = normalize_downloads(downloads);
    let description = strip_markup(description.as_str());
    let p = Product {
        details,
        id,
        name,
        typeid,
        typename,
        personid,
        created,
        changed,
        score_tenths: score_raw,
        downloads,
        description,
        previewpics,
        downloaddetails,
    };
    proof {
        assert(p@.previewpics == spec_previews(rv.extra));
        assert(p@.downloaddetails == spec_downloads(rv.extra));
        assert(p@ == spec_normalize(rv));
    }
    p
}

/// The invariants every normalized product satisfies: at most ten
/// previews, a non-empty downloads counter, a delimiter-free
/// description, and download variants that all carry a link and are
/// sorted by display name.
pub open spec fn wf_product(p: ProductView) -> bool {
    &&& p.previewpics.len() <= 10
    &&& p.downloads.len() > 0
    &&& no_delims(p.description)
    &&& (forall|k: int|
        0 <= k < p.downloaddetails.len() ==> (#[trigger] p.downloaddetails[k]).link.len() > 0)
    &&& (forall|i: int, j: int|
        0 <= i < j < p.downloaddetails.len() ==> crate::order::lex_le(
            (#[trigger] p.downloaddetails[i]).name,
            (#[trigger] p.downloaddetails[j]).name,
        ))
}

/// Law: every surviving download variant of any record carries a
/// non-empty link.
pub proof fn lemma_downloads_links(extra: Seq<(Seq<char>, RawValueView)>)
    ensures
        forall|k: int|
            0 <= k < spec_downloads(extra).len() ==> (#[trigger] spec_downloads(
                extra,
            )[k]).link.len() > 0,
{
    broadcast use vstd::seq_lib::group_to_multiset_ensures;
    broadcast use vstd::seq_lib::group_filter_ensures;

    let kept = groups_of(extra).filter(linked_pred());
    lemma_detail_le_total_ordering();
    kept.lemma_sort_by_ensures(detail_le_fn());
    let sorted = kept.sort_by(detail_le_fn());
    assert forall|k: int| 0 <= k < spec_downloads(extra).len() implies (#[trigger] spec_downloads(
        extra,
    )[k]).link.len() > 0 by {
        let g = sorted[k];
        assert(sorted.contains(g));
        assert(sorted.to_multiset().count(g) > 0);
        assert(kept.to_multiset().count(g) > 0);
        assert(kept.contains(g));
        let j = choose|j: int| 0 <= j < kept.len() && kept[j] == g;
        assert(linked_pred()(kept[j]));
        assert(spec_downloads(extra)[k] == g.1);
    }
}

/// Law: the variants of any record come out sorted by display name.
pub proof fn lemma_downloads_sorted(extra: Seq<(Seq<char>, RawValueView)>)
    ensures
        forall|i: int, j: int|
            0 <= i < j < spec_downloads(extra).len() ==> crate::order::lex_le(
                (#[trigger] spec_downloads(extra)[i]).name,
                (#[trigger] spec_downloads(extra)[j]).name,
            ),
{
    let kept = groups_of(extra).filter(linked_pred());
    lemma_detail_le_total_ordering();
    kept.lemma_sort_by_ensures(detail_le_fn());
    let sorted = kept.sort_by(detail_le_fn());
    assert forall|i: int, j: int|
        0 <= i < j < spec_downloads(extra).len() implies crate::order::lex_le(
        (#[trigger] spec_downloads(extra)[i]).name,
        (#[trigger] spec_downloads(extra)[j]).name,
    ) by {
        let leq = detail_le_fn();
        assert(leq(sorted[i], sorted[j]));
        assert(detail_le(sorted[i], sorted[j]));
        if sorted[i].1.name == sorted[j].1.name {
            crate::order::lemma_lex_le_total(sorted[i].1.name, sorted[i].1.name);
        }
        assert(spec_downloads(extra)[i] == sorted[i].1);
        assert(spec_downloads(extra)[j] == sorted[j].1);
    }
}

/// Law: normalization always yields a well-formed product — no more
/// than ten previews, a non-empty downloads counter, a delimiter-free
/// description, and linked, name-sorted download variants — whatever
/// the raw record held.
pub proof fn lemma_normalize_wf(r: RawRecordView)
    ensures
        wf_product(spec_normalize(r)),
{
    lemma_previews_len(r.extra);
    lemma_strip_no_delims(r.description, false);
    lemma_downloads_links(r.extra);
    lemma_downloads_sorted(r.extra);
    if r.downloads.len() == 0 {
        reveal_strlit("0");
        assert(spec_normalize_downloads(r.downloads).len() == 1);
    }
}

} // verus!
