//! The presentation order of download variants: lexicographic order on
//! character sequences (by Unicode scalar value), extended to a total
//! order on indexed variants so that sorting has one well-defined result.

use vstd::prelude::*;

use crate::product::{DetailView, DownloadDetail};
use crate::strutil::str_eq;

verus! {

/// Lexicographic order on character sequences, comparing Unicode scalar
/// values position by position; a proper prefix sorts first.
pub open spec fn lex_le(a: Seq<char>, b: Seq<char>) -> bool
    decreases a.len(),
{
    if a.len() == 0 {
        true
    } else if b.len() == 0 {
        false
    } else if (a[0] as u32) < (b[0] as u32) {
        true
    } else if (b[0] as u32) < (a[0] as u32) {
        false
    } else {
        lex_le(a.drop_first(), b.drop_first())
    }
}

/// Two characters with one scalar value are one character.
pub proof fn lemma_char_cast_injective(a: char, b: char)
    requires
        a as u32 == b as u32,
    ensures
        a == b,
{
    vstd::utf8::char_u32_cast(a, a as u32);
    vstd::utf8::char_u32_cast(b, b as u32);
}

/// Lexicographic order is total.
pub proof fn lemma_lex_le_total(a: Seq<char>, b: Seq<char>)
    ensures
        lex_le(a, b) || lex_le(b, a),
    decreases a.len(),
{
    if a.len() > 0 && b.len() > 0 && (a[0] as u32) == (b[0] as u32) {
        lemma_lex_le_total(a.drop_first(), b.drop_first());
    }
}

/// Lexicographic order is antisymmetric.
pub proof fn lemma_lex_le_antisym(a: Seq<char>, b: Seq<char>)
    requires
        lex_le(a, b),
        lex_le(b, a),
    ensures
        a == b,
    decreases a.len(),
{
    if a.len() == 0 {
        assert(b.len() == 0);
        assert(a =~= b);
    } else {
        assert(b.len() > 0);
        lemma_char_cast_injective(a[0], b[0]);
        lemma_lex_le_antisym(a.drop_first(), b.drop_first());
        assert(a =~= seq![a[0]] + a.drop_first());
        assert(b =~= seq![b[0]] + b.drop_first());
    }
}

/// Lexicographic order is transitive.
pub proof fn lemma_lex_le_trans(a: Seq<char>, b: Seq<char>, c: Seq<char>)
    requires
        lex_le(a, b),
        lex_le(b, c),
    ensures
        lex_le(a, c),
    decreases a.len(),
{
    if a.len() > 0 && b.len() > 0 && c.len() > 0 && (a[0] as u32) == (b[0] as u32) && (b[0] as u32)
        == (c[0] as u32) {
        lemma_lex_le_trans(a.drop_first(), b.drop_first(), c.drop_first());
    }
}

/// Compares two strings lexicographically.
pub fn str_lex_le(a: &str, b: &str) -> (r: bool)
    ensures
        r == lex_le(a@, b@),
{
    let alen = a.unicode_len();
    let blen = b.unicode_len();
    let mut i: usize = 0;
    proof {
        assert(a@.skip(0) =~= a@);
        assert(b@.skip(0) =~= b@);
    }
    loop
        invariant
            i <= alen,
            i <= blen,
            alen == a@.len(),
            blen == b@.len(),
            lex_le(a@, b@) == lex_le(a@.skip(i as int), b@.skip(i as int)),
        decreases alen - i,
    {
        if i >= alen {
            return true;
        }
        if i >= blen {
            return false;
        }
        let ca = a.get_char(i) as u32;
        let cb = b.get_char(i) as u32;
        if ca < cb {
            return true;
        }
        if cb < ca {
            return false;
        }
        proof {
            assert(a@.skip(i as int).drop_first() =~= a@.skip(i as int + 1));
            assert(b@.skip(i as int).drop_first() =~= b@.skip(i as int + 1));
        }
        i += 1;
    }
}

/// The presentation order of grouped download variants: by display name
/// first, then by the numeric suffix index the group was built from, then
/// by the remaining fields, so that the order is total.
pub open spec fn detail_le(a: (int, DetailView), b: (int, DetailView)) -> bool {
    if a.1.name != b.1.name {
        lex_le(a.1.name, b.1.name)
    } else if a.0 != b.0 {
        a.0 <= b.0
    } else if a.1.link != b.1.link {
        lex_le(a.1.link, b.1.link)
    } else {
        a.1.size <= b.1.size
    }
}

/// The variant order as a relation value, shared by every statement
/// that sorts with it.
pub open spec fn detail_le_fn() -> spec_fn((int, DetailView), (int, DetailView)) -> bool {
    |a: (int, DetailView), b: (int, DetailView)| detail_le(a, b)
}

/// The variant order is a total ordering, so a sorted arrangement of any
/// collection of variants is unique.
pub proof fn lemma_detail_le_total_ordering()
    ensures
        vstd::relations::total_ordering(detail_le_fn()),
{
    let leq = detail_le_fn();
    assert forall|a: (int, DetailView)| #[trigger] leq(a, a) by {
        lemma_lex_le_total(a.1.name, a.1.name);
    }
    assert forall|a: (int, DetailView), b: (int, DetailView)|
        #[trigger] leq(a, b) && #[trigger] leq(b, a) implies a == b by {
        if a.1.name != b.1.name {
            lemma_lex_le_antisym(a.1.name, b.1.name);
        } else if a.0 != b.0 {
        } else if a.1.link != b.1.link {
            lemma_lex_le_antisym(a.1.link, b.1.link);
        } else {
            assert(a.1.size == b.1.size);
            assert(a.1 == (DetailView { link: a.1.link, name: a.1.name, size: a.1.size }));
            assert(b.1 == (DetailView { link: b.1.link, name: b.1.name, size: b.1.size }));
        }
    }
    assert forall|a: (int, DetailView), b: (int, DetailView), c: (int, DetailView)|
        #[trigger] leq(a, b) && #[trigger] leq(b, c) implies leq(a, c) by {
        lemma_detail_le_trans(a, b, c);
    }
    assert forall|a: (int, DetailView), b: (int, DetailView)|
        #[trigger] leq(a, b) || #[trigger] leq(b, a) by {
        if a.1.name != b.1.name {
            lemma_lex_le_total(a.1.name, b.1.name);
        } else if a.1.link != b.1.link {
            lemma_lex_le_total(a.1.link, b.1.link);
        }
    }
}

/// Transitivity of the variant order.
pub proof fn lemma_detail_le_trans(a: (int, DetailView), b: (int, DetailView), c: (int, DetailView))
    requires
        detail_le(a, b),
        detail_le(b, c),
    ensures
        detail_le(a, c),
{
    if a.1.name != b.1.name && b.1.name != c.1.name {
        lemma_lex_le_trans(a.1.name, b.1.name, c.1.name);
        if a.1.name == c.1.name {
            lemma_lex_le_antisym(a.1.name, b.1.name);
        }
    } else if a.1.name == b.1.name && b.1.name != c.1.name {
    } else if a.1.name != b.1.name && b.1.name == c.1.name {
    } else {
        // names all equal: the order falls to the index and the rest
        if a.0 != b.0 && b.0 != c.0 {
        } else if a.0 == b.0 && b.0 == c.0 {
            if a.1.link != b.1.link && b.1.link != c.1.link {
                lemma_lex_le_trans(a.1.link, b.1.link, c.1.link);
                if a.1.link == c.1.link {
                    lemma_lex_le_antisym(a.1.link, b.1.link);
                }
            }
        }
    }
}

/// Compares two indexed variants in the presentation order.
pub fn detail_le_exec(a: &(u64, DownloadDetail), b: &(u64, DownloadDetail)) -> (r: bool)
    ensures
        r == detail_le((a.0 as int, a.1@), (b.0 as int, b.1@)),
{
    if !str_eq(a.1.downloadname.as_str(), b.1.downloadname.as_str()) {
        str_lex_le(a.1.downloadname.as_str(), b.1.downloadname.as_str())
    } else if a.0 != b.0 {
        a.0 <= b.0
    } else if !str_eq(a.1.downloadlink.as_str(), b.1.downloadlink.as_str()) {
        str_lex_le(a.1.downloadlink.as_str(), b.1.downloadlink.as_str())
    } else {
        a.1.downloadsize <= b.1.downloadsize
    }
}

} // verus!
