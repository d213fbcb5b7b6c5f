//! Timestamps: the marketplace sends RFC 3339 date-and-time strings,
//! shown to the user as zero-padded "dd-mm-yyyy" text.

use chrono::Datelike;
use vstd::prelude::*;

use crate::numtext::{dec_rep, u64_to_string};
use crate::strutil::push_char;

verus! {

/// The calendar date (year, month, day) written in an RFC 3339
/// date-and-time string, if the string is one. The date is a function
/// of the text alone.
pub uninterp spec fn rfc3339_date(s: Seq<char>) -> Option<(int, int, int)>;

/// Relies on chrono's DateTime::parse_from_rfc3339 and the Datelike
/// accessors year, month and day of the parsed value: the parse depends
/// on the text alone, and an RFC 3339 date carries a four-digit year, a
/// month in 1..=12 and a day in 1..=31. A failed parse returns chrono's
/// error message.
#[verifier::external_body]
fn parse_rfc3339_date(s: &str) -> (r: Result<(i32, u32, u32), String>)
    ensures
        r is Ok <==> rfc3339_date(s@) is Some,
        r matches Ok(d) ==> rfc3339_date(s@) == Some((d.0 as int, d.1 as int, d.2 as int)) && 0
            <= d.0 <= 9999 && 1 <= d.1 <= 12 && 1 <= d.2 <= 31,
{
    match chrono::DateTime::parse_from_rfc3339(s) {
        Ok(dt) => Ok((dt.year(), dt.month(), dt.day())),
        Err(e) => Err(e.to_string()),
    }
}

/// `n` zero characters.
pub open spec fn zeroes(n: nat) -> Seq<char> {
    Seq::new(n, |i: int| '0')
}

/// The decimal representation of `v`, zero-padded on the left to at
/// least `width` characters.
pub open spec fn pad_num(v: nat, width: nat) -> Seq<char> {
    let d = dec_rep(v);
    if d.len() >= width {
        d
    } else {
        zeroes((width - d.len()) as nat) + d
    }
}

/// A date as displayed: zero-padded day, month and four-digit year.
pub open spec fn spec_date_text(y: int, m: int, d: int) -> Seq<char> {
    pad_num(d as nat, 2) + "-"@ + pad_num(m as nat, 2) + "-"@ + pad_num(y as nat, 4)
}

/// Renders `v` in decimal, zero-padded on the left to `width`.
fn pad_u64(v: u64, width: usize) -> (r: String)
    ensures
        r@ == pad_num(v as nat, width as nat),
{
    let digits = u64_to_string(v);
    let dlen = digits.as_str().unicode_len();
    let mut out = String::new();
    let mut k: usize = dlen;
    proof {
        assert(out@ =~= zeroes(0));
    }
    while k < width
        invariant
            dlen <= k,
            k <= width || k == dlen,
            dlen == dec_rep(v as nat).len(),
            out@ == zeroes((k - dlen) as nat),
        decreases width - k,
    {
        push_char(&mut out, '0');
        proof {
            assert(out@ =~= zeroes((k + 1 - dlen) as nat));
        }
        k += 1;
    }
    out.append(digits.as_str());
    proof {
        assert(out@ =~= pad_num(v as nat, width as nat));
    }
    out
}

/// Renders an RFC 3339 timestamp as "dd-mm-yyyy"; a string that is no
/// RFC 3339 date-and-time reads as the parser's error message instead.
pub fn get_formatted_date(dt: &str) -> (r: String)
    ensures
        rfc3339_date(dt@) matches Some(ymd) ==> r@ == spec_date_text(ymd.0, ymd.1, ymd.2),
{
    match parse_rfc3339_date(dt) {
        Ok(ymd) => {
            let (y, m, d) = ymd;
            let mut s = pad_u64(d as u64, 2);
            s.append("-");
            let mm = pad_u64(m as u64, 2);
            s.append(mm.as_str());
            s.append("-");
            let yy = pad_u64(y as u64, 4);
            s.append(yy.as_str());
            proof {
                let spec_ymd = rfc3339_date(dt@).unwrap();
                assert(s@ =~= spec_date_text(spec_ymd.0, spec_ymd.1, spec_ymd.2));
            }
            s
        },
        Err(e) => e,
    }
}

} // verus!
