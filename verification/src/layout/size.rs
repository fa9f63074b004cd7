//! Parsing of size-change arguments ("+100", "-50", "800", "50%").
use vstd::prelude::*;

use super::{div_trunc, div_trunc_i64, SizeChange};
use crate::text::{
    chars_of, lemma_number_range, number_micros, parse_number_micros, trim, trim_chars,
};

verus! {

/// The size change a (trimmed) argument text denotes: a trailing `%`
/// makes a proportion, a leading `+`/`-` a delta, anything else a fixed
/// size; the number itself is a decimal, optionally with an exponent
/// (see [`number_micros`]).
pub open spec fn parse_size_change(s: Seq<char>) -> Option<SizeChange> {
    let t = trim(s);
    if t.len() > 0 && t.last() == '%' {
        match number_micros(trim(t.drop_last())) {
            Some(p) => Some(SizeChange::Proportion(div_trunc(p as int, 100) as i64)),
            None => None,
        }
    } else if t.len() > 0 && t[0] == '+' {
        match number_micros(trim(t.drop_first())) {
            Some(d) => Some(SizeChange::Delta(d)),
            None => None,
        }
    } else if t.len() > 0 && t[0] == '-' {
        match number_micros(trim(t.drop_first())) {
            Some(d) => Some(SizeChange::Delta((-d) as i64)),
            None => None,
        }
    } else {
        match number_micros(t) {
            Some(f) => Some(SizeChange::Fixed(f)),
            None => None,
        }
    }
}

impl SizeChange {
    /// Parse niri's set-column-width / set-window-height argument.
    pub fn parse(s: &str) -> (r: Option<SizeChange>)
        ensures
            r == parse_size_change(s@),
    {
        let cs = chars_of(s);
        let t = trim_chars(cs.as_slice());
        let n = t.len();
        if n > 0 && t[n - 1] == '%' {
            let body = trim_chars(&t.as_slice()[0..n - 1]);
            assert(t@.subrange(0, n - 1) =~= t@.drop_last());
            return match parse_number_micros(body.as_slice()) {
                Some(p) => Some(SizeChange::Proportion(div_trunc_i64(p, 100))),
                None => None,
            };
        }
        if n > 0 && (t[0] == '+' || t[0] == '-') {
            let body = trim_chars(&t.as_slice()[1..n]);
            assert(t@.subrange(1, n as int) =~= t@.drop_first());
            let d = match parse_number_micros(body.as_slice()) {
                Some(d) => d,
                None => return None,
            };
            proof {
                lemma_number_range(trim(t@.drop_first()));
            }
            return Some(SizeChange::Delta(if t[0] == '+' {
                d
            } else {
                -d
            }));
        }
        match parse_number_micros(t.as_slice()) {
            Some(f) => Some(SizeChange::Fixed(f)),
            None => None,
        }
    }
}

} // verus!
