//! Text helpers for the history table.

use vstd::prelude::*;

use crate::text::{from_chars, slice_chars, to_chars, to_string};

verus! {

/// What `truncate` makes of `s`: unchanged if it fits in `n` characters,
/// else its first `n - 1` characters and an ellipsis.
pub open spec fn spec_truncate(s: Seq<char>, n: nat) -> Seq<char> {
    if s.len() <= n {
        s
    } else {
        s.take(n - 1).push('\u{2026}')
    }
}

pub fn truncate(s: &str, n: usize) -> (r: String)
    requires
        n > 0 || s@.len() == 0,
    ensures
        r@ == spec_truncate(s@, n as nat),
{
    let v = to_chars(s);
    if v.len() <= n {
        from_chars(&v)
    } else {
        let mut t = slice_chars(&v, 0, n - 1);
        t.push('\u{2026}');
        from_chars(&t)
    }
}

} // verus!
