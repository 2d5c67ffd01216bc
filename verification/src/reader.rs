//! The decision half of the input reader. The unverified shell does the
//! blocking terminal read; this module decides whether the raw line is
//! accepted and what the reader hands back for it.

use vstd::prelude::*;
use crate::text::is_blank;
use crate::text::line_is_blank;
use crate::markup::apply_markup;
use crate::markup::apply_markup_spec;
use crate::markup::lemma_markup_keeps_nonblank;

verus! {

/// One reader step on one raw line. A blank (white-space-only) line yields
/// `None`: the reader must discard it and read again. Any other line yields
/// the markup-transformed line, and that returned line is never blank.
pub fn process_line(s: &str) -> (r: Option<String>)
    ensures
        r is None <==> is_blank(s@),
        r matches Some(out) ==> out@ == apply_markup_spec(s@) && !is_blank(out@),
{
    if line_is_blank(s) {
        None
    } else {
        proof {
            lemma_markup_keeps_nonblank(s@);
        }
        Some(apply_markup(s))
    }
}

} // verus!
