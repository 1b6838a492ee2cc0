//! Redaction of secret values before they are echoed back to the user.

use vstd::prelude::*;

use crate::strutil::push_char;

verus! {

/// The redacted form: a short prefix (a third of the value, at most five
/// characters), three bullets, and the last character.
pub open spec fn spec_redact(s: Seq<char>) -> Seq<char> {
    let keep = if s.len() / 3 < 5 {
        s.len() / 3
    } else {
        5
    };
    let base = s.take(keep as int) + seq!['•', '•', '•'];
    if s.len() > 0 {
        base.push(s.last())
    } else {
        base
    }
}

/// Redacts a secret for display.
pub fn redact(value: String) -> (r: String)
    ensures
        r@ == spec_redact(value@),
{
    let len = value.as_str().unicode_len();
    let third = len / 3;
    let keep = if third < 5 {
        third
    } else {
        5
    };
    let mut out = crate::strutil::substr(value.as_str(), 0, keep);
    out.append("•••");
    proof {
        reveal_strlit("•••");
        assert("•••"@ =~= seq!['•', '•', '•']);
    }
    if len > 0 {
        let last = value.as_str().get_char(len - 1);
        push_char(&mut out, last);
    }
    out
}

} // verus!
