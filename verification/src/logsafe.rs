//! What may be said of a typed word outside the process that typed it.

use vstd::prelude::*;
use vstd::string::*;

use crate::text::{decimal, decimal_text};

verus! {

/// The redacted form of a word of `n` characters.
pub open spec fn redacted(n: nat) -> Seq<char> {
    "<"@ + decimal(n) + " chars>"@
}

/// Stand-in for a typed word in logs and events: how many characters it
/// has, and nothing else of it.
pub fn redact_word(word: &str) -> (shown: String)
    ensures
        shown@ == redacted(word@.len()),
{
    render(word)
}

pub fn render(word: &str) -> (shown: String)
    ensures
        shown@ == redacted(word@.len()),
{
    let mut shown = "<".to_owned();
    shown.append(decimal_text(word.unicode_len() as u64).as_str());
    shown.append(" chars>");
    shown
}

/// Two words of one length are indistinguishable once redacted: nothing of
/// a word but its length survives.
pub proof fn law_redaction_keeps_only_the_length(a: &str, b: &str, x: String, y: String)
    requires
        a@.len() == b@.len(),
        call_ensures(redact_word, (a,), x),
        call_ensures(redact_word, (b,), y),
    ensures
        x@ == y@,
{
}

} // verus!
