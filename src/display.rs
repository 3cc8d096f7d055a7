//! How the command-line front ends present tasks and notifications.
use vstd::prelude::*;
use vstd::string::*;
use crate::text::same_text;

verus! {

/// Longest label shown whole in a task listing, in characters.
pub const LABEL_WIDTH: usize = 28;

/// Characters kept from a label that is too long.
pub const LABEL_KEEP: usize = 25;

/// A listing label: `text` itself when it fits, else its first characters
/// followed by `...`.
pub open spec fn label_text(text: Seq<char>) -> Seq<char> {
    if text.len() > LABEL_WIDTH {
        text.subrange(0, LABEL_KEEP as int) + "..."@
    } else {
        text
    }
}

/// The label for `text` in a task listing (see `label_text`).
pub fn display_label(text: &str) -> (r: String)
    ensures
        r@ == label_text(text@),
{
    let n = text.unicode_len();
    if n > LABEL_WIDTH {
        let mut s = text.substring_char(0, LABEL_KEEP).to_owned();
        s.append("...");
        s
    } else {
        text.to_owned()
    }
}

/// How insistent a desktop notification is.
#[derive(Clone, Copy, Debug, PartialEq, Eq, Structural)]
pub enum UrgencyLevel {
    Low,
    Normal,
    Critical,
}

/// The urgency a configured name stands for: `low` and `critical` are
/// recognised, anything else is normal.
pub fn urgency_level(name: &str) -> (r: UrgencyLevel)
    ensures
        name@ == "low"@ ==> r == UrgencyLevel::Low,
        name@ == "critical"@ ==> r == UrgencyLevel::Critical,
        name@ != "low"@ && name@ != "critical"@ ==> r == UrgencyLevel::Normal,
{
    proof {
        reveal_strlit("low");
        reveal_strlit("critical");
        assert("low"@.len() != "critical"@.len());
    }
    if same_text(name, "low") {
        UrgencyLevel::Low
    } else if same_text(name, "critical") {
        UrgencyLevel::Critical
    } else {
        UrgencyLevel::Normal
    }
}

} // verus!
