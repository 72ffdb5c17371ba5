//! What the application settles with the music service before a backup
//! runs: where the service sends a user back to, which rights it asks for,
//! and how it waits when the service pushes back.

use vstd::prelude::*;
use vstd::string::{StrSliceExecFns, StringExecFns};

verus! {

/// The rights that a backup needs.
pub const SCOPE: &'static str = "user-library-read playlist-read-private";

/// `text` without the slashes at its end.
pub open spec fn without_trailing_slashes(text: Seq<char>) -> Seq<char>
    decreases text.len(),
{
    if text.len() > 0 && text.last() == '/' {
        without_trailing_slashes(text.drop_last())
    } else {
        text
    }
}

pub fn trim_trailing_slashes(text: &str) -> (res: &str)
    ensures
        res@ == without_trailing_slashes(text@),
{
    let mut end: usize = text.unicode_len();
    assert(text@.take(end as int) =~= text@);
    while end > 0 && text.get_char(end - 1) == '/'
        invariant
            end <= text@.len(),
            without_trailing_slashes(text@) == without_trailing_slashes(text@.take(end as int)),
        decreases end,
    {
        assert(text@.take(end as int).drop_last() =~= text@.take(end - 1));
        end -= 1;
    }
    text.substring_char(0, end)
}

/// Where the service sends a user back to, for an application that is
/// reached under `base_url`.
pub open spec fn spec_redirect_uri(base_url: Seq<char>) -> Seq<char> {
    without_trailing_slashes(base_url) + "/callback"@
}

pub fn redirect_uri(base_url: &str) -> (res: String)
    ensures
        res@ == spec_redirect_uri(base_url@),
{
    let mut uri = trim_trailing_slashes(base_url).to_owned();
    uri.append("/callback");
    uri
}

/// What to do after the service has answered that it is asked too often.
#[derive(Debug, Clone, Copy, PartialEq, Eq, Structural)]
pub struct Retry {
    /// The seconds to wait now.
    pub pause_secs: u64,
    /// Whether to ask again after the wait.
    pub again: bool,
}

/// What to do after the service has asked for a rest of `retry_after`
/// seconds, with `max_tries` further attempts allowed: wait for twice as
/// long as asked, as far as the seconds can be counted, and ask again if
/// another attempt is allowed.
pub fn retry_after_rate_limit(retry_after: usize, max_tries: u32) -> (res: Retry)
    ensures
        res.pause_secs == if 2 * retry_after <= u64::MAX {
            2 * retry_after
        } else {
            u64::MAX as int
        },
        res.again == (max_tries > 0),
{
    let asked = retry_after as u64;
    let pause_secs = if asked <= u64::MAX / 2 {
        asked * 2
    } else {
        u64::MAX
    };
    Retry { pause_secs, again: max_tries > 0 }
}

} // verus!
