//! The decisions of the login flow: the server URL, the pause between polls,
//! and what a poll's status means.

use vstd::prelude::*;
use crate::text::has_prefix;

verus! {

/// Whether `s` begins with `p`.
pub open spec fn starts_with(s: Seq<char>, p: Seq<char>) -> bool {
    p.len() <= s.len() && s.subrange(0, p.len() as int) == p
}

/// The URL of a server as the user typed it: kept where it names the scheme
/// "https://" or "http://", else prefixed with "https://".
pub fn server_url(server: &str) -> (r: String)
    ensures
        r@ == if starts_with(server@, "https://"@) || starts_with(server@, "http://"@) {
            server@
        } else {
            "https://"@ + server@
        },
{
    if has_prefix(server, "https://") || has_prefix(server, "http://") {
        String::from_str(server)
    } else {
        String::from_str("https://").concat(server)
    }
}

/// Seconds to wait before the next poll, after `check_counter` polls.
pub open spec fn wait_secs(check_counter: u64) -> u64 {
    if 1 <= check_counter <= 10 {
        1
    } else if 11 <= check_counter <= 30 {
        2
    } else if 31 <= check_counter <= 90 {
        4
    } else {
        10
    }
}

/// Seconds to wait before the next poll, after `check_counter` polls.
pub fn poll_wait_secs(check_counter: u64) -> (r: u64)
    ensures
        r == wait_secs(check_counter),
{
    if 1 <= check_counter && check_counter <= 10 {
        1
    } else if 11 <= check_counter && check_counter <= 30 {
        2
    } else if 31 <= check_counter && check_counter <= 90 {
        4
    } else {
        10
    }
}

/// What a poll of the login endpoint tells.
#[derive(Debug, Clone, Copy, PartialEq, Eq, Structural)]
pub enum PollOutcome {
    /// Access is not granted yet: wait and poll again.
    Pending,
    /// Access was granted: the answer holds the account settings.
    Granted,
    /// Anything else: the login fails.
    Failed,
}

/// The outcome of a poll answered with HTTP status `status`.
pub fn poll_outcome(status: u16) -> (r: PollOutcome)
    ensures
        r == (if status == 404 {
            PollOutcome::Pending
        } else if status == 200 {
            PollOutcome::Granted
        } else {
            PollOutcome::Failed
        }),
{
    if status == 404 {
        PollOutcome::Pending
    } else if status == 200 {
        PollOutcome::Granted
    } else {
        PollOutcome::Failed
    }
}

} // verus!
