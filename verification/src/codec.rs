//! Framing of the status exchange: the literal request payload and the
//! blank-line terminator that ends a response.

use vstd::prelude::*;
use vstd::string::{StrSliceExecFns, StringExecFns};

verus! {

/// A response is complete once the accumulated text ends with two
/// consecutive newline characters: a blank line after the last record.
pub open spec fn is_terminated(s: Seq<char>) -> bool {
    s.len() >= 2 && s[s.len() - 2] == '\n' && s[s.len() - 1] == '\n'
}

/// The literal request payload of the status query.
pub fn request() -> (r: &'static str)
    ensures
        r@ == "status\n"@,
{
    "status\n"
}

/// Whether the accumulated response text is complete.
pub fn response_complete(resp: &str) -> (r: bool)
    ensures
        r == is_terminated(resp@),
{
    let len = resp.unicode_len();
    if len < 2 {
        return false;
    }
    resp.get_char(len - 2) == '\n' && resp.get_char(len - 1) == '\n'
}

/// Append the chunk the transport handed back and say whether the
/// terminator has now been seen.
pub fn accept_chunk(resp: &mut String, chunk: &str) -> (done: bool)
    ensures
        final(resp)@ == old(resp)@ + chunk@,
        done == is_terminated(final(resp)@),
{
    resp.append(chunk);
    response_complete(resp.as_str())
}

/// What one read step of the streaming response decides.
#[derive(Debug, Clone, Copy, PartialEq, Eq)]
pub enum ReadOutcome {
    /// The terminator has been seen: the response is complete.
    Done,
    /// No terminator yet and the transport is still open: read on.
    NeedMore,
    /// The transport handed back a zero-length chunk before the
    /// terminator: the response was cut short, a transport error.
    Truncated,
}

/// One step of the streaming read: append the chunk and decide. The
/// response is done once the accumulated text ends with the blank line;
/// a zero-length chunk before that is the transport error; anything else
/// means more must be read.
pub fn read_step(resp: &mut String, chunk: &str) -> (r: ReadOutcome)
    ensures
        final(resp)@ == old(resp)@ + chunk@,
        r == ReadOutcome::Done <==> is_terminated(final(resp)@),
        r == ReadOutcome::Truncated <==> !is_terminated(final(resp)@) && chunk@.len() == 0,
        r == ReadOutcome::NeedMore <==> !is_terminated(final(resp)@) && chunk@.len() > 0,
{
    let done = accept_chunk(resp, chunk);
    if done {
        ReadOutcome::Done
    } else if chunk.unicode_len() == 0 {
        ReadOutcome::Truncated
    } else {
        ReadOutcome::NeedMore
    }
}

} // verus!
