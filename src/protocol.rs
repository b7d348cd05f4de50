//! The line protocol spoken with an agent: the host writes one request line, the agent writes
//! diagnostic lines and then one line that starts with a fixed marker and carries its output.
use crate::api::{PlayerOutput, RunnerError};
use crate::text::starts_with;
use std::time::Duration;
use vstd::prelude::*;
use vstd::string::*;

verus! {

/// The marker that starts the line on which an agent returns its output.
pub const OUTPUT_PREFIX: &'static str = "__mlr_output:";

/// The marker, as characters.
pub open spec fn output_prefix() -> Seq<char> {
    "__mlr_output:"@
}

/// The output carried by `line`: what follows the marker where the line starts with it.
pub open spec fn payload_of(line: Seq<char>) -> Option<Seq<char>> {
    let n = output_prefix().len();
    if n <= line.len() && line.subrange(0, n as int) == output_prefix() {
        Some(line.subrange(n as int, line.len() as int))
    } else {
        None
    }
}

/// What the host does with the next event of an agent's output stream.
#[derive(Debug)]
pub enum ProtocolStep {
    /// A diagnostic line: it is logged, never parsed, and reading goes on.
    Forward(String),
    /// The output line: this text is parsed as the agent's output.
    Output(String),
    /// The stream ended before an output line.
    Failed(RunnerError),
}

/// The output carried by `line`, if it is the output line: the text after the marker.
pub fn output_payload(line: &str) -> (r: Option<&str>)
    ensures
        match r {
            Some(p) => payload_of(line@) == Some(p@),
            None => payload_of(line@) is None,
        },
{
    proof {
        reveal_strlit("__mlr_output:");
    }
    if starts_with(line, OUTPUT_PREFIX) {
        let n = OUTPUT_PREFIX.unicode_len();
        Some(line.substring_char(n, line.unicode_len()))
    } else {
        None
    }
}

/// The line on which an agent returns the output `payload`: the marker, then the payload.
pub fn output_line(payload: &str) -> (r: String)
    ensures
        r@ == output_prefix() + payload@,
{
    proof {
        reveal_strlit("__mlr_output:");
    }
    let mut r = OUTPUT_PREFIX.to_owned();
    r.append(payload);
    r
}

/// The request line that the host writes for the encoded input `json`: the text and a newline.
pub fn request_line(json: &str) -> (r: String)
    ensures
        r@ == json@.push('\n'),
{
    proof {
        reveal_strlit("\n");
    }
    let mut r = json.to_owned();
    r.append("\n");
    assert(r@ == json@.push('\n'));
    r
}

/// Decides what to do with the next event of an agent's output stream: `Some(line)` for a
/// line, `None` where the stream ended or could not be read.
pub fn next_step(event: Option<String>) -> (r: ProtocolStep)
    ensures
        match event {
            None => r matches ProtocolStep::Failed(RunnerError::NoData),
            Some(line) => match payload_of(line@) {
                Some(p) => r matches ProtocolStep::Output(o) && o@ == p,
                None => r matches ProtocolStep::Forward(l) && l@ == line@,
            },
        },
{
    match event {
        None => ProtocolStep::Failed(RunnerError::NoData),
        Some(line) => match output_payload(line.as_str()) {
            Some(p) => ProtocolStep::Output(p.to_owned()),
            None => ProtocolStep::Forward(line),
        },
    }
}

/// The result of a call that raced a deadline of `limit`: its own result where it finished in
/// time (`Some`), and a timeout error otherwise.
pub fn timed_result(
    finished: Option<Result<PlayerOutput, RunnerError>>,
    limit: Duration,
) -> (r: Result<PlayerOutput, RunnerError>)
    ensures
        match finished {
            Some(res) => r == res,
            None => r matches Err(RunnerError::Timeout(d)) && d == limit,
        },
{
    match finished {
        Some(res) => res,
        None => Err(RunnerError::Timeout(limit)),
    }
}

/// The output line of an agent carries exactly the payload it was built from, whatever the
/// payload holds.
pub proof fn lemma_output_line_round_trip(payload: Seq<char>)
    ensures
        payload_of(output_prefix() + payload) == Some(payload),
{
    let line = output_prefix() + payload;
    let n = output_prefix().len();
    assert(line.subrange(0, n as int) == output_prefix());
    assert(line.subrange(n as int, line.len() as int) == payload);
}

} // verus!
