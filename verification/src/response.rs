//! What one HTTP exchange came to, and the status line that reports it.

use vstd::prelude::*;
use vstd::string::*;
use std::time::Duration;
use crate::humanize::{human_bytes, human_bytes_text};
use crate::text::{append_digits, digits};

verus! {

/// What came back from the server.
#[derive(Debug)]
pub struct ResponseSummary {
    /// The status code.
    pub status: u16,
    /// The content length that the transport reported, if it reported one.
    pub content_length: Option<u64>,
    /// From dispatch to completion, in nanoseconds.
    pub round_trip: u64,
    /// From dispatch to the arrival of status and headers, in nanoseconds.
    pub latency: u64,
    /// The body text, or the text of the error that reading it gave.
    pub body: Result<String, String>,
}

/// How an exchange ended.
#[derive(Debug)]
pub enum Exchange {
    /// The server answered.
    Answered(ResponseSummary),
    /// The transport failed; the text describes the error.
    Failed(String),
}

/// The text in which `std::time::Duration` shows a span of this many
/// nanoseconds through `Debug`.
pub uninterp spec fn duration_text(nanos: u64) -> Seq<char>;

/// Formats a span of `nanos` nanoseconds as `Duration`'s `Debug` does. The
/// text depends on the span alone.
#[verifier::external_body]
fn duration_debug(nanos: u64) -> (text: String)
    ensures
        text@ == duration_text(nanos),
{
    format!("{:?}", Duration::from_nanos(nanos))
}

/// The byte count to report: the reported content length, unless none was
/// reported or it is zero and a body of `received` bytes was read.
pub open spec fn effective_length(reported: Option<u64>, received: Option<nat>) -> nat {
    let length = match reported {
        Some(n) => n as nat,
        None => 0,
    };
    match received {
        Some(n) => if length == 0 {
            n
        } else {
            length
        },
        None => length,
    }
}

/// The status line of an answered exchange.
pub open spec fn status_line_text(status: u16, bytes: nat, round_trip: u64, latency: u64) -> Seq<
    char,
> {
    "STATUS="@ + digits(status as nat) + " | BYTES="@ + human_bytes_text(bytes as int) + " | RTT="@
        + duration_text(round_trip) + " | LAT="@ + duration_text(latency)
}

impl ResponseSummary {
    /// The number of bytes of the body that was read, if it was read.
    pub open spec fn received(&self) -> Option<nat> {
        match self.body {
            Ok(text) => Some(vstd::utf8::encode_utf8(text@).len()),
            Err(_) => None,
        }
    }

    /// The text for the display area: the body, or the error text.
    pub open spec fn shown_text(&self) -> Seq<char> {
        match self.body {
            Ok(text) => text@,
            Err(error) => error@,
        }
    }

    /// The status line of this response.
    pub open spec fn status_text(&self) -> Seq<char> {
        status_line_text(
            self.status,
            effective_length(self.content_length, self.received()),
            self.round_trip,
            self.latency,
        )
    }

    /// The byte count to report for this response.
    pub fn byte_count(&self) -> (count: u64)
        ensures
            count == effective_length(self.content_length, self.received()),
    {
        let length: u64 = match self.content_length {
            Some(n) => n,
            None => 0,
        };
        match &self.body {
            Ok(text) => if length == 0 {
                text.as_str().as_bytes().len() as u64
            } else {
                length
            },
            Err(_) => length,
        }
    }

    /// Writes the status line: the status code, the byte count in words, the
    /// round-trip time and the latency.
    pub fn status_line(&self) -> (line: String)
        ensures
            line@ == self.status_text(),
    {
        let mut line = String::from_str("STATUS=");
        append_digits(&mut line, self.status as u128);
        line.append(" | BYTES=");
        line.append(human_bytes(self.byte_count() as i128).as_str());
        line.append(" | RTT=");
        line.append(duration_debug(self.round_trip).as_str());
        line.append(" | LAT=");
        line.append(duration_debug(self.latency).as_str());
        assert(line@ =~= self.status_text());
        line
    }
}

} // verus!
