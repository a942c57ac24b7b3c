//! Records of upload requests, buffered until there are enough to send.

use crate::client::{Attempt, is_recorded};
use crate::retry::{Outcome, RetryKind};
use vstd::prelude::*;
use vstd::string::*;

verus! {

/// The way in which data was uploaded.
#[derive(Clone, Copy, Debug, PartialEq, Eq, Structural)]
pub enum UpType {
    /// In one form request.
    Form,
    /// In blocks, by the first version of the chunked protocol.
    ChunkedV1,
    /// In parts, by the second version of the chunked protocol.
    ChunkedV2,
}

/// What is recorded of one physical upload request.
#[derive(Debug)]
pub struct UploadLoggerRecord {
    /// The status code of the answer, if there was one.
    pub status_code: Option<u16>,
    /// The request id of the answer, if it gave one.
    pub request_id: Option<String>,
    /// The URL of the host that the request went to.
    pub host: Option<String>,
    /// The way in which the data was uploaded.
    pub up_type: UpType,
    /// The number of bytes that the request delivered.
    pub sent: u64,
    /// The number of bytes of the whole upload.
    pub total_size: u64,
    /// The time the request took, in milliseconds.
    pub duration: u64,
    /// What went wrong, if anything did.
    pub error_message: Option<String>,
    /// When the request was made, in seconds since the Unix epoch.
    pub timestamp: u64,
}

impl UploadLoggerRecord {
    /// Whether the record says how the request ended: by a status code, by
    /// an error message, or by both.
    pub open spec fn wf(&self) -> bool {
        self.status_code is Some || self.error_message is Some
    }
}

/// The words for a failed attempt; none for a success.
pub open spec fn failure_words(outcome: Outcome) -> Option<Seq<char>> {
    match outcome {
        Outcome::Success => None,
        Outcome::TransportFailure => Some("transport error"@),
        Outcome::StatusFailure(RetryKind::RetryableError) => Some("retryable error"@),
        Outcome::StatusFailure(RetryKind::HostUnretryableError) => Some(
            "host unretryable error"@,
        ),
        Outcome::StatusFailure(RetryKind::ZoneUnretryableError) => Some(
            "zone unretryable error"@,
        ),
        Outcome::StatusFailure(RetryKind::UnretryableError) => Some("unretryable error"@),
    }
}

/// Finds the words for a failed attempt.
pub fn failure_message(outcome: Outcome) -> (r: Option<String>)
    ensures
        r.deep_view() == failure_words(outcome),
{
    match outcome {
        Outcome::Success => None,
        Outcome::TransportFailure => Some("transport error".to_owned()),
        Outcome::StatusFailure(RetryKind::RetryableError) => Some("retryable error".to_owned()),
        Outcome::StatusFailure(RetryKind::HostUnretryableError) => Some(
            "host unretryable error".to_owned(),
        ),
        Outcome::StatusFailure(RetryKind::ZoneUnretryableError) => Some(
            "zone unretryable error".to_owned(),
        ),
        Outcome::StatusFailure(RetryKind::UnretryableError) => Some(
            "unretryable error".to_owned(),
        ),
    }
}

/// Records one attempt of an upload of `total_size` bytes that went to
/// `host` at `timestamp`: a success delivered all bytes, a failure none.
pub fn record_attempt(
    attempt: &Attempt,
    host: &str,
    up_type: UpType,
    total_size: u64,
    timestamp: u64,
) -> (r: UploadLoggerRecord)
    requires
        is_recorded(*attempt),
    ensures
        r.status_code == attempt.status_code,
        r.request_id.deep_view() == attempt.request_id.deep_view(),
        r.host.deep_view() == Some(host@),
        r.up_type == up_type,
        r.sent == if attempt.outcome == Outcome::Success {
            total_size
        } else {
            0
        },
        r.total_size == total_size,
        r.duration == attempt.elapsed,
        r.error_message.deep_view() == failure_words(attempt.outcome),
        r.timestamp == timestamp,
{
    let request_id = match &attempt.request_id {
        Some(id) => Some(id.clone()),
        None => None,
    };
    UploadLoggerRecord {
        status_code: attempt.status_code,
        request_id,
        host: Some(host.to_owned()),
        up_type,
        sent: if attempt.outcome == Outcome::Success {
            total_size
        } else {
            0
        },
        total_size,
        duration: attempt.elapsed,
        error_message: failure_message(attempt.outcome),
        timestamp,
    }
}

/// A buffer of records that hands them out in batches.
pub struct UploadLogger {
    buffer: Vec<UploadLoggerRecord>,
    threshold: usize,
}

impl UploadLogger {
    /// The records that wait in the buffer, oldest first.
    pub closed spec fn pending(&self) -> Seq<UploadLoggerRecord> {
        self.buffer@
    }

    /// The number of records at which the buffer is handed out.
    pub closed spec fn threshold(&self) -> usize {
        self.threshold
    }

    /// What holds of every logger: the buffer holds fewer records than the
    /// threshold, or none where the threshold is zero.
    #[verifier::type_invariant]
    pub open spec fn well_formed(&self) -> bool {
        self.pending().len() < self.threshold() || self.pending().len() == 0
    }

    /// A logger that hands its records out when `threshold` of them have
    /// come together. With a threshold of zero or one every record is handed
    /// out at once.
    pub fn new(threshold: usize) -> (r: Self)
        ensures
            r.pending().len() == 0,
            r.threshold() == threshold,
    {
        UploadLogger { buffer: Vec::new(), threshold }
    }

    /// Takes a record. When that fills the buffer, all records are handed
    /// out, oldest first, to be sent; otherwise the record waits.
    pub fn log(&mut self, record: UploadLoggerRecord) -> (r: Option<Vec<UploadLoggerRecord>>)
        ensures
            final(self).threshold() == old(self).threshold(),
            match r {
                Some(batch) => {
                    &&& batch@ == old(self).pending().push(record)
                    &&& final(self).pending().len() == 0
                    &&& batch@.len() >= old(self).threshold()
                },
                None => final(self).pending() == old(self).pending().push(record),
            },
    {
        let mut batch: Vec<UploadLoggerRecord> = Vec::new();
        core::mem::swap(&mut self.buffer, &mut batch);
        batch.push(record);
        if batch.len() >= self.threshold {
            Some(batch)
        } else {
            self.buffer = batch;
            None
        }
    }

    /// Hands out the records that wait, oldest first.
    pub fn flush(&mut self) -> (r: Vec<UploadLoggerRecord>)
        ensures
            final(self).threshold() == old(self).threshold(),
            final(self).pending().len() == 0,
            r@ == old(self).pending(),
    {
        let mut batch: Vec<UploadLoggerRecord> = Vec::new();
        core::mem::swap(&mut self.buffer, &mut batch);
        batch
    }
}

} // verus!
