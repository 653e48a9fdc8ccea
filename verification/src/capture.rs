//! Bookkeeping of the optional recording of request and response bodies.

use vstd::prelude::*;
use vstd::string::*;

use crate::text::opt_chars;

verus! {

/// What the recording of one body came to.
pub struct CaptureFileData {
    pub content_type: Option<String>,
    pub path: Option<String>,
    pub bytes: u64,
    pub complete: bool,
    pub error: Option<String>,
}

impl CaptureFileData {
    /// The result of a recording whose state could not be reached: nothing
    /// recorded, with `message` as its error.
    pub fn lock_error(message: &str) -> (r: CaptureFileData)
        ensures
            r.content_type is None,
            r.path is None,
            r.bytes == 0,
            !r.complete,
            r.error matches Some(e) && e@ == message@,
    {
        CaptureFileData {
            content_type: None,
            path: None,
            bytes: 0,
            complete: false,
            error: Some(message.to_owned()),
        }
    }
}

/// What the recordings of a request's two bodies came to, as stored.
pub struct CaptureData {
    pub request_content_type: Option<String>,
    pub response_content_type: Option<String>,
    pub request_path: Option<String>,
    pub response_path: Option<String>,
    pub request_captured_bytes: i64,
    pub response_captured_bytes: i64,
    pub request_complete: bool,
    pub response_complete: bool,
    pub capture_error: Option<String>,
}

/// A byte count as stored: capped at the largest `i64`.
pub open spec fn stored_count(n: u64) -> i64 {
    if n > i64::MAX {
        i64::MAX
    } else {
        n as i64
    }
}

/// The errors of both recordings joined by `；`, in order, skipping absent ones.
pub open spec fn joined_errors(a: Option<Seq<char>>, b: Option<Seq<char>>) -> Seq<char> {
    match (a, b) {
        (Some(x), Some(y)) => x + "；"@ + y,
        (Some(x), None) => x,
        (None, Some(y)) => y,
        (None, None) => Seq::empty(),
    }
}

fn count(n: u64) -> (r: i64)
    ensures
        r == stored_count(n),
{
    if n > 9223372036854775807u64 {
        9223372036854775807i64
    } else {
        n as i64
    }
}

/// Combines the results of recording the request and the response body.
pub fn capture_data(request: CaptureFileData, response: CaptureFileData) -> (r: CaptureData)
    ensures
        r.request_content_type == request.content_type,
        r.response_content_type == response.content_type,
        r.request_path == request.path,
        r.response_path == response.path,
        r.request_captured_bytes == stored_count(request.bytes),
        r.response_captured_bytes == stored_count(response.bytes),
        r.request_complete == request.complete,
        r.response_complete == response.complete,
        ({
            let j = joined_errors(opt_chars(request.error), opt_chars(response.error));
            if j.len() == 0 {
                r.capture_error is None
            } else {
                r.capture_error matches Some(e) && e@ == j
            }
        }),
{
    let joined = match (&request.error, &response.error) {
        (Some(x), Some(y)) => {
            let mut j = x.clone();
            j.append("；");
            j.append(y.as_str());
            j
        },
        (Some(x), None) => x.clone(),
        (None, Some(y)) => y.clone(),
        (None, None) => String::new(),
    };
    let capture_error = if joined.as_str().is_empty() {
        None
    } else {
        Some(joined)
    };
    CaptureData {
        request_content_type: request.content_type,
        response_content_type: response.content_type,
        request_path: request.path,
        response_path: response.path,
        request_captured_bytes: count(request.bytes),
        response_captured_bytes: count(response.bytes),
        request_complete: request.complete,
        response_complete: response.complete,
        capture_error,
    }
}

/// The state of one body's recording while it runs: the bytes written so
/// far, whether the body was read to its end, the error that stopped the
/// recording, and whether it is still writing.
pub struct CaptureProgress {
    pub content_type: Option<String>,
    pub bytes: u64,
    pub complete: bool,
    pub error: Option<String>,
    pub writing: bool,
}

impl CaptureProgress {
    /// A recording that starts.
    pub fn new(content_type: Option<String>) -> (r: CaptureProgress)
        ensures
            r.content_type == content_type,
            r.bytes == 0,
            !r.complete,
            r.error is None,
            r.writing,
    {
        CaptureProgress { content_type, bytes: 0, complete: false, error: None, writing: true }
    }

    /// Counts `len` more bytes written, saturating at the largest `u64`.
    pub fn wrote(&mut self, len: usize)
        ensures
            final(self).bytes == counted(old(self).bytes, len as nat),
            final(self).content_type == old(self).content_type,
            final(self).complete == old(self).complete,
            final(self).error == old(self).error,
            final(self).writing == old(self).writing,
    {
        self.bytes = self.bytes.saturating_add(len as u64);
    }

    /// Records a failed write: the recording stops with `detail` in its error.
    pub fn write_failed(&mut self, detail: &str)
        ensures
            final(self).error matches Some(e) && e@ == "写入内容记录失败: "@ + detail@,
            !final(self).writing,
            final(self).bytes == old(self).bytes,
            final(self).content_type == old(self).content_type,
            final(self).complete == old(self).complete,
    {
        let mut m = "写入内容记录失败: ".to_owned();
        m.append(detail);
        self.error = Some(m);
        self.writing = false;
    }

    /// Records that the finished file could not be put in place: the
    /// recording ends with `detail` in its error.
    pub fn finalize_failed(&mut self, detail: &str)
        ensures
            final(self).error matches Some(e) && e@ == "完成内容记录失败: "@ + detail@,
            !final(self).writing,
            final(self).bytes == old(self).bytes,
            final(self).content_type == old(self).content_type,
            final(self).complete == old(self).complete,
    {
        let mut m = "完成内容记录失败: ".to_owned();
        m.append(detail);
        self.error = Some(m);
        self.writing = false;
    }

    /// Records that the body was read to its end.
    pub fn mark_complete(&mut self)
        ensures
            final(self).complete,
            final(self).bytes == old(self).bytes,
            final(self).content_type == old(self).content_type,
            final(self).error == old(self).error,
            final(self).writing == old(self).writing,
    {
        self.complete = true;
    }

    /// Whether the recorded file is kept (put in place) at the end: only when
    /// nothing failed; else it is removed.
    pub fn keeps_file(&self) -> (r: bool)
        ensures
            r == self.error is None,
    {
        self.error.is_none()
    }

    /// Ends the recording: the stored file's path when nothing failed, else
    /// none.
    pub fn finish(self, path: Option<String>) -> (r: CaptureFileData)
        ensures
            r.content_type == self.content_type,
            r.bytes == self.bytes,
            r.complete == self.complete,
            r.error == self.error,
            r.path == (if self.error is None { path } else { None }),
    {
        let path = if self.error.is_none() {
            path
        } else {
            None
        };
        CaptureFileData {
            content_type: self.content_type,
            path,
            bytes: self.bytes,
            complete: self.complete,
            error: self.error,
        }
    }
}


/// A byte count after `len` more bytes, saturating at the largest `u64`.
pub open spec fn counted(bytes: u64, len: nat) -> u64 {
    if bytes + len > u64::MAX {
        u64::MAX
    } else {
        (bytes + len) as u64
    }
}

/// The byte count after writes of the given lengths, in order.
pub open spec fn counted_all(bytes: u64, lens: Seq<nat>) -> u64
    decreases lens.len(),
{
    if lens.len() == 0 {
        bytes
    } else {
        counted(counted_all(bytes, lens.drop_last()), lens.last())
    }
}

/// The sum of the lengths.
pub open spec fn total(lens: Seq<nat>) -> nat
    decreases lens.len(),
{
    if lens.len() == 0 {
        0
    } else {
        total(lens.drop_last()) + lens.last()
    }
}

/// The recorded byte count of a body is the sum of the lengths of its
/// writes, as long as that sum fits in a `u64`.
pub proof fn captured_bytes_are_the_sum(lens: Seq<nat>)
    requires
        total(lens) <= u64::MAX,
    ensures
        counted_all(0, lens) == total(lens),
    decreases lens.len(),
{
    if lens.len() > 0 {
        captured_bytes_are_the_sum(lens.drop_last());
    }
}

} // verus!
