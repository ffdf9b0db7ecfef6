//! Serving a resolved regular file: deciding between a full response, a
//! partial (byte-range) response and a 416 refusal, the `Content-Range`
//! header text, and the bounded-chunk copy that streaming performs.

use vstd::prelude::*;
use crate::range::{spec_dec, spec_parse_range, u64_to_dec};

verus! {

use vstd::string::StringSliceAdditionalSpecFns;

/// What the guess of `mime_guess` returns for a path; a pure function of the
/// path's extension alone.
pub uninterp spec fn mime_of(path: Seq<char>) -> Seq<char>;

/// Relies on mime_guess::from_path together with
/// MimeGuess::first_or_octet_stream: a table lookup on the path's extension,
/// falling back to `application/octet-stream`.
#[verifier::external_body]
fn guess_content_type(path: &str) -> (r: String)
    ensures
        r@ == mime_of(path@),
{
    mime_guess::from_path(path).first_or_octet_stream().to_string()
}

/// Ghost form of a streaming plan.
pub enum StreamPlanSpec {
    /// Serve the whole file: status 200, `Content-Length` = the file size.
    Whole { content_type: Seq<char>, len: u64 },
    /// Serve `[start, end]`: status 206, `Content-Length` = `end - start + 1`.
    Part { content_type: Seq<char>, start: u64, end: u64, len: u64 },
    /// No byte of the file satisfies the request: status 416, empty body.
    Unsatisfiable,
}

/// How a resolved regular file is served, given its size and the request's
/// `Range` header.
#[derive(Debug, PartialEq, Eq)]
pub enum StreamPlan {
    Whole { content_type: String, len: u64 },
    Part { content_type: String, start: u64, end: u64, len: u64 },
    Unsatisfiable,
}

impl View for StreamPlan {
    type V = StreamPlanSpec;

    open spec fn view(&self) -> StreamPlanSpec {
        match self {
            StreamPlan::Whole { content_type, len } => StreamPlanSpec::Whole {
                content_type: content_type@,
                len: *len,
            },
            StreamPlan::Part { content_type, start, end, len } => StreamPlanSpec::Part {
                content_type: content_type@,
                start: *start,
                end: *end,
                len: *len,
            },
            StreamPlan::Unsatisfiable => StreamPlanSpec::Unsatisfiable,
        }
    }
}

/// The plan for a file of `file_size` bytes: no (or unusable) `Range` header
/// serves the whole file; a candidate range inside the file serves that
/// part; a candidate outside it is unsatisfiable.
pub open spec fn spec_plan_stream(ct: Seq<char>, range: Option<Seq<u8>>, file_size: u64) -> StreamPlanSpec {
    let cand = if range is Some {
        spec_parse_range(range->0, file_size)
    } else {
        None
    };
    match cand {
        None => StreamPlanSpec::Whole { content_type: ct, len: file_size },
        Some((start, end)) => {
            if start >= file_size || end >= file_size || start > end {
                StreamPlanSpec::Unsatisfiable
            } else {
                StreamPlanSpec::Part {
                    content_type: ct,
                    start,
                    end,
                    len: (end - start + 1) as u64,
                }
            }
        },
    }
}

/// Decides how to serve the regular file at `path`, of `file_size` bytes,
/// for a request that carried `range_header`.
pub fn plan_stream(path: &str, range_header: Option<&str>, file_size: u64) -> (p: StreamPlan)
    ensures
        p@ == spec_plan_stream(
            mime_of(path@),
            match range_header {
                Some(h) => Some(h.spec_bytes()),
                None => None,
            },
            file_size,
        ),
{
    let content_type = guess_content_type(path);
    let cand = match range_header {
        Some(h) => crate::range::parse_range_header(h, file_size),
        None => None,
    };
    match cand {
        None => StreamPlan::Whole { content_type, len: file_size },
        Some((start, end)) => {
            if start >= file_size || end >= file_size || start > end {
                StreamPlan::Unsatisfiable
            } else {
                StreamPlan::Part { content_type, start, end, len: end - start + 1 }
            }
        },
    }
}

/// A partial-content plan always names a range that lies inside the file
/// and serves exactly its length: `start <= end < file_size` and
/// `len == end - start + 1`.
pub proof fn lemma_part_plan_in_bounds(ct: Seq<char>, range: Option<Seq<u8>>, file_size: u64)
    ensures
        spec_plan_stream(ct, range, file_size) matches StreamPlanSpec::Part { start, end, len, .. }
            ==> start <= end < file_size && len == end - start + 1,
{
}

/// `bytes <start>-<end>/<file_size>`: the `Content-Range` header of a
/// partial response.
pub open spec fn spec_content_range(start: u64, end: u64, file_size: u64) -> Seq<u8> {
    seq![98u8, 121u8, 116u8, 101u8, 115u8, 32u8] + spec_dec(start as int) + seq![45u8] + spec_dec(
        end as int,
    ) + seq![47u8] + spec_dec(file_size as int)
}

/// `bytes */<file_size>`: the `Content-Range` header of a 416 response.
pub open spec fn spec_unsat_content_range(file_size: u64) -> Seq<u8> {
    seq![98u8, 121u8, 116u8, 101u8, 115u8, 32u8, 42u8, 47u8] + spec_dec(file_size as int)
}

/// Renders the `Content-Range` value of a partial response.
pub fn format_content_range(start: u64, end: u64, file_size: u64) -> (r: Vec<u8>)
    ensures
        r@ == spec_content_range(start, end, file_size),
{
    let mut out: Vec<u8> = Vec::new();
    out.push(98);
    out.push(121);
    out.push(116);
    out.push(101);
    out.push(115);
    out.push(32);
    let mut d = u64_to_dec(start);
    out.append(&mut d);
    out.push(45);
    let mut d2 = u64_to_dec(end);
    out.append(&mut d2);
    out.push(47);
    let mut d3 = u64_to_dec(file_size);
    out.append(&mut d3);
    assert(out@ =~= spec_content_range(start, end, file_size));
    out
}

/// Renders the `Content-Range` value of a 416 response.
pub fn format_unsat_content_range(file_size: u64) -> (r: Vec<u8>)
    ensures
        r@ == spec_unsat_content_range(file_size),
{
    let mut out: Vec<u8> = Vec::new();
    out.push(98);
    out.push(121);
    out.push(116);
    out.push(101);
    out.push(115);
    out.push(32);
    out.push(42);
    out.push(47);
    let mut d = u64_to_dec(file_size);
    out.append(&mut d);
    assert(out@ =~= spec_unsat_content_range(file_size));
    out
}

/// How many bytes the streaming loop moves at once.
pub const CHUNK_SIZE: usize = 8192;

/// Copies `[start, start + len)` out of `content` the way the streaming
/// loop does: in chunks of at most `CHUNK_SIZE` bytes, never all at once.
#[verifier::loop_isolation(false)]
fn copy_range_chunked(content: &[u8], start: usize, len: usize) -> (out: Vec<u8>)
    requires
        start + len <= content@.len(),
    ensures
        out@ == content@.subrange(start as int, start + len),
{
    let total = content.len();
    assert(total == content@.len());
    let mut out: Vec<u8> = Vec::new();
    let mut done: usize = 0;
    assert(out@ =~= content@.subrange(start as int, start as int));
    while done < len
        invariant
            0 <= done <= len,
            out@ == content@.subrange(start as int, start + done),
        decreases len - done,
    {
        let chunk = if len - done < CHUNK_SIZE {
            len - done
        } else {
            CHUNK_SIZE
        };
        let mut k: usize = 0;
        while k < chunk
            invariant
                0 <= k <= chunk,
                done + chunk <= len,
                out@ == content@.subrange(start as int, start + done + k),
            decreases chunk - k,
        {
            out.push(content[start + done + k]);
            assert(content@.subrange(start as int, start + done + k + 1) =~= content@.subrange(
                start as int,
                start + done + k,
            ).push(content@[start + done + k]));
            k += 1;
        }
        done += chunk;
    }
    out
}

/// Streams the byte range `[start, end]` of a file's content: exactly
/// `end - start + 1` bytes, identical to that slice of the content.
pub fn stream_range(content: &[u8], start: usize, end: usize) -> (out: Vec<u8>)
    requires
        start <= end < content@.len(),
    ensures
        out@ == content@.subrange(start as int, end + 1),
        out@.len() == end - start + 1,
{
    let total = content.len();
    assert(total == content@.len());
    copy_range_chunked(content, start, end - start + 1)
}

/// Streams a file's whole content, in bounded chunks.
pub fn stream_whole(content: &[u8]) -> (out: Vec<u8>)
    ensures
        out@ == content@,
{
    let out = copy_range_chunked(content, 0, content.len());
    assert(content@.subrange(0, content@.len() as int) =~= content@);
    out
}

} // verus!
