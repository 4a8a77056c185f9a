//! Diagnostic dump files: for each dumped artefact, the file name (from
//! a caller-supplied timestamp) and the content to write.  JSON bodies
//! are pretty-printed when they parse; writing the files is the caller's
//! business.

use vstd::prelude::*;

use crate::jsonval::{pretty_json, pretty_of};
use crate::text::{chars_of, dec_of, push_all, string_from_chars, u64_to_dec};

verus! {

/// A dump file: its name and its content.
#[derive(Debug)]
pub struct DumpFile {
    /// The file name.
    pub name: String,
    /// The content to write.
    pub content: String,
}

/// A number in decimal, zero-padded to at least four digits.
pub open spec fn dec4_of(n: nat) -> Seq<char> {
    let d = dec_of(n);
    if d.len() >= 4 {
        d
    } else {
        "0000"@.subrange(0, 4 - d.len()) + d
    }
}

fn u32_to_dec4(n: u32) -> (r: Vec<char>)
    ensures
        r@ =~= dec4_of(n as nat),
{
    let d = u64_to_dec(n as u64);
    let mut out: Vec<char> = Vec::new();
    proof {
        reveal_strlit("0000");
    }
    if d.len() < 4 {
        let mut k: usize = d.len();
        while k < 4
            invariant
                d@.len() <= k <= 4,
                out@ =~= "0000"@.subrange(0, k - d@.len()),
                d@ =~= dec_of(n as nat),
            decreases 4 - k,
        {
            proof {
                reveal_strlit("0000");
            }
            out.push('0');
            proof {
                assert(out@ =~= "0000"@.subrange(0, k + 1 - d@.len()));
            }
            k = k + 1;
        }
    }
    push_all(&mut out, &d);
    out
}

/// The body as written: pretty-printed when it parses as JSON, verbatim
/// otherwise.
pub open spec fn formatted_body(body: Seq<char>) -> Seq<char> {
    match pretty_of(body) {
        Some(p) => p,
        None => body,
    }
}

fn format_body(body: &str) -> (r: String)
    ensures
        r@ == formatted_body(body@),
{
    match pretty_json(body) {
        Some(p) => p,
        None => body.to_owned(),
    }
}

/// The dump of a client request body.
pub fn dump_request(body: &str, request_id: &str, timestamp: &str) -> (r: DumpFile)
    ensures
        r.name@ == timestamp@ + "_request_"@ + request_id@ + ".json"@,
        r.content@ == formatted_body(body@),
{
    let mut name = chars_of(timestamp);
    push_all(&mut name, &chars_of("_request_"));
    push_all(&mut name, &chars_of(request_id));
    push_all(&mut name, &chars_of(".json"));
    DumpFile { name: string_from_chars(&name), content: format_body(body) }
}

/// The dump of one outgoing stream event.
pub fn dump_stream_event(event: &str, request_id: &str, sequence: u32, timestamp: &str) -> (r:
    DumpFile)
    ensures
        r.name@ == timestamp@ + "_stream_"@ + request_id@ + "_"@ + dec4_of(sequence as nat)
            + ".json"@,
        r.content@ == formatted_body(event@),
{
    let mut name = chars_of(timestamp);
    push_all(&mut name, &chars_of("_stream_"));
    push_all(&mut name, &chars_of(request_id));
    push_all(&mut name, &chars_of("_"));
    push_all(&mut name, &u32_to_dec4(sequence));
    push_all(&mut name, &chars_of(".json"));
    DumpFile { name: string_from_chars(&name), content: format_body(event) }
}

/// The dump of the request sent to the backend.
pub fn dump_backend_request(body: &str, request_id: &str, timestamp: &str) -> (r: DumpFile)
    ensures
        r.name@ == timestamp@ + "_backend_request_"@ + request_id@ + ".json"@,
        r.content@ == formatted_body(body@),
{
    let mut name = chars_of(timestamp);
    push_all(&mut name, &chars_of("_backend_request_"));
    push_all(&mut name, &chars_of(request_id));
    push_all(&mut name, &chars_of(".json"));
    DumpFile { name: string_from_chars(&name), content: format_body(body) }
}

/// The dump of one backend chunk, written verbatim.
pub fn dump_backend_chunk(chunk: &str, request_id: &str, chunk_num: u32, timestamp: &str) -> (r:
    DumpFile)
    ensures
        r.name@ == timestamp@ + "_backend_chunk_"@ + request_id@ + "_"@ + dec4_of(chunk_num as nat)
            + ".txt"@,
        r.content@ == chunk@,
{
    let mut name = chars_of(timestamp);
    push_all(&mut name, &chars_of("_backend_chunk_"));
    push_all(&mut name, &chars_of(request_id));
    push_all(&mut name, &chars_of("_"));
    push_all(&mut name, &u32_to_dec4(chunk_num));
    push_all(&mut name, &chars_of(".txt"));
    DumpFile { name: string_from_chars(&name), content: chunk.to_owned() }
}

} // verus!
