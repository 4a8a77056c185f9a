//! XML tool-call salvager: detects and parses function calls that a
//! backend mis-encoded as in-band text of the shape
//! `<function=NAME><parameter=KEY>VALUE</parameter>...</function>`
//! (`</tool_call>` also closes a call), removes the matched spans from the
//! text and returns the parsed calls.

use vstd::prelude::*;

use crate::jsonval::{json_object_of, json_object_string};
use crate::text::{
    chars_of, find_sub_from, has_sub, has_sub_from, lower_seq, string_from_chars, sub_at, to_ascii_lower,
    trim, trim_seq, vec_sub, push_all,
};

verus! {

/// The first position `>= from` where `needle` occurs in `hay`.
pub open spec fn find_from(hay: Seq<char>, needle: Seq<char>, from: int) -> Option<int>
    decreases hay.len() - from,
{
    if from < 0 || from + needle.len() > hay.len() {
        None
    } else if sub_at(hay, needle, from) {
        Some(from)
    } else {
        find_from(hay, needle, from + 1)
    }
}

proof fn lemma_find_from_correct(hay: Seq<char>, needle: Seq<char>, from: int)
    requires
        0 <= from,
    ensures
        match find_from(hay, needle, from) {
            Some(i) => from <= i && sub_at(hay, needle, i) && forall|j: int|
                from <= j < i ==> !sub_at(hay, needle, j),
            None => !has_sub_from(hay, needle, from),
        },
    decreases hay.len() - from,
{
    if from + needle.len() > hay.len() {
        assert forall|i: int| from <= i implies !sub_at(hay, needle, i) by {}
    } else if sub_at(hay, needle, from) {
    } else {
        lemma_find_from_correct(hay, needle, from + 1);
    }
}

/// Find `needle` in `hay` from position `from`, against the spec-level
/// `find_from`.
fn find_at(hay: &Vec<char>, needle: &Vec<char>, from: usize) -> (r: Option<usize>)
    ensures
        match r {
            Some(i) => find_from(hay@, needle@, from as int) == Some(i as int) && from <= i
                && sub_at(hay@, needle@, i as int),
            None => find_from(hay@, needle@, from as int) is None,
        },
{
    let r = find_sub_from(hay, needle, from);
    proof {
        lemma_find_from_correct(hay@, needle@, from as int);
        match r {
            Some(i) => {
                match find_from(hay@, needle@, from as int) {
                    Some(k) => {
                        assert(!(k < i)) by {
                            assert(from <= k < i ==> !sub_at(hay@, needle@, k));
                        }
                        assert(!(i < k));
                    },
                    None => {
                        assert(from <= i && sub_at(hay@, needle@, i as int));
                        assert(has_sub_from(hay@, needle@, from as int));
                    },
                }
            },
            None => {
                if find_from(hay@, needle@, from as int) is Some {
                    let k = find_from(hay@, needle@, from as int)->Some_0;
                    assert(from <= k && sub_at(hay@, needle@, k));
                }
            },
        }
    }
    r
}

/// One salvaged call: the function name and its parameters serialised as
/// a JSON object.
#[derive(Debug, Clone)]
pub struct ParsedToolCall {
    /// The name taken from `<function=NAME>`.
    pub name: String,
    /// The parameters of the call as a JSON object text.
    pub arguments: String,
}

/// The spec-level shape of a salvaged call: name and arguments text.
pub type SpecCall = (Seq<char>, Seq<char>);

/// The parameter pairs of one call body: each `<parameter=KEY>VALUE</parameter>`
/// span from position `from` on, with VALUE trimmed of surrounding
/// whitespace; parsing stops at the first malformed span.
pub open spec fn params_from(content: Seq<char>, from: int) -> Seq<(Seq<char>, Seq<char>)>
    decreases content.len() - from,
    via params_from_decreases
{
    if from < 0 {
        Seq::empty()
    } else {
        match find_from(content, "<parameter="@, from) {
            None => Seq::empty(),
            Some(p) => {
                let name_start = p + 11;
                match find_from(content, ">"@, name_start) {
                    None => Seq::empty(),
                    Some(ne) => {
                        let name = content.subrange(name_start, ne);
                        match find_from(content, "</parameter>"@, ne + 1) {
                            None => Seq::empty(),
                            Some(ve) => {
                                let value = trim_seq(content.subrange(ne + 1, ve));
                                seq![(name, value)] + params_from(content, ve + 12)
                            },
                        }
                    },
                }
            },
        }
    }
}

#[via_fn]
proof fn params_from_decreases(content: Seq<char>, from: int) {
    reveal_strlit("<parameter=");
    reveal_strlit(">");
    reveal_strlit("</parameter>");
    if from >= 0 {
        lemma_find_from_correct(content, "<parameter="@, from);
        match find_from(content, "<parameter="@, from) {
            Some(p) => {
                lemma_find_from_correct(content, ">"@, p + 11);
                match find_from(content, ">"@, p + 11) {
                    Some(ne) => {
                        lemma_find_from_correct(content, "</parameter>"@, ne + 1);
                    },
                    None => {},
                }
            },
            None => {},
        }
    }
}

/// Scan `text` from `start` for `<function=` spans: the text with every
/// complete span removed, and the calls parsed from those spans in order.
/// A span without a closing `</function>` or `</tool_call>` is left in
/// place and scanning resumes after its name.
pub open spec fn salvage(text: Seq<char>, start: int) -> (Seq<char>, Seq<SpecCall>)
    decreases text.len(), text.len() - start,
    via salvage_decreases
{
    if start < 0 {
        (text, Seq::empty())
    } else {
        match find_from(text, "<function="@, start) {
            None => (text, Seq::empty()),
            Some(abs) => {
                let name_start = abs + 10;
                match find_from(text, ">"@, name_start) {
                    None => (text, Seq::empty()),
                    Some(ne) => {
                        let fname = text.subrange(name_start, ne);
                        let cstart = ne + 1;
                        let close = match find_from(text, "</function>"@, cstart) {
                            Some(i) => Some(i + 11),
                            None => match find_from(text, "</tool_call>"@, cstart) {
                                Some(i) => Some(i + 12),
                                None => None,
                            },
                        };
                        match close {
                            None => salvage(text, ne + 1),
                            Some(end) => {
                                let content = text.subrange(cstart, end);
                                let args = json_object_of(params_from(content, 0));
                                let cleaned = text.subrange(0, abs) + text.subrange(
                                    end,
                                    text.len() as int,
                                );
                                let (c, calls) = salvage(cleaned, abs);
                                (c, seq![(fname, args)] + calls)
                            },
                        }
                    },
                }
            },
        }
    }
}

#[via_fn]
proof fn salvage_decreases(text: Seq<char>, start: int) {
    reveal_strlit("<function=");
    reveal_strlit(">");
    reveal_strlit("</function>");
    reveal_strlit("</tool_call>");
    if start >= 0 {
        lemma_find_from_correct(text, "<function="@, start);
        match find_from(text, "<function="@, start) {
            Some(abs) => {
                lemma_find_from_correct(text, ">"@, abs + 10);
                match find_from(text, ">"@, abs + 10) {
                    Some(ne) => {
                        lemma_find_from_correct(text, "</function>"@, ne + 1);
                        lemma_find_from_correct(text, "</tool_call>"@, ne + 1);
                    },
                    None => {},
                }
            },
            None => {},
        }
    }
}

/// True when the text contains any of the XML tool-call markers,
/// case-insensitively.
pub open spec fn has_xml_marker(text: Seq<char>) -> bool {
    has_sub(lower_seq(text), "<function="@) || has_sub(lower_seq(text), "</function>"@) || has_sub(
        lower_seq(text),
        "<tool_call"@,
    ) || has_sub(lower_seq(text), "</tool_call>"@) || has_sub(lower_seq(text), "<parameter="@)
}

/// What extraction returns: the cleaned text, trimmed, and the salvaged
/// calls; text without any marker is only trimmed.
pub open spec fn extract_spec(text: Seq<char>) -> (Seq<char>, Seq<SpecCall>) {
    if !has_xml_marker(text) {
        (trim_seq(text), Seq::empty())
    } else {
        let (c, calls) = salvage(text, 0);
        (trim_seq(c), calls)
    }
}

/// Text without a marker comes back only trimmed, with no calls.
pub proof fn lemma_extract_no_marker(text: Seq<char>)
    requires
        !has_xml_marker(text),
    ensures
        extract_spec(text) == (trim_seq(text), Seq::<SpecCall>::empty()),
{
}

fn has_sub_exec(hay: &Vec<char>, needle: &str) -> (r: bool)
    ensures
        r == has_sub(hay@, needle@),
{
    let n = chars_of(needle);
    match find_sub_from(hay, &n, 0) {
        Some(_) => true,
        None => false,
    }
}

/// Quick heuristic: does the text contain XML-style tool call syntax?
pub fn contains_xml_tool_call(text: &str) -> (r: bool)
    ensures
        r == has_xml_marker(text@),
{
    let chars = chars_of(text);
    let normalized = to_ascii_lower(&chars);
    has_sub_exec(&normalized, "<function=") || has_sub_exec(&normalized, "</function>")
        || has_sub_exec(&normalized, "<tool_call") || has_sub_exec(&normalized, "</tool_call>")
        || has_sub_exec(&normalized, "<parameter=")
}

fn params_exec(content: &Vec<char>) -> (r: Vec<(String, String)>)
    ensures
        r.deep_view() =~= params_from(content@, 0),
{
    proof {
        reveal_strlit("<parameter=");
        reveal_strlit(">");
        reveal_strlit("</parameter>");
    }
    let mut out: Vec<(String, String)> = Vec::new();
    let param_open = chars_of("<parameter=");
    let gt = chars_of(">");
    let param_close = chars_of("</parameter>");
    let mut from: usize = 0;
    loop
        invariant
            out.deep_view() + params_from(content@, from as int) =~= params_from(content@, 0),
            param_open@ =~= "<parameter="@,
            gt@ =~= ">"@,
            param_close@ =~= "</parameter>"@,
            param_open@.len() == 11,
            gt@.len() == 1,
            param_close@.len() == 12,
        decreases content@.len() + 1 - from,
    {
        let _byte_bound = content.len();
        let ghost pre = out.deep_view();
        match find_at(content, &param_open, from) {
            None => {
                return out;
            },
            Some(p) => {
                let name_start = p + 11;
                match find_at(content, &gt, name_start) {
                    None => {
                        return out;
                    },
                    Some(ne) => {
                        let name = string_from_chars(&vec_sub(content, name_start, ne));
                        match find_at(content, &param_close, ne + 1) {
                            None => {
                                return out;
                            },
                            Some(ve) => {
                                let value = string_from_chars(&trim(&vec_sub(content, ne + 1, ve)));
                                let ghost entry = (name@, value@);
                                out.push((name, value));
                                proof {
                                    let dv = out.deep_view();
                                    assert(dv.len() == pre.len() + 1);
                                    assert forall|j: int| 0 <= j < dv.len() implies dv[j] == pre.push(
                                        entry,
                                    )[j] by {
                                        if j < pre.len() {
                                            assert(dv[j] == out@[j].deep_view());
                                            assert(pre[j] == out@[j].deep_view());
                                        }
                                    }
                                    assert(dv =~= pre.push(entry));
                                    assert(params_from(content@, from as int) =~= seq![entry]
                                        + params_from(content@, ve + 12));
                                    assert(pre.push(entry) + params_from(content@, ve + 12 as int)
                                        =~= pre + (seq![entry] + params_from(content@, ve + 12)));
                                }
                                from = ve + 12;
                            },
                        }
                    },
                }
            },
        }
    }
}

fn salvage_exec(text: Vec<char>, start: usize) -> (r: (Vec<char>, Vec<ParsedToolCall>))
    ensures
        r.0@ =~= salvage(text@, start as int).0,
        r.1@.len() == salvage(text@, start as int).1.len(),
        forall|i: int|
            0 <= i < r.1@.len() ==> r.1@[i].name@ == salvage(text@, start as int).1[i].0
                && r.1@[i].arguments@ == salvage(text@, start as int).1[i].1,
    decreases text@.len(), text@.len() - start,
{
    proof {
        reveal_strlit("<function=");
        reveal_strlit(">");
        reveal_strlit("</function>");
        reveal_strlit("</tool_call>");
    }
    let fn_open = chars_of("<function=");
    let gt = chars_of(">");
    let fn_close = chars_of("</function>");
    let tc_close = chars_of("</tool_call>");
    let _byte_bound = text.len();
    match find_at(&text, &fn_open, start) {
        None => (text, Vec::new()),
        Some(abs) => {
            let name_start = abs + 10;
            match find_at(&text, &gt, name_start) {
                None => (text, Vec::new()),
                Some(ne) => {
                    let fname = string_from_chars(&vec_sub(&text, name_start, ne));
                    let cstart = ne + 1;
                    let close = match find_at(&text, &fn_close, cstart) {
                        Some(i) => Some(i + 11),
                        None => match find_at(&text, &tc_close, cstart) {
                            Some(i) => Some(i + 12),
                            None => None,
                        },
                    };
                    match close {
                        None => salvage_exec(text, ne + 1),
                        Some(end) => {
                            let content = vec_sub(&text, cstart, end);
                            let params = params_exec(&content);
                            let arguments = json_object_string(&params);
                            let mut cleaned = vec_sub(&text, 0, abs);
                            let tail = vec_sub(&text, end, text.len());
                            push_all(&mut cleaned, &tail);
                            let ghost cleaned_seq = cleaned@;
                            let (c, mut calls) = salvage_exec(cleaned, abs);
                            calls.insert(0, ParsedToolCall { name: fname, arguments });
                            proof {
                                let whole = salvage(text@, start as int).1;
                                let rest = salvage(cleaned_seq, abs as int).1;
                                assert(whole =~= seq![whole[0]] + rest);
                                assert forall|i: int| 0 <= i < calls@.len() implies calls@[i].name@
                                    == whole[i].0 && calls@[i].arguments@ == whole[i].1 by {
                                    if i > 0 {
                                        assert(whole[i] == rest[i - 1]);
                                    }
                                }
                            }
                            (c, calls)
                        },
                    }
                },
            }
        },
    }
}

/// Extract XML-style tool calls from `text`: the text with the matched
/// spans removed and trimmed, and the parsed calls in order of
/// appearance.  Text without any marker comes back trimmed, with no
/// calls.
pub fn extract_xml_tool_calls(text: &str) -> (r: (String, Vec<ParsedToolCall>))
    ensures
        r.0@ == extract_spec(text@).0,
        r.1@.len() == extract_spec(text@).1.len(),
        forall|i: int|
            0 <= i < r.1@.len() ==> r.1@[i].name@ == extract_spec(text@).1[i].0
                && r.1@[i].arguments@ == extract_spec(text@).1[i].1,
{
    let chars = chars_of(text);
    if !contains_xml_tool_call(text) {
        (string_from_chars(&trim(&chars)), Vec::new())
    } else {
        let (cleaned, calls) = salvage_exec(chars, 0);
        (string_from_chars(&trim(&cleaned)), calls)
    }
}

} // verus!
