use vstd::prelude::*;

use crate::rich_text::{lemma_split_on_nonempty, split_chars, split_on};
use crate::text::{chars_of, copy_string, is_blank, push_int, str_eq, string_of, trim, trim_bounds, int_text};

verus! {

/// The icon shown for a workspace editor, by the editor's target name.
pub fn workspace_editor_icon_src(target: &str) -> (r: Option<&'static str>)
    ensures
        target@ == "rustrover"@ ==> (r matches Some(p) && p@ == "/icons/workspace-rustrover.svg"@),
        target@ == "vscode"@ ==> (r matches Some(p) && p@ == "/icons/workspace-vscode.svg"@),
        target@ != "rustrover"@ && target@ != "vscode"@ ==> r is None,
{
    proof {
        reveal_strlit("rustrover");
        reveal_strlit("vscode");
        assert("rustrover"@.len() != "vscode"@.len());
    }
    if str_eq(target, "rustrover") {
        Some("/icons/workspace-rustrover.svg")
    } else if str_eq(target, "vscode") {
        Some("/icons/workspace-vscode.svg")
    } else {
        None
    }
}

/// A reference from a run to a recorded change of project memory.
pub struct MemoryEventRef {
    pub event_id: i64,
    pub available: bool,
    pub created_at: Option<String>,
}

/// The text a memory change reference is shown with: its event id, then its
/// time where it is known, or a note that the event is gone.
pub open spec fn memory_event_ref_text(r: MemoryEventRef) -> Seq<char> {
    let head = "MemoryChanged #"@ + int_text(r.event_id as int);
    if r.available {
        match r.created_at {
            Some(t) => head + seq![' '] + t@,
            None => head,
        }
    } else {
        head + " unavailable"@
    }
}

/// The text a memory change reference is shown with.
pub fn memory_event_ref_label(event: &MemoryEventRef) -> (r: String)
    ensures
        r@ == memory_event_ref_text(*event),
{
    let mut s = String::from_str("MemoryChanged #");
    push_int(&mut s, event.event_id);
    if event.available {
        match &event.created_at {
            Some(t) => {
                s.append(" ");
                s.append(t.as_str());
                proof {
                    reveal_strlit(" ");
                }
                assert(s@ =~= memory_event_ref_text(*event));
            },
            None => {},
        }
    } else {
        s.append(" unavailable");
    }
    s
}

/// The first of the comma-separated values of a request header, trimmed,
/// where it is not empty; `raw` is the header's text, where the request has
/// the header as text.
pub open spec fn first_header_value_of(raw: Option<Seq<char>>) -> Option<Seq<char>> {
    match raw {
        Some(v) => {
            let p = trim(split_on(v, ","@)[0]);
            if p.len() == 0 {
                None
            } else {
                Some(p)
            }
        },
        None => None,
    }
}

/// The first of the comma-separated values of a request header.
pub fn first_header_value(raw: Option<&str>) -> (r: Option<String>)
    ensures
        match r {
            Some(s) => first_header_value_of(
                match raw {
                    Some(v) => Some(v@),
                    None => None,
                },
            ) == Some(s@),
            None => first_header_value_of(
                match raw {
                    Some(v) => Some(v@),
                    None => None,
                },
            ) is None,
        },
{
    match raw {
        None => None,
        Some(v) => {
            proof {
                reveal_strlit(",");
                lemma_split_on_nonempty(v@, ","@);
            }
            let cs = chars_of(v);
            let parts = split_chars(&cs, ",");
            assert(parts@[0]@ == split_on(v@, ","@)[0]);
            let first = &parts[0];
            let (a, b) = trim_bounds(first, 0, first.len());
            assert(first@.subrange(0, first.len() as int) =~= first@);
            if a == b {
                None
            } else {
                let t = crate::text::string_of_range(first, a, b);
                Some(t)
            }
        },
    }
}

/// The request headers that say where the page was requested from, each as
/// its text where the request has it as text.
pub struct OriginHeaders {
    pub forwarded_proto: Option<String>,
    pub forwarded_host: Option<String>,
    pub host: Option<String>,
}

pub open spec fn opt_text(o: Option<String>) -> Option<Seq<char>> {
    match o {
        Some(s) => Some(s@),
        None => None,
    }
}

/// The origin under which the page was requested: the forwarded scheme or
/// `http`, then the forwarded host, else the host, else the default address;
/// the default origin where no request is at hand.
pub open spec fn request_origin_of(headers: Option<OriginHeaders>) -> Seq<char> {
    match headers {
        None => "http://127.0.0.1:4000"@,
        Some(h) => {
            let scheme = match first_header_value_of(opt_text(h.forwarded_proto)) {
                Some(s) => s,
                None => "http"@,
            };
            let host = match first_header_value_of(opt_text(h.forwarded_host)) {
                Some(s) => s,
                None => match first_header_value_of(opt_text(h.host)) {
                    Some(s) => s,
                    None => "127.0.0.1:4000"@,
                },
            };
            scheme + "://"@ + host
        },
    }
}

fn header_text(o: &Option<String>) -> (r: Option<String>)
    ensures
        opt_text(r) == first_header_value_of(opt_text(*o)),
{
    match o {
        Some(s) => first_header_value(Some(s.as_str())),
        None => None,
    }
}

/// The origin under which the page was requested.
pub fn request_origin(headers: Option<&OriginHeaders>) -> (r: String)
    ensures
        r@ == request_origin_of(
            match headers {
                Some(h) => Some(*h),
                None => None,
            },
        ),
{
    match headers {
        None => String::from_str("http://127.0.0.1:4000"),
        Some(h) => {
            let mut out = match header_text(&h.forwarded_proto) {
                Some(s) => s,
                None => String::from_str("http"),
            };
            out.append("://");
            let host = match header_text(&h.forwarded_host) {
                Some(s) => s,
                None => match header_text(&h.host) {
                    Some(s) => s,
                    None => String::from_str("127.0.0.1:4000"),
                },
            };
            out.append(host.as_str());
            out
        },
    }
}

/// A value of a tool's output metadata, as far as it is shown: a JSON
/// number carries its notation, a non-empty list or object its indented
/// JSON text.
pub enum MetadataValue {
    Null,
    Text(String),
    Bool(bool),
    Number(String),
    EmptyList,
    EmptyObject,
    Structured(String),
}

/// The text of a metadata value shown as a badge: texts, booleans and
/// numbers only.
pub open spec fn scalar_text(v: Option<MetadataValue>) -> Option<Seq<char>> {
    match v {
        Some(MetadataValue::Text(s)) => Some(s@),
        Some(MetadataValue::Bool(b)) => Some(if b { "true"@ } else { "false"@ }),
        Some(MetadataValue::Number(n)) => Some(n@),
        _ => None,
    }
}

/// The text of a metadata value shown as output: nothing for a missing or
/// null value or an empty list or object, the text of a text value, else its
/// JSON notation.
pub open spec fn value_text(v: Option<MetadataValue>) -> Option<Seq<char>> {
    match v {
        None => None,
        Some(MetadataValue::Null) => None,
        Some(MetadataValue::Text(s)) => Some(s@),
        Some(MetadataValue::Bool(b)) => Some(if b { "true"@ } else { "false"@ }),
        Some(MetadataValue::Number(n)) => Some(n@),
        Some(MetadataValue::EmptyList) => None,
        Some(MetadataValue::EmptyObject) => None,
        Some(MetadataValue::Structured(t)) => Some(t@),
    }
}

fn bool_text(b: bool) -> (r: String)
    ensures
        r@ == if b { "true"@ } else { "false"@ },
{
    if b {
        String::from_str("true")
    } else {
        String::from_str("false")
    }
}

/// The text of a metadata value shown as a badge.
pub fn metadata_scalar(value: Option<&MetadataValue>) -> (r: Option<String>)
    ensures
        opt_text(r) == scalar_text(
            match value {
                Some(v) => Some(*v),
                None => None,
            },
        ),
{
    match value {
        Some(MetadataValue::Text(s)) => Some(copy_string(s)),
        Some(MetadataValue::Bool(b)) => Some(bool_text(*b)),
        Some(MetadataValue::Number(n)) => Some(copy_string(n)),
        _ => None,
    }
}

/// The text of a metadata value shown as output.
pub fn metadata_value_text(value: Option<&MetadataValue>) -> (r: Option<String>)
    ensures
        opt_text(r) == value_text(
            match value {
                Some(v) => Some(*v),
                None => None,
            },
        ),
{
    match value {
        Some(MetadataValue::Text(s)) => Some(copy_string(s)),
        Some(MetadataValue::Bool(b)) => Some(bool_text(*b)),
        Some(MetadataValue::Number(n)) => Some(copy_string(n)),
        Some(MetadataValue::Structured(t)) => Some(copy_string(t)),
        _ => None,
    }
}

/// The metadata entries of a tool's output piece that are read to show it.
pub struct ToolMetadata {
    pub output: Option<MetadataValue>,
    pub result: Option<MetadataValue>,
    pub content_items: Option<MetadataValue>,
    pub error: Option<MetadataValue>,
    pub tool_type: Option<MetadataValue>,
    pub status: Option<MetadataValue>,
}

/// Whether a shown text has something besides white space.
pub open spec fn shown(t: Option<Seq<char>>) -> bool {
    t matches Some(s) && trim(s).len() > 0
}

/// The output of a tool call: the first of its `output`, `result`,
/// `content_items` and `error` entries whose text is not blank.
pub open spec fn tool_output_of(m: ToolMetadata) -> Option<Seq<char>> {
    if shown(value_text(m.output)) {
        value_text(m.output)
    } else if shown(value_text(m.result)) {
        value_text(m.result)
    } else if shown(value_text(m.content_items)) {
        value_text(m.content_items)
    } else if shown(value_text(m.error)) {
        value_text(m.error)
    } else {
        None
    }
}

fn shown_text(v: &Option<MetadataValue>) -> (r: Option<String>)
    ensures
        shown(value_text(*v)) ==> opt_text(r) == value_text(*v),
        !shown(value_text(*v)) ==> r is None,
{
    match metadata_value_text(v.as_ref()) {
        Some(t) => if is_blank(t.as_str()) {
            None
        } else {
            Some(t)
        },
        None => None,
    }
}

/// The output text of a tool call.
pub fn tool_output_text(metadata: &ToolMetadata) -> (r: Option<String>)
    ensures
        opt_text(r) == tool_output_of(*metadata),
{
    match shown_text(&metadata.output) {
        Some(t) => return Some(t),
        None => {},
    }
    match shown_text(&metadata.result) {
        Some(t) => return Some(t),
        None => {},
    }
    match shown_text(&metadata.content_items) {
        Some(t) => return Some(t),
        None => {},
    }
    shown_text(&metadata.error)
}

/// The badges of a tool's output piece: its tool type and its status, where
/// they are texts, booleans or numbers.
pub open spec fn badges_of(m: ToolMetadata) -> Seq<Seq<char>> {
    let a = match scalar_text(m.tool_type) {
        Some(t) => seq![t],
        None => Seq::empty(),
    };
    let b = match scalar_text(m.status) {
        Some(t) => seq![t],
        None => Seq::empty(),
    };
    a + b
}

/// The badge texts of a tool's output piece.
pub fn output_piece_badges(metadata: &ToolMetadata) -> (r: Vec<String>)
    ensures
        crate::text::views(r@) == badges_of(*metadata),
{
    let mut out: Vec<String> = Vec::new();
    match metadata_scalar(metadata.tool_type.as_ref()) {
        Some(t) => out.push(t),
        None => {},
    }
    match metadata_scalar(metadata.status.as_ref()) {
        Some(t) => out.push(t),
        None => {},
    }
    assert(crate::text::views(out@) =~= badges_of(*metadata));
    out
}

} // verus!
