use vstd::prelude::*;
use vstd::utf8::encode_utf8;

use crate::text::{int_text, push_int};

verus! {

/// Whether a byte is left as it is by percent-encoding: ASCII letters and
/// digits, `-`, `.`, `_` and `~`.
pub open spec fn url_safe_byte(b: u8) -> bool {
    (48 <= b <= 57) || (65 <= b <= 90) || (97 <= b <= 122) || b == 45 || b == 46 || b == 95 || b
        == 126
}

/// The upper-case hexadecimal digit for `d < 16`.
pub open spec fn hex_digit(d: u8) -> char {
    if d < 10 {
        ((48 + d) as u8) as char
    } else {
        ((55 + d) as u8) as char
    }
}

/// Bytes percent-encoded: each byte that is not URL-safe becomes `%` and its
/// two upper-case hexadecimal digits.
pub open spec fn percent_encoded(bytes: Seq<u8>) -> Seq<char>
    decreases bytes.len(),
{
    if bytes.len() == 0 {
        Seq::empty()
    } else {
        let b = bytes[0];
        let head = if url_safe_byte(b) {
            seq![b as char]
        } else {
            seq!['%', hex_digit(b / 16), hex_digit(b % 16)]
        };
        head + percent_encoded(bytes.drop_first())
    }
}

/// `urlencoding::encode`: percent-encodes each byte of the UTF-8 text except
/// ASCII letters, digits, `-`, `_`, `.` and `~`, with upper-case hexadecimal
/// digits (its `to_hex_digit`).
#[verifier::external_body]
fn encode_path(value: &str) -> (r: String)
    ensures
        r@ == percent_encoded(encode_utf8(value@)),
{
    urlencoding::encode(value).into_owned()
}

/// The path of an item's page.
pub open spec fn item_href_of(project: Seq<char>, item_id: i64) -> Seq<char> {
    "/projects/"@ + percent_encoded(encode_utf8(project)) + "/items/"@ + int_text(item_id as int)
}

/// The path of the page of item `item_id` of `project`.
pub fn item_href(project: &str, item_id: i64) -> (r: String)
    ensures
        r@ == item_href_of(project@, item_id),
{
    let mut s = String::from_str("/projects/");
    let encoded = encode_path(project);
    s.append(encoded.as_str());
    s.append("/items/");
    push_int(&mut s, item_id);
    s
}

/// The path of the form that edits a swim lane of a project.
pub open spec fn lane_edit_href_of(project: Seq<char>, lane_id: i64) -> Seq<char> {
    "/projects?project="@ + percent_encoded(encode_utf8(project)) + "&edit_swim_lane="@ + int_text(
        lane_id as int,
    ) + "#swim-lanes"@
}

/// The path of the form that edits swim lane `lane_id` of `project`.
pub fn lane_edit_href(project: &str, lane_id: i64) -> (r: String)
    ensures
        r@ == lane_edit_href_of(project@, lane_id),
{
    let mut s = String::from_str("/projects?project=");
    let encoded = encode_path(project);
    s.append(encoded.as_str());
    s.append("&edit_swim_lane=");
    push_int(&mut s, lane_id);
    s.append("#swim-lanes");
    s
}

/// The path of the runs page of a project with a run selected.
pub open spec fn run_href_of(project: Seq<char>, run_id: i64) -> Seq<char> {
    "/runs?project="@ + percent_encoded(encode_utf8(project)) + "&run="@ + int_text(run_id as int)
}

/// The path of the runs page of `project` with run `run_id` selected.
pub fn run_href(project: &str, run_id: i64) -> (r: String)
    ensures
        r@ == run_href_of(project@, run_id),
{
    let mut s = String::from_str("/runs?project=");
    let encoded = encode_path(project);
    s.append(encoded.as_str());
    s.append("&run=");
    push_int(&mut s, run_id);
    s
}

} // verus!
