use vstd::prelude::*;

verus! {

/// `time::OffsetDateTime`, carried through as an opaque value.
#[verifier::external_type_specification]
#[verifier::external_body]
pub struct ExOffsetDateTime(time::OffsetDateTime);

/// An ASCII decimal digit.
pub open spec fn is_digit(c: char) -> bool {
    '0' <= c <= '9'
}

/// The offset of an RFC 3339 time: `Z`, or a sign and `hh:mm`.
pub open spec fn rfc3339_zone(z: Seq<char>) -> bool {
    ||| z == seq!['Z']
    ||| z.len() == 6 && (z[0] == '+' || z[0] == '-') && is_digit(z[1]) && is_digit(z[2]) && z[3]
        == ':' && is_digit(z[4]) && is_digit(z[5])
}

/// What follows the seconds of an RFC 3339 time: the offset, or a point, one
/// or more digits of a second's fraction and then the offset.
pub open spec fn rfc3339_tail(t: Seq<char>) -> bool {
    ||| rfc3339_zone(t)
    ||| t.len() > 0 && t[0] == '.' && exists|k: int|
        2 <= k <= t.len() && (forall|i: int| 1 <= i < k ==> is_digit(#[trigger] t[i]))
            && rfc3339_zone(t.skip(k))
}

/// A time as RFC 3339 writes it: `YYYY-MM-DDThh:mm:ss`, then the tail.
pub open spec fn rfc3339_text(s: Seq<char>) -> bool {
    &&& s.len() >= 20
    &&& forall|i: int|
        0 <= i < 19 && i != 4 && i != 7 && i != 10 && i != 13 && i != 16 ==> is_digit(#[trigger] s[i])
    &&& s[4] == '-' && s[7] == '-' && s[10] == 'T' && s[13] == ':' && s[16] == ':'
    &&& rfc3339_tail(s.skip(19))
}

/// `time::OffsetDateTime::now_utc`: the current instant, from the system clock.
/// Nothing is promised of it.
#[verifier::external_body]
pub(crate) fn now_utc() -> (now: time::OffsetDateTime) {
    time::OffsetDateTime::now_utc()
}

/// What formatting a date-time of the `time` crate with the RFC 3339
/// description gives: its text, or nothing where the crate reports an error.
pub uninterp spec fn rfc3339_format(t: time::OffsetDateTime) -> Option<Seq<char>>;

/// `OffsetDateTime::format` with the RFC 3339 description, `None` where the
/// crate reports a formatting error. The text is named by the date-time it
/// formats; its source writes a four-digit year, the two-digit month, day,
/// hour, minute and second with `-`, `T` and `:` between, a point and the
/// second's fraction where it is not zero, and `Z` for UTC or a sign and
/// `hh:mm`.
#[verifier::external_body]
fn format_rfc3339(t: &time::OffsetDateTime) -> (text: Option<String>)
    ensures
        match text {
            Some(s) => rfc3339_format(*t) == Some(s@) && rfc3339_text(s@),
            None => rfc3339_format(*t) is None,
        },
{
    t.format(&time::format_description::well_known::Rfc3339).ok()
}

/// The RFC 3339 text of a date-time, or the Unix epoch where it cannot be
/// formatted.
pub open spec fn rfc3339_or_epoch(t: time::OffsetDateTime) -> Seq<char> {
    match rfc3339_format(t) {
        Some(s) => s,
        None => "1970-01-01T00:00:00Z"@,
    }
}

/// The RFC 3339 text of `t`, or the Unix epoch where it cannot be formatted.
pub fn rfc3339_text_of(t: &time::OffsetDateTime) -> (r: String)
    ensures
        r@ == rfc3339_or_epoch(*t),
        rfc3339_text(r@),
{
    match format_rfc3339(t) {
        Some(text) => text,
        None => {
            let s = String::from_str("1970-01-01T00:00:00Z");
            proof {
                reveal_strlit("1970-01-01T00:00:00Z");
                assert(s@.skip(19) =~= seq!['Z']);
            }
            s
        },
    }
}

/// The current UTC time as RFC 3339 text, or the Unix epoch when it cannot
/// be formatted.
pub fn utc_now() -> (now: String)
    ensures
        exists|t: time::OffsetDateTime| now@ == #[trigger] rfc3339_or_epoch(t),
        rfc3339_text(now@),
{
    let t = now_utc();
    let r = rfc3339_text_of(&t);
    assert(r@ == rfc3339_or_epoch(t));
    r
}

} // verus!
