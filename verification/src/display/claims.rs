use vstd::prelude::*;

use crate::text::{chars_of, decimal, digit_char, has_prefix, prefix_at, push_char, push_decimal};

verus! {

/// Every character of `s` is an ASCII digit.
pub open spec fn all_digits(s: Seq<char>) -> bool {
    forall|i: int| 0 <= i < s.len() ==> '0' <= #[trigger] s[i] <= '9'
}

/// The number that the decimal digits `s` write.
pub open spec fn digits_value(s: Seq<char>) -> nat
    decreases s.len(),
{
    if s.len() == 0 {
        0
    } else {
        digits_value(s.drop_last()) * 10 + ((s.last() as nat) - ('0' as nat)) as nat
    }
}

/// A digit prefix never writes a larger number than the whole.
pub proof fn lemma_digits_value_prefix(s: Seq<char>, k: int)
    requires
        all_digits(s),
        0 <= k <= s.len(),
    ensures
        digits_value(s.take(k)) <= digits_value(s),
    decreases s.len(),
{
    if k < s.len() {
        let init = s.drop_last();
        assert(all_digits(init)) by {
            assert forall|i: int| 0 <= i < init.len() implies '0' <= #[trigger] init[i] <= '9' by {
                assert(init[i] == s[i]);
            }
        }
        lemma_digits_value_prefix(init, k);
        assert(init.take(k) =~= s.take(k));
        assert('0' <= s.last() <= '9');
    } else {
        assert(s.take(k) =~= s);
    }
}

/// The prefix of the agent names that automation runs claim work items under.
pub open spec fn run_agent_prefix() -> Seq<char> {
    "patchbay-run-"@
}

/// The run id in an agent name `patchbay-run-<id>`, where `<id>` is a
/// non-empty run of ASCII digits for a positive number that fits in `i64`.
pub open spec fn run_id_of_agent(agent_id: Seq<char>) -> Option<i64> {
    let id = agent_id.skip(run_agent_prefix().len() as int);
    if has_prefix(agent_id, run_agent_prefix()) && id.len() > 0 && all_digits(id)
        && digits_value(id) <= i64::MAX && digits_value(id) > 0 {
        Some(digits_value(id) as i64)
    } else {
        None
    }
}

/// The automation run that an agent name stands for.
pub fn infer_patchbay_run_id(agent_id: &str) -> (r: Option<i64>)
    ensures
        r == run_id_of_agent(agent_id@),
{
    let cs = chars_of(agent_id);
    proof {
        reveal_strlit("patchbay-run-");
        assert(cs@.subrange(0, cs.len() as int) =~= cs@);
    }
    if !prefix_at(&cs, 0, "patchbay-run-") {
        return None;
    }
    let start: usize = 13;
    let ghost id = agent_id@.skip(13);
    if cs.len() == start {
        return None;
    }
    let mut value: u128 = 0;
    let mut i: usize = start;
    while i < cs.len()
        invariant
            start <= i <= cs.len(),
            start == 13,
            run_agent_prefix().len() == 13,
            has_prefix(agent_id@, run_agent_prefix()),
            cs@ == agent_id@,
            id == agent_id@.skip(13),
            id.len() == cs.len() - 13,
            all_digits(id.take(i - 13)),
            value == digits_value(id.take(i - 13)),
            value <= i64::MAX,
        decreases cs.len() - i,
    {
        let c = cs[i];
        let ghost pre = id.take(i - 13);
        let ghost next = id.take(i - 13 + 1);
        assert(next.drop_last() =~= pre);
        assert(next.last() == c);
        if c < '0' || c > '9' {
            assert(id[i - 13] == c);
            assert(!all_digits(id));
            return None;
        }
        let d: u128 = digit_value(c);
        value = value * 10 + d;
        assert(all_digits(next)) by {
            assert forall|j: int| 0 <= j < next.len() implies '0' <= #[trigger] next[j] <= '9' by {
                if j < pre.len() {
                    assert(next[j] == pre[j]);
                }
            }
        }
        if value > 9223372036854775807u128 {
            proof {
                if all_digits(id) {
                    lemma_digits_value_prefix(id, i - 13 + 1);
                }
            }
            return None;
        }
        i = i + 1;
    }
    proof {
        assert(id.take(cs.len() - 13) =~= id);
    }
    if value == 0 {
        return None;
    }
    Some(value as i64)
}

/// The value of an ASCII digit.
fn digit_value(c: char) -> (d: u128)
    requires
        '0' <= c <= '9',
    ensures
        d == (c as nat) - ('0' as nat),
        d < 10,
{
    (c as u32 - '0' as u32) as u128
}

/// The two-digit form of `n < 100`, padded with a leading zero.
pub open spec fn pad2(n: nat) -> Seq<char> {
    if n < 10 {
        seq!['0'] + decimal(n)
    } else {
        decimal(n)
    }
}

/// How long a claim has run, from its seconds (negative counts as none):
/// `h:mm:ss` from one hour on, `m:ss` below.
pub open spec fn claim_elapsed_text(total_seconds: int) -> Seq<char> {
    let t: nat = if total_seconds < 0 { 0 } else { total_seconds as nat };
    let h: nat = t / 3600;
    let m: nat = (t % 3600) / 60;
    let s: nat = t % 60;
    if h > 0 {
        decimal(h) + seq![':'] + pad2(m) + seq![':'] + pad2(s)
    } else {
        decimal(m) + seq![':'] + pad2(s)
    }
}

fn push_pad2(out: &mut String, n: u64)
    requires
        n < 100,
    ensures
        final(out)@ == old(out)@ + pad2(n as nat),
{
    if n < 10 {
        push_char(out, '0');
    }
    push_decimal(out, n);
    proof {
        if n < 10 {
            assert(old(out)@.push('0') + decimal(n as nat) =~= old(out)@ + (seq!['0'] + decimal(n as nat)));
        }
    }
}

/// The label of a claim's elapsed time.
pub fn format_claim_elapsed_seconds(total_seconds: i64) -> (r: String)
    ensures
        r@ == claim_elapsed_text(total_seconds as int),
{
    let t: u64 = if total_seconds < 0 { 0 } else { total_seconds as u64 };
    let hours = t / 3600;
    let minutes = (t % 3600) / 60;
    let seconds = t % 60;
    let mut out = String::new();
    if hours > 0 {
        push_decimal(&mut out, hours);
        push_char(&mut out, ':');
        push_pad2(&mut out, minutes);
        push_char(&mut out, ':');
        push_pad2(&mut out, seconds);
    } else {
        push_decimal(&mut out, minutes);
        push_char(&mut out, ':');
        push_pad2(&mut out, seconds);
    }
    proof {
        if hours > 0 {
            assert(out@ =~= claim_elapsed_text(total_seconds as int));
        } else {
            assert(out@ =~= claim_elapsed_text(total_seconds as int));
        }
    }
    out
}

/// The magnitude that instants of the `time` crate stay below, in
/// nanoseconds from the Unix epoch (its dates end at year ±999 999).
pub open spec fn instant_nanos_limit() -> int {
    1_000_000_000_000_000_000_000_000
}

/// The instant that an RFC 3339 text names, in nanoseconds from the Unix
/// epoch, where the text parses.
pub uninterp spec fn rfc3339_unix_nanos(text: Seq<char>) -> Option<int>;

/// `OffsetDateTime::parse` with the RFC 3339 format, followed on success by
/// `unix_timestamp_nanos`: the instant the text names. Whether a text parses
/// and what instant it names is left to the crate; the contract says only that
/// the result is that of the text and that an instant of the crate stays within
/// its year range.
#[verifier::external_body]
fn parse_rfc3339_unix_nanos(text: &str) -> (r: Option<i128>)
    ensures
        match r {
            Some(n) => rfc3339_unix_nanos(text@) == Some(n as int) && -instant_nanos_limit() < n < instant_nanos_limit(),
            None => rfc3339_unix_nanos(text@) is None,
        },
{
    match time::OffsetDateTime::parse(text, &time::format_description::well_known::Rfc3339) {
        Ok(t) => Some(t.unix_timestamp_nanos()),
        Err(_) => None,
    }
}

/// The instant a date-time of the `time` crate stands for, in nanoseconds
/// from the Unix epoch.
pub uninterp spec fn instant_nanos(t: time::OffsetDateTime) -> int;

/// `OffsetDateTime::unix_timestamp_nanos`: the instant of a date-time of the
/// crate, in nanoseconds from the Unix epoch, within its year range.
#[verifier::external_body]
fn unix_nanos(t: &time::OffsetDateTime) -> (n: i128)
    ensures
        n as int == instant_nanos(*t),
        -instant_nanos_limit() < n < instant_nanos_limit(),
{
    t.unix_timestamp_nanos()
}

/// Whole seconds from `claimed` to `now` (nanosecond instants), none when
/// `now` is not later.
pub open spec fn elapsed_whole_seconds(claimed: int, now: int) -> int {
    if now - claimed <= 0 {
        0
    } else {
        (now - claimed) / 1_000_000_000
    }
}

/// Seconds since a claim that `claimed_at` (RFC 3339) dates, at the instant
/// `now_unix_nanos`; `None` where the text does not parse.
pub fn claim_elapsed_seconds_between(claimed_at: &str, now_unix_nanos: i128) -> (r: Option<i64>)
    requires
        -instant_nanos_limit() < now_unix_nanos < instant_nanos_limit(),
    ensures
        r == match rfc3339_unix_nanos(claimed_at@) {
            Some(c) => Some(elapsed_whole_seconds(c, now_unix_nanos as int) as i64),
            None => None,
        },
        match r {
            Some(s) => s >= 0,
            None => true,
        },
{
    match parse_rfc3339_unix_nanos(claimed_at) {
        Some(claimed) => {
            let diff = now_unix_nanos - claimed;
            if diff <= 0 {
                Some(0)
            } else {
                Some((diff / 1_000_000_000) as i64)
            }
        },
        None => None,
    }
}

/// The whole seconds from the instant `claimed_at` names to `now`, none
/// where `now` is not later; `None` where the text does not parse.
pub open spec fn elapsed_at(claimed_at: Seq<char>, now: time::OffsetDateTime) -> Option<i64> {
    match rfc3339_unix_nanos(claimed_at) {
        Some(c) => Some(elapsed_whole_seconds(c, instant_nanos(now)) as i64),
        None => None,
    }
}

/// Seconds since a claim that `claimed_at` (RFC 3339) dates, at `now`:
/// `None` exactly where the text does not parse, never negative.
pub fn claim_elapsed_seconds_at(claimed_at: &str, now: time::OffsetDateTime) -> (r: Option<i64>)
    ensures
        r == elapsed_at(claimed_at@, now),
        -instant_nanos_limit() < instant_nanos(now) < instant_nanos_limit(),
        match r {
            Some(s) => s >= 0,
            None => true,
        },
{
    let n = unix_nanos(&now);
    claim_elapsed_seconds_between(claimed_at, n)
}

/// Seconds since a claim that `claimed_at` (RFC 3339) dates, at the current
/// time: `None` exactly where the text does not parse, never negative.
pub fn claim_elapsed_seconds(claimed_at: &str) -> (r: Option<i64>)
    ensures
        exists|now: time::OffsetDateTime| r == elapsed_at(claimed_at@, now),
        r is Some <==> rfc3339_unix_nanos(claimed_at@) is Some,
        match r {
            Some(s) => s >= 0,
            None => true,
        },
{
    let now = crate::clock::now_utc();
    let r = claim_elapsed_seconds_at(claimed_at, now);
    assert(r == elapsed_at(claimed_at@, now));
    r
}

/// The time since a claim, at the current time, as `claim_elapsed_text`
/// writes it; `None` exactly where `claimed_at` does not parse.
pub fn claim_elapsed_label(claimed_at: &str) -> (r: Option<String>)
    ensures
        exists|now: time::OffsetDateTime| match #[trigger] elapsed_at(claimed_at@, now) {
            Some(s) => r matches Some(t) && t@ == claim_elapsed_text(s as int),
            None => r is None,
        },
        r is Some <==> rfc3339_unix_nanos(claimed_at@) is Some,
        match r {
            Some(t) => exists|s: int| s >= 0 && t@ == claim_elapsed_text(s),
            None => true,
        },
{
    let now = crate::clock::now_utc();
    match claim_elapsed_seconds_at(claimed_at, now) {
        Some(s) => {
            let t = format_claim_elapsed_seconds(s);
            assert(t@ == claim_elapsed_text(s as int));
            assert(elapsed_at(claimed_at@, now) == Some(s));
            Some(t)
        },
        None => None,
    }
}

} // verus!
