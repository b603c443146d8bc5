use vstd::prelude::*;

use crate::display::claims::{all_digits, digits_value, lemma_digits_value_prefix};
use crate::projects::errors::ProjectError;
use crate::text::{chars_of, has_prefix, is_blank, prefix_at, str_eq, trim};

verus! {

broadcast use vstd::std_specs::vec::group_vec_axioms;

/// `str::parse::<i64>`: an optional `+` or `-`, then at least one ASCII
/// digit and nothing else, for a value that fits in `i64`.
pub open spec fn parse_i64(s: Seq<char>) -> Option<i64> {
    let neg = s.len() > 0 && s[0] == '-';
    let signed = s.len() > 0 && (s[0] == '-' || s[0] == '+');
    let digits = if signed { s.skip(1) } else { s };
    if digits.len() == 0 || !all_digits(digits) {
        None
    } else if neg {
        if digits_value(digits) <= 9223372036854775808 {
            Some((-(digits_value(digits) as int)) as i64)
        } else {
            None
        }
    } else if digits_value(digits) <= i64::MAX {
        Some(digits_value(digits) as i64)
    } else {
        None
    }
}

/// The value of an ASCII digit.
fn digit_of(c: char) -> (d: u128)
    requires
        '0' <= c <= '9',
    ensures
        d == (c as nat) - ('0' as nat),
{
    (c as u32 - '0' as u32) as u128
}

/// Parses a decimal `i64`, as `str::parse::<i64>` does.
pub fn parse_i64_text(s: &Vec<char>, from: usize) -> (r: Option<i64>)
    requires
        from <= s.len(),
    ensures
        r == parse_i64(s@.skip(from as int)),
{
    let ghost t = s@.skip(from as int);
    let neg = from < s.len() && s[from] == '-';
    let signed = from < s.len() && (s[from] == '-' || s[from] == '+');
    let start: usize = if signed { from + 1 } else { from };
    let ghost digits = if signed { t.skip(1) } else { t };
    assert(digits =~= s@.skip(start as int));
    if start == s.len() {
        return None;
    }
    let mut value: u128 = 0;
    let mut i: usize = start;
    while i < s.len()
        invariant
            start <= i <= s.len(),
            t == s@.skip(from as int),
            neg == (t.len() > 0 && t[0] == '-'),
            digits == (if t.len() > 0 && (t[0] == '-' || t[0] == '+') { t.skip(1) } else { t }),
            digits.len() > 0,
            digits == s@.skip(start as int),
            digits.len() == s.len() - start,
            all_digits(digits.take(i - start)),
            value == digits_value(digits.take(i - start)),
            value <= 9223372036854775808,
        decreases s.len() - i,
    {
        let c = s[i];
        let ghost pre = digits.take(i - start);
        let ghost next = digits.take(i - start + 1);
        assert(next.drop_last() =~= pre);
        assert(next.last() == c);
        if c < '0' || c > '9' {
            assert(digits[i - start] == c);
            assert(!all_digits(digits));
            return None;
        }
        value = value * 10 + digit_of(c);
        assert(all_digits(next)) by {
            assert forall|j: int| 0 <= j < next.len() implies '0' <= #[trigger] next[j] <= '9' by {
                if j < pre.len() {
                    assert(next[j] == pre[j]);
                }
            }
        }
        if value > 9223372036854775808u128 {
            proof {
                if all_digits(digits) {
                    lemma_digits_value_prefix(digits, i - start + 1);
                }
            }
            return None;
        }
        i = i + 1;
    }
    assert(digits.take(s.len() - start) =~= digits);
    if neg {
        if value == 9223372036854775808u128 {
            Some(i64::MIN)
        } else {
            Some(-(value as i64))
        }
    } else if value <= 9223372036854775807u128 {
        Some(value as i64)
    } else {
        None
    }
}

/// The run id in an agent name `patchbay-run-<n>`, where `<n>` parses as an `i64`.
pub open spec fn agent_run_id_of(agent_id: Seq<char>) -> Option<i64> {
    if has_prefix(agent_id, "patchbay-run-"@) {
        parse_i64(agent_id.skip(13))
    } else {
        None
    }
}

/// The run id in an agent name, for attributing project changes.
pub fn infer_agent_run_id(agent_id: &str) -> (r: Option<i64>)
    ensures
        r == agent_run_id_of(agent_id@),
{
    let cs = chars_of(agent_id);
    proof {
        reveal_strlit("patchbay-run-");
        assert(cs@.subrange(0, cs.len() as int) =~= cs@);
    }
    if !prefix_at(&cs, 0, "patchbay-run-") {
        return None;
    }
    parse_i64_text(&cs, 13)
}

/// Who changed a project's prompt or memory.
#[derive(Clone, Debug)]
pub enum ProjectChangeSource {
    Agent { agent_id: String, agent_run_id: Option<i64> },
    User,
    System,
}

/// The kind of actor recorded for a change.
pub open spec fn actor_type_of(s: ProjectChangeSource) -> Seq<char> {
    match s {
        ProjectChangeSource::Agent { .. } => "agent"@,
        ProjectChangeSource::User => "user"@,
        ProjectChangeSource::System => "system"@,
    }
}

/// The run recorded for a change: the agent's given run, or else the run its name stands for.
pub open spec fn change_run_of(s: ProjectChangeSource) -> Option<i64> {
    match s {
        ProjectChangeSource::Agent { agent_id, agent_run_id } => match agent_run_id {
            Some(id) => Some(id),
            None => agent_run_id_of(agent_id@),
        },
        _ => None,
    }
}

impl ProjectChangeSource {
    /// The kind of actor recorded for the change.
    pub fn actor_type(&self) -> (r: &'static str)
        ensures
            r@ == actor_type_of(*self),
    {
        match self {
            ProjectChangeSource::Agent { .. } => "agent",
            ProjectChangeSource::User => "user",
            ProjectChangeSource::System => "system",
        }
    }

    /// The agent recorded for the change, where an agent made it.
    pub fn actor_id(&self) -> (r: Option<&str>)
        ensures
            match *self {
                ProjectChangeSource::Agent { agent_id, .. } => r matches Some(a) && a@ == agent_id@,
                _ => r is None,
            },
    {
        match self {
            ProjectChangeSource::Agent { agent_id, .. } => Some(agent_id.as_str()),
            ProjectChangeSource::User => None,
            ProjectChangeSource::System => None,
        }
    }

    /// The run recorded for the change.
    pub fn agent_run_id(&self) -> (r: Option<i64>)
        ensures
            r == change_run_of(*self),
    {
        match self {
            ProjectChangeSource::Agent { agent_id, agent_run_id } => match agent_run_id {
                Some(id) => Some(*id),
                None => infer_agent_run_id(agent_id.as_str()),
            },
            ProjectChangeSource::User => None,
            ProjectChangeSource::System => None,
        }
    }
}

/// A project's memory after a change: `append` adds the body after a blank
/// line where there is memory already; any other operation replaces it.
pub open spec fn memory_after(operation: Seq<char>, existing: Seq<char>, body: Seq<char>) -> Seq<char> {
    if operation == "append"@ && trim(existing).len() > 0 {
        existing + "\n\n"@ + body
    } else {
        body
    }
}

/// The memory a project holds after a `set` or `append` change.
pub fn changed_memory(operation: &str, existing: &str, body: String) -> (r: String)
    ensures
        r@ == memory_after(operation@, existing@, body@),
{
    if str_eq(operation, "append") && !is_blank(existing) {
        let mut m = existing.to_string();
        m.append("\n\n");
        m.append(body.as_str());
        m
    } else {
        body
    }
}

/// Checks the body of a memory append: it may not be blank.
pub fn check_memory_append_body(body: &str) -> (r: Result<(), ProjectError>)
    ensures
        trim(body@).len() == 0 ==> (r matches Err(ProjectError::MemoryAppendEmpty)),
        trim(body@).len() > 0 ==> r is Ok,
{
    if is_blank(body) {
        Err(ProjectError::MemoryAppendEmpty)
    } else {
        Ok(())
    }
}

/// Whether a change of the system prompt or memory to `text` is recorded as
/// an initial event when a project is created: only where it is not blank.
pub fn records_initial_event(text: &str) -> (b: bool)
    ensures
        b == (trim(text@).len() > 0),
{
    !is_blank(text)
}

/// The recorded body of a memory or system prompt change: the operation and
/// the text that resulted.
pub struct ChangedBody {
    pub operation: String,
    pub text: String,
}

/// The operation and text that a recorded change of memory or system prompt
/// shows: those of its body where the body could be read as one, else
/// `unknown` and the raw body.
pub fn changed_event_fields(raw_body: &str, parsed: Option<ChangedBody>) -> (r: (String, String))
    ensures
        match parsed {
            Some(b) => r.0@ == b.operation@ && r.1@ == b.text@,
            None => r.0@ == "unknown"@ && r.1@ == raw_body@,
        },
{
    match parsed {
        Some(b) => (b.operation, b.text),
        None => (String::from_str("unknown"), raw_body.to_string()),
    }
}

} // verus!
