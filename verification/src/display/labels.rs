use vstd::prelude::*;

use crate::rich_text::{rich_plain_text, rich_text_plain_text};
use crate::text::{
    chars_of, decimal, int_text, is_blank, join, push_char, push_decimal, push_int, string_of, string_of_range,
    str_eq, trim, trim_str, views,
};

verus! {

broadcast use vstd::std_specs::vec::group_vec_axioms;

/// A label as it is shown: `key=value`, or the key alone.
pub open spec fn label_text(key: Seq<char>, value: Option<Seq<char>>) -> Seq<char> {
    match value {
        Some(v) => key + seq!['='] + v,
        None => key,
    }
}

/// The text of a label on a card or a filter chip.
pub fn format_label(key: &str, value: Option<&str>) -> (r: String)
    ensures
        r@ == label_text(
            key@,
            match value {
                Some(v) => Some(v@),
                None => None,
            },
        ),
{
    let mut out = key.to_string();
    match value {
        Some(v) => {
            push_char(&mut out, '=');
            out.append(v);
        },
        None => {},
    }
    out
}

/// The number of characters a preview keeps.
pub open spec fn max_preview_chars() -> nat {
    140
}

/// `s` cut to its first `max` characters, with `...` after a cut.
pub open spec fn abbreviated(s: Seq<char>, max: nat) -> Seq<char> {
    if s.len() <= max {
        s
    } else {
        s.take(max as int) + "..."@
    }
}

/// The preview of a stored text: its plain text, cut after 140 characters.
pub open spec fn preview_text(value: Seq<char>) -> Seq<char> {
    abbreviated(rich_plain_text(value), max_preview_chars())
}

/// `s` cut to its first `max` characters with `...` after a cut, and whether it was cut.
pub fn abbreviate_chars(value: &str, max_chars: usize) -> (r: (String, bool))
    ensures
        r.0@ == abbreviated(value@, max_chars as nat),
        r.1 == (value@.len() > max_chars),
{
    let cs = chars_of(value);
    let truncated = cs.len() > max_chars;
    let end = if truncated { max_chars } else { cs.len() };
    let mut out = String::new();
    let mut i: usize = 0;
    while i < end
        invariant
            i <= end <= cs.len(),
            cs@ == value@,
            out@ == cs@.take(i as int),
        decreases end - i,
    {
        push_char(&mut out, cs[i]);
        assert(out@ =~= cs@.take(i + 1));
        i = i + 1;
    }
    if truncated {
        out.append("...");
    } else {
        assert(cs@.take(cs.len() as int) =~= cs@);
    }
    (out, truncated)
}

/// The short preview of a work item's description.
pub fn preview(value: &str) -> (r: String)
    ensures
        r@ == preview_text(value@),
{
    let plain = rich_text_plain_text(value);
    let (out, _) = abbreviate_chars(plain.as_str(), 140);
    out
}

/// Decimal digits grouped in threes from the right with commas.
pub open spec fn group_thousands(d: Seq<char>) -> Seq<char>
    decreases d.len(),
{
    if d.len() <= 3 {
        d
    } else {
        group_thousands(d.take(d.len() - 3)) + seq![','] + d.skip(d.len() - 3)
    }
}

/// An integer in decimal with thousands separators, `-` before negative ones.
pub open spec fn number_text(value: int) -> Seq<char> {
    if value < 0 {
        seq!['-'] + group_thousands(decimal((-value) as nat))
    } else {
        group_thousands(decimal(value as nat))
    }
}

/// Appends `group_thousands(d[..end])`.
fn push_grouped(out: &mut String, d: &Vec<char>, end: usize)
    requires
        end <= d.len(),
    ensures
        final(out)@ == old(out)@ + group_thousands(d@.take(end as int)),
    decreases end,
{
    let ghost part = d@.take(end as int);
    if end > 3 {
        push_grouped(out, d, end - 3);
        push_char(out, ',');
        let tail = string_of_range(d, end - 3, end);
        out.append(tail.as_str());
        assert(part.take(part.len() - 3) =~= d@.take(end - 3));
        assert(part.skip(part.len() - 3) =~= d@.subrange(end - 3, end as int));
    } else {
        let mut i: usize = 0;
        while i < end
            invariant
                i <= end <= d.len(),
                out@ == old(out)@ + d@.take(i as int),
            decreases end - i,
        {
            push_char(out, d[i]);
            assert(out@ =~= old(out)@ + d@.take(i + 1));
            i = i + 1;
        }
    }
}

/// An integer in decimal with thousands separators.
pub fn format_number(value: i64) -> (r: String)
    ensures
        r@ == number_text(value as int),
{
    let magnitude: u64 = if value == i64::MIN {
        9223372036854775808u64
    } else if value < 0 {
        (-value) as u64
    } else {
        value as u64
    };
    let mut digits = String::new();
    push_decimal(&mut digits, magnitude);
    let d = chars_of(digits.as_str());
    let mut out = String::new();
    if value < 0 {
        push_char(&mut out, '-');
    }
    push_grouped(&mut out, &d, d.len());
    assert(d@.take(d.len() as int) =~= d@);
    proof {
        if value < 0 {
            assert(out@ =~= seq!['-'] + group_thousands(decimal((-value) as nat)));
        } else {
            assert(out@ =~= group_thousands(decimal(value as nat)));
        }
    }
    out
}

/// The readable name of a Codex sign-in method.
pub open spec fn auth_method_text(method: Seq<char>) -> Seq<char> {
    if method == "apiKey"@ {
        "API key"@
    } else if method == "chatgpt"@ {
        "ChatGPT"@
    } else if method == "amazonBedrock"@ {
        "Amazon Bedrock"@
    } else {
        method
    }
}

/// The readable name of a Codex sign-in method; unknown methods keep their name.
pub fn auth_method_label(method: &str) -> (r: String)
    ensures
        r@ == auth_method_text(method@),
{
    if str_eq(method, "apiKey") {
        String::from_str("API key")
    } else if str_eq(method, "chatgpt") {
        String::from_str("ChatGPT")
    } else if str_eq(method, "amazonBedrock") {
        String::from_str("Amazon Bedrock")
    } else {
        method.to_string()
    }
}

/// A recorded text, or `not recorded` where it is blank.
pub open spec fn recorded_text(value: Seq<char>) -> Seq<char> {
    if trim(value).len() == 0 {
        "not recorded"@
    } else {
        value
    }
}

/// A recorded field of a run, with a placeholder where nothing was recorded.
pub fn recorded_field(value: &str) -> (r: String)
    ensures
        r@ == recorded_text(value@),
{
    if is_blank(value) {
        String::from_str("not recorded")
    } else {
        value.to_string()
    }
}

/// A run's summary, or `No summary yet.` where it is blank.
pub open spec fn summary_text(summary: Seq<char>) -> Seq<char> {
    if trim(summary).len() == 0 {
        "No summary yet."@
    } else {
        summary
    }
}

/// The summary line shown for a run.
pub fn run_result_summary(result_summary: &str) -> (r: String)
    ensures
        r@ == summary_text(result_summary@),
{
    if is_blank(result_summary) {
        String::from_str("No summary yet.")
    } else {
        result_summary.to_string()
    }
}

/// The token counts of a run as shown: total, then input, cached input and output.
pub open spec fn token_usage_text(total: int, input: int, cached: int, output: int) -> Seq<char> {
    number_text(total) + " total ("@ + number_text(input) + " input, "@ + number_text(cached)
        + " cached input, "@ + number_text(output) + " output)"@
}

/// The label of a run's token usage.
pub fn run_token_usage_label(total_tokens: i64, input_tokens: i64, cached_input_tokens: i64, output_tokens: i64) -> (r: String)
    ensures
        r@ == token_usage_text(total_tokens as int, input_tokens as int, cached_input_tokens as int, output_tokens as int),
{
    let mut out = format_number(total_tokens);
    out.append(" total (");
    out.append(format_number(input_tokens).as_str());
    out.append(" input, ");
    out.append(format_number(cached_input_tokens).as_str());
    out.append(" cached input, ");
    out.append(format_number(output_tokens).as_str());
    out.append(" output)");
    out
}

} // verus!

verus! {

/// The rate limits that Codex reports for the signed-in account.
#[derive(Clone, Debug)]
pub struct CodexRateLimit {
    pub primary_used_percent: Option<i64>,
    pub primary_window_minutes: Option<i64>,
    pub primary_resets_at: Option<String>,
    pub secondary_used_percent: Option<i64>,
    pub secondary_window_minutes: Option<i64>,
    pub secondary_resets_at: Option<String>,
    pub individual_remaining_percent: Option<i64>,
    pub individual_used: Option<i64>,
    pub individual_limit: Option<i64>,
    pub individual_resets_at: Option<String>,
    pub credits_balance: Option<String>,
    pub credits_has_credits: Option<bool>,
    pub credits_unlimited: Option<bool>,
}

/// The mathematical value of an optional text.
pub open spec fn opt_text(o: Option<String>) -> Option<Seq<char>> {
    match o {
        Some(s) => Some(s@),
        None => None,
    }
}

/// The line for one rate window: only where its used percentage is known.
pub open spec fn rate_window_text(
    label: Seq<char>,
    used_percent: Option<i64>,
    window_minutes: Option<i64>,
    resets_at: Option<Seq<char>>,
) -> Option<Seq<char>> {
    match used_percent {
        None => None,
        Some(used) => Some(
            label + ": "@ + int_text(used as int) + "% used"@ + match window_minutes {
                Some(w) => " over "@ + int_text(w as int) + " min"@,
                None => Seq::empty(),
            } + match resets_at {
                Some(r) => ", resets "@ + r,
                None => Seq::empty(),
            },
        ),
    }
}

/// The line for one rate window, where its used percentage is known.
pub fn rate_window_line(
    label: &str,
    used_percent: Option<i64>,
    window_minutes: Option<i64>,
    resets_at: Option<&str>,
) -> (r: Option<String>)
    ensures
        opt_text(r) == rate_window_text(
            label@,
            used_percent,
            window_minutes,
            match resets_at {
                Some(s) => Some(s@),
                None => None,
            },
        ),
{
    let used = match used_percent {
        Some(u) => u,
        None => return None,
    };
    let mut line = label.to_string();
    line.append(": ");
    push_int(&mut line, used);
    line.append("% used");
    match window_minutes {
        Some(w) => {
            line.append(" over ");
            push_int(&mut line, w);
            line.append(" min");
        },
        None => {},
    }
    match resets_at {
        Some(r) => {
            line.append(", resets ");
            line.append(r);
        },
        None => {},
    }
    proof {
        let wpart = match window_minutes {
            Some(w) => " over "@ + int_text(w as int) + " min"@,
            None => Seq::<char>::empty(),
        };
        let rpart = match resets_at {
            Some(r) => ", resets "@ + r@,
            None => Seq::<char>::empty(),
        };
        assert(line@ =~= label@ + ": "@ + int_text(used as int) + "% used"@ + wpart + rpart);
    }
    Some(line)
}

/// `yes`, `no`, or `unknown` for an optional flag.
pub open spec fn flag_text(f: Option<bool>) -> Seq<char> {
    match f {
        Some(true) => "yes"@,
        Some(false) => "no"@,
        None => "unknown"@,
    }
}

/// The line for the individual budget, where its remaining percentage is known.
pub open spec fn individual_text(l: CodexRateLimit) -> Option<Seq<char>> {
    match l.individual_remaining_percent {
        None => None,
        Some(rem) => Some(
            int_text(rem as int) + "% individual budget remaining"@ + match (l.individual_used, l.individual_limit) {
                (Some(u), Some(m)) => " ("@ + int_text(u as int) + " of "@ + int_text(m as int) + ")"@,
                _ => Seq::empty(),
            } + match opt_text(l.individual_resets_at) {
                Some(r) => ", resets "@ + r,
                None => Seq::empty(),
            },
        ),
    }
}

/// The line for the credits, where any credit field is known.
pub open spec fn credits_text(l: CodexRateLimit) -> Option<Seq<char>> {
    if l.credits_balance is Some || l.credits_has_credits is Some || l.credits_unlimited is Some {
        Some(
            "Credits balance "@ + match opt_text(l.credits_balance) {
                Some(b) => b,
                None => "unknown"@,
            } + "; has credits "@ + flag_text(l.credits_has_credits) + "; unlimited "@ + flag_text(
                l.credits_unlimited,
            ),
        )
    } else {
        None
    }
}

/// The present lines among `parts`, in order.
pub open spec fn present(parts: Seq<Option<Seq<char>>>) -> Seq<Seq<char>>
    decreases parts.len(),
{
    if parts.len() == 0 {
        Seq::empty()
    } else {
        let rest = present(parts.drop_last());
        match parts.last() {
            Some(p) => rest.push(p),
            None => rest,
        }
    }
}

/// The lines that describe a rate limit: the primary and secondary windows,
/// the individual budget and the credits, each where known, or one line
/// saying that nothing was reported.
pub open spec fn rate_limit_text(l: CodexRateLimit) -> Seq<Seq<char>> {
    let lines = present(
        seq![
            rate_window_text("Primary"@, l.primary_used_percent, l.primary_window_minutes, opt_text(l.primary_resets_at)),
            rate_window_text("Secondary"@, l.secondary_used_percent, l.secondary_window_minutes, opt_text(l.secondary_resets_at)),
            individual_text(l),
            credits_text(l),
        ],
    );
    if lines.len() == 0 {
        seq!["No window details reported."@]
    } else {
        lines
    }
}

fn push_flag(out: &mut String, f: Option<bool>)
    ensures
        final(out)@ == old(out)@ + flag_text(f),
{
    match f {
        Some(true) => out.append("yes"),
        Some(false) => out.append("no"),
        None => out.append("unknown"),
    }
}

fn individual_line(limit: &CodexRateLimit) -> (r: Option<String>)
    ensures
        opt_text(r) == individual_text(*limit),
{
    let remaining = match limit.individual_remaining_percent {
        Some(r) => r,
        None => return None,
    };
    let mut line = String::new();
    push_int(&mut line, remaining);
    line.append("% individual budget remaining");
    let ghost base = line@;
    match (limit.individual_used, limit.individual_limit) {
        (Some(used), Some(max)) => {
            line.append(" (");
            push_int(&mut line, used);
            line.append(" of ");
            push_int(&mut line, max);
            line.append(")");
        },
        _ => {},
    }
    let ghost mid = line@;
    match &limit.individual_resets_at {
        Some(r) => {
            line.append(", resets ");
            line.append(r.as_str());
        },
        None => {},
    }
    proof {
        let upart = match (limit.individual_used, limit.individual_limit) {
            (Some(u), Some(m)) => " ("@ + int_text(u as int) + " of "@ + int_text(m as int) + ")"@,
            _ => Seq::<char>::empty(),
        };
        let rpart = match opt_text(limit.individual_resets_at) {
            Some(r) => ", resets "@ + r,
            None => Seq::<char>::empty(),
        };
        assert(mid =~= base + upart);
        assert(line@ =~= base + upart + rpart);
    }
    Some(line)
}

fn credits_line(limit: &CodexRateLimit) -> (r: Option<String>)
    ensures
        opt_text(r) == credits_text(*limit),
{
    if limit.credits_balance.is_some() || limit.credits_has_credits.is_some() || limit.credits_unlimited.is_some() {
        let mut line = String::from_str("Credits balance ");
        match &limit.credits_balance {
            Some(b) => line.append(b.as_str()),
            None => line.append("unknown"),
        }
        line.append("; has credits ");
        push_flag(&mut line, limit.credits_has_credits);
        line.append("; unlimited ");
        push_flag(&mut line, limit.credits_unlimited);
        proof {
            let bpart = match opt_text(limit.credits_balance) {
                Some(b) => b,
                None => "unknown"@,
            };
            assert(line@ =~= "Credits balance "@ + bpart + "; has credits "@ + flag_text(limit.credits_has_credits)
                + "; unlimited "@ + flag_text(limit.credits_unlimited));
        }
        Some(line)
    } else {
        None
    }
}

fn push_present(lines: &mut Vec<String>, part: Option<String>)
    ensures
        views(final(lines)@) == match opt_text(part) {
            Some(p) => views(old(lines)@).push(p),
            None => views(old(lines)@),
        },
{
    match part {
        Some(p) => {
            lines.push(p);
            assert(views(lines@) =~= views(old(lines)@).push(p@));
        },
        None => {},
    }
}

/// The lines that describe a Codex rate limit.
pub fn rate_limit_lines(limit: &CodexRateLimit) -> (r: Vec<String>)
    ensures
        views(r@) == rate_limit_text(*limit),
{
    let primary_resets = match &limit.primary_resets_at {
        Some(s) => Some(s.as_str()),
        None => None,
    };
    let secondary_resets = match &limit.secondary_resets_at {
        Some(s) => Some(s.as_str()),
        None => None,
    };
    let p1 = rate_window_line("Primary", limit.primary_used_percent, limit.primary_window_minutes, primary_resets);
    let p2 = rate_window_line("Secondary", limit.secondary_used_percent, limit.secondary_window_minutes, secondary_resets);
    let p3 = individual_line(limit);
    let p4 = credits_line(limit);
    let ghost parts = seq![opt_text(p1), opt_text(p2), opt_text(p3), opt_text(p4)];
    let mut lines: Vec<String> = Vec::new();
    assert(views(lines@) =~= present(parts.take(0)));
    push_present(&mut lines, p1);
    assert(parts.take(1).drop_last() =~= parts.take(0));
    assert(views(lines@) =~= present(parts.take(1)));
    push_present(&mut lines, p2);
    assert(parts.take(2).drop_last() =~= parts.take(1));
    assert(views(lines@) =~= present(parts.take(2)));
    push_present(&mut lines, p3);
    assert(parts.take(3).drop_last() =~= parts.take(2));
    assert(views(lines@) =~= present(parts.take(3)));
    push_present(&mut lines, p4);
    assert(parts.take(4).drop_last() =~= parts.take(3));
    assert(views(lines@) =~= present(parts.take(4)));
    assert(parts.take(4) =~= parts);
    if lines.len() == 0 {
        lines.push(String::from_str("No window details reported."));
        assert(views(lines@) =~= seq!["No window details reported."@]);
    }
    lines
}

} // verus!

verus! {

/// What became of the commit an agent run was to make.
#[derive(Clone, Copy, Debug, PartialEq, Eq, Structural)]
pub enum AgentCommitOutcome {
    NotEvaluated,
    NotRequired,
    Committed,
    SkippedNoChanges,
    SkippedNoGitRepo,
    MissingRequired,
    Unknown,
}

/// The short form of commit hashes: their first twelve characters.
pub open spec fn short_shas(shas: Seq<Seq<char>>) -> Seq<Seq<char>> {
    shas.map_values(|s: Seq<char>| if s.len() <= 12 { s } else { s.take(12) })
}

/// The words for a commit outcome, with the short hashes of what was committed.
pub open spec fn commit_outcome_text(outcome: AgentCommitOutcome, shas: Seq<Seq<char>>) -> Seq<char> {
    match outcome {
        AgentCommitOutcome::NotEvaluated => "not evaluated"@,
        AgentCommitOutcome::NotRequired => "not required by policy"@,
        AgentCommitOutcome::Committed => if shas.len() == 0 {
            "committed"@
        } else {
            "committed "@ + join(short_shas(shas), ", "@)
        },
        AgentCommitOutcome::SkippedNoChanges => "skipped: no changes"@,
        AgentCommitOutcome::SkippedNoGitRepo => "skipped: no git repository"@,
        AgentCommitOutcome::MissingRequired => "missing required commit"@,
        AgentCommitOutcome::Unknown => "unknown"@,
    }
}

/// The commit line of a run: the outcome, then whether a commit was required.
pub open spec fn commit_label_text(commit_required: bool, outcome: AgentCommitOutcome, shas: Seq<Seq<char>>) -> Seq<char> {
    commit_outcome_text(outcome, shas) + " ("@ + (if commit_required { "required"@ } else { "not required"@ }) + ")"@
}

/// The commit line shown for a run.
pub fn run_commit_outcome_label(commit_required: bool, commit_outcome: AgentCommitOutcome, commit_shas: &Vec<String>) -> (r: String)
    ensures
        r@ == commit_label_text(commit_required, commit_outcome, views(commit_shas@)),
{
    let mut base = match commit_outcome {
        AgentCommitOutcome::NotEvaluated => String::from_str("not evaluated"),
        AgentCommitOutcome::NotRequired => String::from_str("not required by policy"),
        AgentCommitOutcome::Committed => {
            if commit_shas.len() == 0 {
                String::from_str("committed")
            } else {
                let mut short: Vec<String> = Vec::new();
                let mut i: usize = 0;
                while i < commit_shas.len()
                    invariant
                        i <= commit_shas.len(),
                        views(short@) == short_shas(views(commit_shas@)).take(i as int),
                    decreases commit_shas.len() - i,
                {
                    let (s, _) = abbreviate_plain(commit_shas[i].as_str(), 12);
                    let ghost sv = views(commit_shas@);
                    assert(sv[i as int] == commit_shas@[i as int]@);
                    assert(short_shas(sv)[i as int] == s@);
                    let ghost before = views(short@);
                    short.push(s);
                    assert(views(short@) =~= before.push(s@));
                    assert(views(short@) =~= short_shas(views(commit_shas@)).take(i + 1));
                    i = i + 1;
                }
                assert(short_shas(views(commit_shas@)).take(commit_shas.len() as int) =~= short_shas(views(commit_shas@)));
                let mut out = String::from_str("committed ");
                let joined = crate::text::join_strings(&short, ", ");
                out.append(joined.as_str());
                out
            }
        },
        AgentCommitOutcome::SkippedNoChanges => String::from_str("skipped: no changes"),
        AgentCommitOutcome::SkippedNoGitRepo => String::from_str("skipped: no git repository"),
        AgentCommitOutcome::MissingRequired => String::from_str("missing required commit"),
        AgentCommitOutcome::Unknown => String::from_str("unknown"),
    };
    base.append(" (");
    if commit_required {
        base.append("required");
    } else {
        base.append("not required");
    }
    base.append(")");
    base
}

/// The first `max` characters of `s`, and whether anything was left out.
fn abbreviate_plain(value: &str, max_chars: usize) -> (r: (String, bool))
    ensures
        r.0@ == (if value@.len() <= max_chars { value@ } else { value@.take(max_chars as int) }),
{
    let cs = chars_of(value);
    let truncated = cs.len() > max_chars;
    let end = if truncated { max_chars } else { cs.len() };
    let out = string_of_range(&cs, 0, end);
    assert(cs@.subrange(0, end as int) =~= (if value@.len() <= max_chars { value@ } else { value@.take(max_chars as int) }));
    (out, truncated)
}

/// The origin line of a run started by a trigger: its id, and its name where
/// the trimmed name is not empty.
pub open spec fn origin_text(trigger_id: Option<i64>, trigger_name: Option<Seq<char>>) -> Option<Seq<char>> {
    match trigger_id {
        None => None,
        Some(id) => Some(
            "trigger #"@ + int_text(id as int) + match trigger_name {
                Some(n) => if trim(n).len() > 0 { seq![' '] + trim(n) } else { Seq::empty() },
                None => Seq::empty(),
            },
        ),
    }
}

/// The origin line of a run, for runs that a trigger started.
pub fn run_origin_label(trigger_id: Option<i64>, trigger_name: Option<&str>) -> (r: Option<String>)
    ensures
        opt_text(r) == origin_text(
            trigger_id,
            match trigger_name {
                Some(n) => Some(n@),
                None => None,
            },
        ),
{
    let id = match trigger_id {
        Some(id) => id,
        None => return None,
    };
    let mut out = String::from_str("trigger #");
    push_int(&mut out, id);
    let ghost base = out@;
    match trigger_name {
        Some(n) => {
            let t = trim_str(n);
            if !is_blank(t.as_str()) {
                push_char(&mut out, ' ');
                out.append(t.as_str());
                proof {
                    crate::text::lemma_trim_empty_iff_all_ws(n@);
                    crate::text::lemma_trim_empty_iff_all_ws(trim(n@));
                    lemma_trim_idempotent(n@);
                    assert(out@ =~= base + (seq![' '] + trim(n@)));
                }
            } else {
                proof {
                    lemma_trim_idempotent(n@);
                }
            }
        },
        None => {},
    }
    proof {
        assert(base =~= "trigger #"@ + int_text(id as int));
    }
    Some(out)
}

/// Trimming a trimmed text changes nothing.
pub proof fn lemma_trim_idempotent(s: Seq<char>)
    ensures
        trim(trim(s)) == trim(s),
{
    crate::text::lemma_trim_start_shape(s);
    let t0 = crate::text::trim_start(s);
    crate::text::lemma_trim_end_shape(t0);
    let t = trim(s);
    crate::text::lemma_trim_start_shape(t);
    crate::text::lemma_trim_end_shape(crate::text::trim_start(t));
    if t.len() > 0 {
        assert(!crate::text::is_ws(t[0]));
        assert(!crate::text::is_ws(t.last()));
    }
    assert(crate::text::trim_start(t) == t);
    assert(crate::text::trim_end(t) == t);
}

} // verus!

verus! {

/// The automation source of a claim on a work item: the run that holds it,
/// and the trigger that started that run, where one did.
#[derive(Clone, Debug)]
pub struct ClaimSource {
    pub run_id: i64,
    pub trigger_name: Option<String>,
}

/// The source line of a claim: `via <trigger>` where the trimmed trigger name
/// is not empty, `via direct run` otherwise.
pub open spec fn claim_source_text(trigger_name: Option<Seq<char>>) -> Seq<char> {
    match trigger_name {
        Some(n) => if trim(n).len() > 0 { "via "@ + trim(n) } else { "via direct run"@ },
        None => "via direct run"@,
    }
}

/// The source line shown on a claim badge, for claims that automation holds.
pub fn claim_source_label(source: Option<&ClaimSource>) -> (r: Option<String>)
    ensures
        opt_text(r) == match source {
            Some(s) => Some(claim_source_text(opt_text(s.trigger_name))),
            None => None,
        },
{
    let s = match source {
        Some(s) => s,
        None => return None,
    };
    match &s.trigger_name {
        Some(n) => {
            let t = trim_str(n.as_str());
            if !is_blank(t.as_str()) {
                let mut out = String::from_str("via ");
                out.append(t.as_str());
                proof {
                    lemma_trim_idempotent(n@);
                    crate::text::lemma_trim_empty_iff_all_ws(trim(n@));
                }
                Some(out)
            } else {
                proof {
                    lemma_trim_idempotent(n@);
                    crate::text::lemma_trim_empty_iff_all_ws(trim(n@));
                }
                Some(String::from_str("via direct run"))
            }
        },
        None => Some(String::from_str("via direct run")),
    }
}

/// The run a claim badge links to: the claim's automation run, or else the
/// run that the claiming agent's name stands for.
pub open spec fn claim_run(source_run: Option<i64>, agent: Seq<char>) -> Option<i64> {
    match source_run {
        Some(id) => Some(id),
        None => crate::display::claims::run_id_of_agent(agent),
    }
}

/// The run a claim badge links to, if any.
pub fn claim_run_id(source: Option<&ClaimSource>, agent: &str) -> (r: Option<i64>)
    ensures
        r == claim_run(
            match source {
                Some(s) => Some(s.run_id),
                None => None,
            },
            agent@,
        ),
{
    match source {
        Some(s) => Some(s.run_id),
        None => crate::display::claims::infer_patchbay_run_id(agent),
    }
}

/// The style class of an output piece's body, by its kind; a blank body is not shown.
pub open spec fn output_body_class(kind: crate::sessions::AgentRunOutputKind, body: Seq<char>) -> Option<Seq<char>> {
    if trim(body).len() == 0 {
        None
    } else {
        Some(
            match kind {
                crate::sessions::AgentRunOutputKind::ModelMessage => "output-piece-body model-output"@,
                crate::sessions::AgentRunOutputKind::Reasoning => "output-piece-body reasoning-output"@,
                crate::sessions::AgentRunOutputKind::ToolCall => "output-piece-body tool-call-body"@,
                crate::sessions::AgentRunOutputKind::FileChange => "output-piece-body tool-call-body"@,
                crate::sessions::AgentRunOutputKind::Error => "output-piece-body error-output"@,
                crate::sessions::AgentRunOutputKind::System => "output-piece-body system-output"@,
                crate::sessions::AgentRunOutputKind::Legacy => "output-piece-body system-output"@,
            },
        )
    }
}

/// The style class of an output piece's body, or `None` where the body is blank.
pub fn output_piece_body_class(kind: crate::sessions::AgentRunOutputKind, body: &str) -> (r: Option<String>)
    ensures
        opt_text(r) == output_body_class(kind, body@),
{
    if is_blank(body) {
        return None;
    }
    let class = match kind {
        crate::sessions::AgentRunOutputKind::ModelMessage => "output-piece-body model-output",
        crate::sessions::AgentRunOutputKind::Reasoning => "output-piece-body reasoning-output",
        crate::sessions::AgentRunOutputKind::ToolCall => "output-piece-body tool-call-body",
        crate::sessions::AgentRunOutputKind::FileChange => "output-piece-body tool-call-body",
        crate::sessions::AgentRunOutputKind::Error => "output-piece-body error-output",
        crate::sessions::AgentRunOutputKind::System => "output-piece-body system-output",
        crate::sessions::AgentRunOutputKind::Legacy => "output-piece-body system-output",
    };
    Some(class.to_string())
}

} // verus!

verus! {

/// Whether `model` is among the available models.
fn model_available(model: &str, available_models: &Vec<String>) -> (b: bool)
    ensures
        b == views(available_models@).contains(model@),
{
    let ghost vs = views(available_models@);
    let mut i: usize = 0;
    while i < available_models.len()
        invariant
            i <= available_models.len(),
            vs == views(available_models@),
            forall|j: int| 0 <= j < i ==> vs[j] != model@,
        decreases available_models.len() - i,
    {
        if str_eq(available_models[i].as_str(), model) {
            assert(vs[i as int] == model@);
            return true;
        }
        i = i + 1;
    }
    false
}

/// How a stored agent model is shown: the placeholder for none, the name of
/// an available model, or the name marked as unavailable.
pub open spec fn agent_model_text(value: Seq<char>, empty_label: Seq<char>, available: Seq<Seq<char>>) -> Seq<char> {
    if value.len() == 0 {
        empty_label
    } else if available.contains(value) {
        value
    } else {
        value + " (unavailable)"@
    }
}

/// The text shown for a stored agent model.
pub fn agent_model_label(value: &str, empty_label: &str, available_models: &Vec<String>) -> (r: String)
    ensures
        r@ == agent_model_text(value@, empty_label@, views(available_models@)),
{
    if value.unicode_len() == 0 {
        empty_label.to_string()
    } else if model_available(value, available_models) {
        value.to_string()
    } else {
        let mut s = value.to_string();
        s.append(" (unavailable)");
        s
    }
}

/// The style class of a stored agent model.
pub open spec fn agent_model_class_text(value: Seq<char>, available: Seq<Seq<char>>) -> Seq<char> {
    if value.len() == 0 {
        "agent-model-value agent-model-default"@
    } else if available.contains(value) {
        "agent-model-value"@
    } else {
        "agent-model-value agent-model-stale"@
    }
}

/// The style class of a stored agent model.
pub fn agent_model_class(value: &str, available_models: &Vec<String>) -> (r: String)
    ensures
        r@ == agent_model_class_text(value@, views(available_models@)),
{
    if value.unicode_len() == 0 {
        String::from_str("agent-model-value agent-model-default")
    } else if model_available(value, available_models) {
        String::from_str("agent-model-value")
    } else {
        String::from_str("agent-model-value agent-model-stale")
    }
}

/// The token usage that Codex reports for the signed-in account.
#[derive(Clone, Copy, Debug)]
pub struct CodexUsageSummary {
    pub lifetime_tokens: Option<i64>,
    pub peak_daily_tokens: Option<i64>,
    pub current_streak_days: Option<i64>,
    pub longest_streak_days: Option<i64>,
    pub longest_running_turn_seconds: Option<i64>,
}

/// A known figure as a row, with its label.
pub open spec fn usage_row(label: Seq<char>, value: Option<i64>, text: spec_fn(int) -> Seq<char>) -> Option<(Seq<char>, Seq<char>)> {
    match value {
        Some(v) => Some((label, text(v as int))),
        None => None,
    }
}

/// The rows that describe a usage summary: lifetime and peak daily tokens
/// (with thousands separators), streaks in days, the longest turn in seconds,
/// each where known.
pub open spec fn usage_rows_text(s: CodexUsageSummary) -> Seq<(Seq<char>, Seq<char>)> {
    let days = |v: int| int_text(v) + " days"@;
    let parts = seq![
        usage_row("Lifetime tokens"@, s.lifetime_tokens, |v: int| number_text(v)),
        usage_row("Peak daily tokens"@, s.peak_daily_tokens, |v: int| number_text(v)),
        usage_row("Current streak"@, s.current_streak_days, days),
        usage_row("Longest streak"@, s.longest_streak_days, days),
        usage_row("Longest turn"@, s.longest_running_turn_seconds, |v: int| int_text(v) + " sec"@),
    ];
    present_rows(parts)
}

/// The present rows among `parts`, in order.
pub open spec fn present_rows(parts: Seq<Option<(Seq<char>, Seq<char>)>>) -> Seq<(Seq<char>, Seq<char>)>
    decreases parts.len(),
{
    if parts.len() == 0 {
        Seq::empty()
    } else {
        let rest = present_rows(parts.drop_last());
        match parts.last() {
            Some(p) => rest.push(p),
            None => rest,
        }
    }
}

/// The mathematical value of rows of labels and values.
pub open spec fn rows_view(rows: Seq<(String, String)>) -> Seq<(Seq<char>, Seq<char>)> {
    rows.map_values(|r: (String, String)| (r.0@, r.1@))
}

fn with_suffix(v: i64, suffix: &str) -> (r: String)
    ensures
        r@ == int_text(v as int) + suffix@,
{
    let mut s = String::new();
    push_int(&mut s, v);
    s.append(suffix);
    s
}

fn push_row(rows: &mut Vec<(String, String)>, label: &str, value: Option<String>)
    ensures
        rows_view(final(rows)@) == match value {
            Some(v) => rows_view(old(rows)@).push((label@, v@)),
            None => rows_view(old(rows)@),
        },
{
    match value {
        Some(v) => {
            let ghost vv = v@;
            rows.push((label.to_string(), v));
            assert(rows_view(rows@) =~= rows_view(old(rows)@).push((label@, vv)));
        },
        None => {},
    }
}

/// The rows that describe a Codex usage summary; none where nothing is known.
pub fn usage_summary_rows(summary: &CodexUsageSummary) -> (r: Vec<(String, String)>)
    ensures
        rows_view(r@) == usage_rows_text(*summary),
{
    let v1 = match summary.lifetime_tokens { Some(v) => Some(format_number(v)), None => None };
    let v2 = match summary.peak_daily_tokens { Some(v) => Some(format_number(v)), None => None };
    let v3 = match summary.current_streak_days { Some(v) => Some(with_suffix(v, " days")), None => None };
    let v4 = match summary.longest_streak_days { Some(v) => Some(with_suffix(v, " days")), None => None };
    let v5 = match summary.longest_running_turn_seconds { Some(v) => Some(with_suffix(v, " sec")), None => None };
    let ghost parts = seq![
        usage_row("Lifetime tokens"@, summary.lifetime_tokens, |v: int| number_text(v)),
        usage_row("Peak daily tokens"@, summary.peak_daily_tokens, |v: int| number_text(v)),
        usage_row("Current streak"@, summary.current_streak_days, |v: int| int_text(v) + " days"@),
        usage_row("Longest streak"@, summary.longest_streak_days, |v: int| int_text(v) + " days"@),
        usage_row("Longest turn"@, summary.longest_running_turn_seconds, |v: int| int_text(v) + " sec"@),
    ];
    let mut rows: Vec<(String, String)> = Vec::new();
    assert(rows_view(rows@) =~= present_rows(parts.take(0)));
    push_row(&mut rows, "Lifetime tokens", v1);
    assert(parts.take(1).drop_last() =~= parts.take(0));
    assert(rows_view(rows@) =~= present_rows(parts.take(1)));
    push_row(&mut rows, "Peak daily tokens", v2);
    assert(parts.take(2).drop_last() =~= parts.take(1));
    assert(rows_view(rows@) =~= present_rows(parts.take(2)));
    push_row(&mut rows, "Current streak", v3);
    assert(parts.take(3).drop_last() =~= parts.take(2));
    assert(rows_view(rows@) =~= present_rows(parts.take(3)));
    push_row(&mut rows, "Longest streak", v4);
    assert(parts.take(4).drop_last() =~= parts.take(3));
    assert(rows_view(rows@) =~= present_rows(parts.take(4)));
    push_row(&mut rows, "Longest turn", v5);
    assert(parts.take(5).drop_last() =~= parts.take(4));
    assert(rows_view(rows@) =~= present_rows(parts.take(5)));
    assert(parts.take(5) =~= parts);
    rows
}

/// Which automation table a trigger list shows: triggers that consume work
/// items or triggers that produce them.
#[derive(Clone, Copy, Debug, PartialEq, Eq, Structural)]
pub enum AutomationTableKind {
    Consuming,
    Producing,
}

/// The stored selector of open work items that need neither refinement nor
/// verification.
pub open spec fn default_consuming_selector() -> Seq<char> {
    "{\"All\":[{\"column_name\":\"state\",\"operator\":\"=\",\"value\":{\"String\":\"open\"}},{\"column_name\":\"needs-refinement\",\"operator\":\"=\",\"value\":{\"Bool\":false}},{\"column_name\":\"needs-verification\",\"operator\":\"=\",\"value\":{\"Bool\":false}}]}"@
}

impl AutomationTableKind {
    /// The name of the table's editor instance.
    pub fn instance_name(self) -> (r: &'static str)
        ensures
            r@ == (if self == AutomationTableKind::Consuming { "work-consuming-automations"@ } else { "work-producing-automations"@ }),
    {
        match self {
            AutomationTableKind::Consuming => "work-consuming-automations",
            AutomationTableKind::Producing => "work-producing-automations",
        }
    }

    /// The stored effect of the table's triggers.
    pub fn effect(self) -> (r: &'static str)
        ensures
            r@ == (if self == AutomationTableKind::Consuming { "consume_work"@ } else { "produce_work"@ }),
    {
        match self {
            AutomationTableKind::Consuming => "consume_work",
            AutomationTableKind::Producing => "produce_work",
        }
    }

    /// The activation a new trigger of the table starts with.
    pub fn default_activation(self) -> (r: &'static str)
        ensures
            r@ == (if self == AutomationTableKind::Consuming { "work_item"@ } else { "manual"@ }),
    {
        match self {
            AutomationTableKind::Consuming => "work_item",
            AutomationTableKind::Producing => "manual",
        }
    }

    /// The work item selector a new trigger of the table starts with: for
    /// consuming triggers, open items that need neither refinement nor
    /// verification; producing triggers have none.
    pub fn default_selector(self) -> (r: Option<String>)
        ensures
            self == AutomationTableKind::Consuming ==> (r matches Some(t) && t@ == default_consuming_selector()),
            self == AutomationTableKind::Producing ==> r is None,
    {
        match self {
            AutomationTableKind::Consuming => Some(String::from_str("{\"All\":[{\"column_name\":\"state\",\"operator\":\"=\",\"value\":{\"String\":\"open\"}},{\"column_name\":\"needs-refinement\",\"operator\":\"=\",\"value\":{\"Bool\":false}},{\"column_name\":\"needs-verification\",\"operator\":\"=\",\"value\":{\"Bool\":false}}]}")),
            AutomationTableKind::Producing => None,
        }
    }

    /// The activations a trigger of the table may have: consuming triggers
    /// run manually, on any work item, on new work items or on a schedule;
    /// producing triggers manually or on a schedule.
    pub fn activation_choices(self) -> (r: Vec<&'static str>)
        ensures
            self == AutomationTableKind::Consuming ==> r@.len() == 4 && r@[0]@ == "manual"@ && r@[1]@ == "work_item"@
                && r@[2]@ == "work_item_created"@ && r@[3]@ == "cron"@,
            self == AutomationTableKind::Producing ==> r@.len() == 2 && r@[0]@ == "manual"@ && r@[1]@ == "cron"@,
    {
        match self {
            AutomationTableKind::Consuming => vec!["manual", "work_item", "work_item_created", "cron"],
            AutomationTableKind::Producing => vec!["manual", "cron"],
        }
    }
}

/// The page of the web interface that is shown.
#[derive(Clone, Copy, Debug, PartialEq, Eq, Structural)]
pub enum ActivePage {
    Board,
    Triggers,
    Runs,
    Codex,
    Projects,
    Api,
}

/// The class of a navigation link: `active` for the link to the page shown.
pub fn active_class(active: ActivePage, page: ActivePage) -> (r: &'static str)
    ensures
        active == page ==> r@ == "active"@,
        active != page ==> r@ == ""@,
{
    if active == page {
        "active"
    } else {
        ""
    }
}

/// The state an item is shown with: its state, or `(no state)`.
pub fn state_label(state: Option<&str>) -> (r: &str)
    ensures
        match state {
            Some(s) => r@ == s@,
            None => r@ == "(no state)"@,
        },
{
    match state {
        Some(s) => s,
        None => "(no state)",
    }
}

/// How the Codex status panel presents the app-server: ready where it is
/// usable, blocked where it is available but not usable, else unavailable.
#[derive(Clone, Copy, Debug, PartialEq, Eq, Structural)]
pub enum CodexReadiness {
    Ready,
    Blocked,
    Unavailable,
}

/// The readiness the Codex status panel shows.
pub fn codex_readiness(usable: bool, available: bool) -> (r: CodexReadiness)
    ensures
        r == (if usable {
            CodexReadiness::Ready
        } else if available {
            CodexReadiness::Blocked
        } else {
            CodexReadiness::Unavailable
        }),
{
    if usable {
        CodexReadiness::Ready
    } else if available {
        CodexReadiness::Blocked
    } else {
        CodexReadiness::Unavailable
    }
}

impl CodexReadiness {
    /// The class, heading and badge of the status panel.
    pub fn texts(self) -> (r: (&'static str, &'static str, &'static str))
        ensures
            self == CodexReadiness::Ready ==> r.0@ == "codex-status-ready"@ && r.1@
                == "Codex automation ready"@ && r.2@ == "Ready"@,
            self == CodexReadiness::Blocked ==> r.0@ == "codex-status-blocked"@ && r.1@
                == "Codex automation blocked"@ && r.2@ == "Blocked"@,
            self == CodexReadiness::Unavailable ==> r.0@ == "codex-status-unavailable"@ && r.1@
                == "Codex app-server unavailable"@ && r.2@ == "Unavailable"@,
    {
        match self {
            CodexReadiness::Ready => ("codex-status-ready", "Codex automation ready", "Ready"),
            CodexReadiness::Blocked => ("codex-status-blocked", "Codex automation blocked", "Blocked"),
            CodexReadiness::Unavailable => ("codex-status-unavailable", "Codex app-server unavailable", "Unavailable"),
        }
    }
}

/// Whether the Codex status panel offers to log out: the app-server is
/// available, the sign-in is not by API key, and someone is signed in or a
/// sign-in is under way.
pub fn codex_can_logout(available: bool, auth_method: Option<&str>, signed_in: bool, auth_setup_pending: bool) -> (r: bool)
    ensures
        r == (available && !(auth_method matches Some(m) && m@ == "apiKey"@) && (signed_in || auth_setup_pending)),
{
    let api_key = match auth_method {
        Some(m) => str_eq(m, "apiKey"),
        None => false,
    };
    available && !api_key && (signed_in || auth_setup_pending)
}

} // verus!
