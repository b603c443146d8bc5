use vstd::prelude::*;

use crate::filter::convert::{condition_to_draft, draft_result_view, draft_to_condition, FilterGroupDraft};
use crate::filter::draft::{condition_of_draft, draft_of_condition, DraftGroup};
use crate::filter::editor::{edit_at, edit_filter_draft, match_all_group, FilterEdit};
use crate::filter::model::{Condition, SpecCondition};
use crate::filter::summary::{group_summary, group_summary_text};
use crate::text::{is_blank, trim};

verus! {

/// The editor group for a stored filter text: a blank text matches every
/// item; otherwise the text's JSON reading (`parsed`: the condition, or the
/// JSON reader's message) gives the group, or the message of the first
/// clause the editor cannot show.
pub open spec fn parse_filter(raw: Seq<char>, parsed: Result<SpecCondition, Seq<char>>) -> Result<DraftGroup, Seq<char>> {
    if trim(raw).len() == 0 {
        Ok(match_all_group())
    } else {
        match parsed {
            Err(m) => Err("expected CrudKit Condition JSON ("@ + m + ")"@),
            Ok(c) => draft_of_condition(c),
        }
    }
}

/// The mathematical value of a JSON reading of a condition.
pub open spec fn parsed_view(p: Result<Condition, String>) -> Result<SpecCondition, Seq<char>> {
    match p {
        Ok(c) => Ok(c@),
        Err(m) => Err(m@),
    }
}

/// The editor group for a stored filter text, given the JSON reading of the
/// trimmed text (which is not looked at where the text is blank).
pub fn parse_filter_draft(raw: &str, parsed: Result<Condition, String>) -> (r: Result<FilterGroupDraft, String>)
    ensures
        draft_result_view(r) == parse_filter(raw@, parsed_view(parsed)),
{
    if is_blank(raw) {
        return Ok(FilterGroupDraft::match_all());
    }
    match parsed {
        Err(m) => {
            let mut s = String::from_str("expected CrudKit Condition JSON (");
            s.append(m.as_str());
            s.append(")");
            Err(s)
        },
        Ok(c) => condition_to_draft(&c),
    }
}

/// The line shown for a stored filter: the summary of its editor group, or
/// the text itself where the editor cannot read it.
pub open spec fn filter_summary(raw: Seq<char>, parsed: Result<SpecCondition, Seq<char>>) -> Seq<char> {
    match parse_filter(raw, parsed) {
        Ok(g) => group_summary_text(g),
        Err(_) => raw,
    }
}

/// The line shown for a stored filter.
pub fn filter_display_summary(raw: &str, parsed: Result<Condition, String>) -> (r: String)
    ensures
        r@ == filter_summary(raw@, parsed_view(parsed)),
{
    match parse_filter_draft(raw, parsed) {
        Ok(d) => group_summary(&d),
        Err(_) => raw.to_string(),
    }
}

/// The group an edit applies to: that of the stored filter where it reads,
/// else the group that matches every item.
pub open spec fn group_to_edit(raw: Seq<char>, parsed: Result<SpecCondition, Seq<char>>) -> DraftGroup {
    match parse_filter(raw, parsed) {
        Ok(g) => g,
        Err(_) => match_all_group(),
    }
}

/// The condition to store after one editor change of the filter stored as
/// `raw` (`parsed` is the JSON reading of the text): the change is applied to
/// the stored filter, or to a filter matching every item where the stored one
/// does not read.
pub fn update_filter_draft(raw: &str, parsed: Result<Condition, String>, path: &Vec<usize>, edit: &FilterEdit) -> (r: Condition)
    ensures
        r@ == condition_of_draft(edit_at(group_to_edit(raw@, parsed_view(parsed)), path@, edit@)),
{
    let mut draft = match parse_filter_draft(raw, parsed) {
        Ok(d) => d,
        Err(_) => FilterGroupDraft::match_all(),
    };
    edit_filter_draft(&mut draft, path, edit);
    draft_to_condition(&draft)
}

} // verus!
