use vstd::prelude::*;

use crate::text::{copy_string, int_text, push_int, str_eq};

verus! {

/// A recorded version of a project's system prompt or memory.
pub struct TextVersion {
    pub event_id: i64,
    pub text: String,
}

/// The text of the first version with the event id `id`.
pub open spec fn version_text(history: Seq<TextVersion>, id: i64) -> Option<Seq<char>>
    decreases history.len(),
{
    if history.len() == 0 {
        None
    } else if history[0].event_id == id {
        Some(history[0].text@)
    } else {
        version_text(history.drop_first(), id)
    }
}

/// The text a project's prompt or memory editor shows: the draft where no
/// version is selected, else the selected version's text, or a note (naming
/// the text by `kind`) that the version is gone.
pub open spec fn shown_text_of(
    selected: Option<i64>,
    history: Seq<TextVersion>,
    draft: Seq<char>,
    kind: Seq<char>,
) -> Seq<char> {
    match selected {
        None => draft,
        Some(id) => match version_text(history, id) {
            Some(t) => t,
            None => kind + " event #"@ + int_text(id as int) + " is no longer available."@,
        },
    }
}

/// The text a project's prompt or memory editor shows; `kind` is
/// `System prompt` or `Memory`.
pub fn shown_history_text(selected: Option<i64>, history: &Vec<TextVersion>, draft: &str, kind: &str) -> (r: String)
    ensures
        r@ == shown_text_of(selected, history@, draft@, kind@),
{
    match selected {
        None => draft.to_string(),
        Some(id) => {
            let mut i: usize = 0;
            assert(history@.skip(0) =~= history@);
            while i < history.len()
                invariant
                    i <= history.len(),
                    selected == Some(id),
                    version_text(history@, id) == version_text(history@.skip(i as int), id),
                decreases history.len() - i,
            {
                assert(history@.skip(i as int)[0] == history@[i as int]);
                if history[i].event_id == id {
                    return copy_string(&history[i].text);
                }
                assert(history@.skip(i as int).drop_first() =~= history@.skip(i + 1));
                i = i + 1;
            }
            assert(history@.skip(i as int).len() == 0);
            let mut s = kind.to_string();
            s.append(" event #");
            push_int(&mut s, id);
            s.append(" is no longer available.");
            s
        },
    }
}

/// Whether an editor's text is marked as changed: no version is selected and
/// the draft differs from the text the page was loaded with.
pub fn text_is_dirty(selected: Option<i64>, draft: &str, baseline: &str) -> (r: bool)
    ensures
        r == (selected is None && draft@ != baseline@),
{
    selected.is_none() && !str_eq(draft, baseline)
}

} // verus!
