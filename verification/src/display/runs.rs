use vstd::prelude::*;

use crate::projects::changes::{parse_i64, parse_i64_text};
use crate::text::chars_of;

verus! {

/// The run a runs page starts on: the `run` query value, where it reads as
/// an integer.
pub fn selected_run_from_query(raw: Option<&str>) -> (r: Option<i64>)
    ensures
        r == match raw {
            Some(v) => parse_i64(v@),
            None => None,
        },
{
    match raw {
        Some(v) => {
            let cs = chars_of(v);
            assert(cs@.skip(0) =~= v@);
            parse_i64_text(&cs, 0)
        },
        None => None,
    }
}

/// The run a sessions panel shows: none where there are no sessions, the
/// selected run where it is still among them, else the first.
pub open spec fn next_selected_run_of(ids: Seq<i64>, selected: Option<i64>) -> Option<i64> {
    if ids.len() == 0 {
        None
    } else if selected is Some && ids.contains(selected->Some_0) {
        selected
    } else {
        Some(ids[0])
    }
}

/// The run a sessions panel shows once its sessions (by run id) change.
pub fn next_selected_run(session_run_ids: &Vec<i64>, selected: Option<i64>) -> (r: Option<i64>)
    ensures
        r == next_selected_run_of(session_run_ids@, selected),
{
    if session_run_ids.len() == 0 {
        return None;
    }
    match selected {
        Some(id) => {
            let mut i: usize = 0;
            while i < session_run_ids.len()
                invariant
                    i <= session_run_ids.len(),
                    session_run_ids.len() > 0,
                    selected == Some(id),
                    forall|j: int| 0 <= j < i ==> session_run_ids@[j] != id,
                decreases session_run_ids.len() - i,
            {
                if session_run_ids[i] == id {
                    assert(session_run_ids@[i as int] == id);
                    assert(session_run_ids@.contains(id));
                    return Some(id);
                }
                i = i + 1;
            }
            assert(!session_run_ids@.contains(id));
            Some(session_run_ids[0])
        },
        None => Some(session_run_ids[0]),
    }
}

} // verus!
