use vstd::prelude::*;

use crate::text::{is_blank, trim, trim_str};

verus! {

/// The optional text after normalisation: trimmed, and absent where blank.
pub open spec fn normalized_optional(value: Option<Seq<char>>) -> Option<Seq<char>> {
    match value {
        Some(v) => if trim(v).len() == 0 { None } else { Some(trim(v)) },
        None => None,
    }
}

/// The mathematical value of an optional string.
pub open spec fn opt_seq(o: Option<String>) -> Option<Seq<char>> {
    match o {
        Some(s) => Some(s@),
        None => None,
    }
}

/// An optional text, trimmed, with a blank one dropped.
pub fn normalize_optional(value: Option<String>) -> (r: Option<String>)
    ensures
        opt_seq(r) == normalized_optional(opt_seq(value)),
{
    match value {
        Some(v) => {
            let t = trim_str(v.as_str());
            if is_blank(t.as_str()) {
                proof {
                    crate::display::labels::lemma_trim_idempotent(v@);
                }
                None
            } else {
                proof {
                    crate::display::labels::lemma_trim_idempotent(v@);
                }
                Some(t)
            }
        },
        None => None,
    }
}

/// Why a work item update was refused.
#[derive(Clone, Copy, Debug, PartialEq, Eq, Structural)]
pub enum ItemUpdateError {
    /// The requested state is blank.
    InvalidState,
    /// The update changes nothing.
    EmptyUpdate,
    /// The resulting title is blank.
    EmptyTitle,
    /// The resulting description is blank.
    EmptyDescription,
}

/// The message of an update error.
pub open spec fn item_update_error_text(e: ItemUpdateError) -> Seq<char> {
    match e {
        ItemUpdateError::InvalidState => "invalid item state"@,
        ItemUpdateError::EmptyUpdate => "item update requires at least one field"@,
        ItemUpdateError::EmptyTitle => "item title cannot be empty"@,
        ItemUpdateError::EmptyDescription => "item description cannot be empty"@,
    }
}

impl ItemUpdateError {
    /// The message shown for this error.
    pub fn message(&self) -> (r: String)
        ensures
            r@ == item_update_error_text(*self),
    {
        match self {
            ItemUpdateError::InvalidState => String::from_str("invalid item state"),
            ItemUpdateError::EmptyUpdate => String::from_str("item update requires at least one field"),
            ItemUpdateError::EmptyTitle => String::from_str("item title cannot be empty"),
            ItemUpdateError::EmptyDescription => String::from_str("item description cannot be empty"),
        }
    }
}

/// The state label value of a work item: trimmed, not blank.
pub fn normalize_state_value(value: String) -> (r: Result<String, ItemUpdateError>)
    ensures
        match r {
            Ok(s) => trim(value@).len() > 0 && s@ == trim(value@),
            Err(e) => trim(value@).len() == 0 && e == ItemUpdateError::InvalidState,
        },
{
    let t = trim_str(value.as_str());
    if is_blank(t.as_str()) {
        proof {
            crate::display::labels::lemma_trim_idempotent(value@);
        }
        Err(ItemUpdateError::InvalidState)
    } else {
        proof {
            crate::display::labels::lemma_trim_idempotent(value@);
        }
        Ok(t)
    }
}

/// Checks that a work item's title and description are not blank.
pub fn validate_item_text(title: &str, description: &str) -> (r: Result<(), ItemUpdateError>)
    ensures
        r == (if trim(title@).len() == 0 {
            Err(ItemUpdateError::EmptyTitle)
        } else if trim(description@).len() == 0 {
            Err(ItemUpdateError::EmptyDescription)
        } else {
            Ok::<(), ItemUpdateError>(())
        }),
{
    if is_blank(title) {
        return Err(ItemUpdateError::EmptyTitle);
    }
    if is_blank(description) {
        return Err(ItemUpdateError::EmptyDescription);
    }
    Ok(())
}

/// A stored work item.
#[derive(Clone, Debug)]
pub struct WorkItemRecord {
    pub id: i64,
    pub project_id: i64,
    pub title: String,
    pub description: String,
    pub claimed_by: Option<String>,
    pub claimed_at: Option<String>,
    pub claim_expires_at: Option<String>,
    pub finished_at: Option<String>,
    pub agent_model_override: Option<String>,
    /// The stored form of the reasoning effort that overrides the project's.
    pub agent_reasoning_effort_override: Option<String>,
    pub version: i64,
    pub created_at: String,
    pub updated_at: String,
}

/// A requested change to a work item; `None` leaves a field as it is.
#[derive(Clone, Debug)]
pub struct UpdateWorkItem {
    pub title: Option<String>,
    pub description: Option<String>,
    pub state: Option<String>,
    pub agent_model_override: Option<Option<String>>,
    /// The stored form of the new reasoning effort override, or `Some(None)` to clear it.
    pub agent_reasoning_effort_override: Option<Option<String>>,
    pub expect_version: Option<i64>,
}

impl Default for UpdateWorkItem {
    /// An update that changes nothing.
    fn default() -> (u: UpdateWorkItem)
        ensures
            u.title is None && u.description is None && u.state is None && u.agent_model_override is None
                && u.agent_reasoning_effort_override is None && u.expect_version is None,
    {
        UpdateWorkItem {
            title: None,
            description: None,
            state: None,
            agent_model_override: None,
            agent_reasoning_effort_override: None,
            expect_version: None,
        }
    }
}

/// A checked work item update: the field changes, the normalised state, and
/// the version the caller expects.
#[derive(Clone, Debug)]
pub struct WorkItemUpdatePlan {
    pub title: Option<String>,
    pub description: Option<String>,
    pub agent_model_override: Option<Option<String>>,
    pub agent_reasoning_effort_override: Option<Option<String>>,
    pub state: Option<String>,
    pub expect_version: Option<i64>,
}

/// What applying an update plan gives: the changed item, the state label to
/// set, and whether an item-updated event is recorded (only field changes
/// record one).
#[derive(Clone, Debug)]
pub struct AppliedWorkItemUpdate {
    pub item: WorkItemRecord,
    pub state: Option<String>,
    pub record_item_updated_event: bool,
}

impl WorkItemUpdatePlan {
    /// Whether the plan changes a field of the item itself.
    pub open spec fn has_field_update(self) -> bool {
        self.title is Some || self.description is Some || self.agent_model_override is Some
            || self.agent_reasoning_effort_override is Some
    }

    /// Checks an update: a requested state is normalised (trimmed, not blank),
    /// and an update must change a field or the state.
    pub fn new(update: UpdateWorkItem) -> (r: Result<WorkItemUpdatePlan, ItemUpdateError>)
        ensures
            match update.state {
                Some(s) => trim(s@).len() == 0 ==> r == Err::<WorkItemUpdatePlan, ItemUpdateError>(ItemUpdateError::InvalidState),
                None => true,
            },
            (update.state is None || trim(update.state->0@).len() > 0) ==> match r {
                Ok(p) => (p.has_field_update() || p.state is Some)
                    && opt_seq(p.title) == opt_seq(update.title)
                    && opt_seq(p.description) == opt_seq(update.description)
                    && p.agent_model_override == update.agent_model_override
                    && p.agent_reasoning_effort_override == update.agent_reasoning_effort_override
                    && p.expect_version == update.expect_version
                    && opt_seq(p.state) == match update.state {
                        Some(s) => Some(trim(s@)),
                        None => None,
                    },
                Err(e) => e == ItemUpdateError::EmptyUpdate && update.title is None && update.description is None
                    && update.agent_model_override is None && update.agent_reasoning_effort_override is None
                    && update.state is None,
            },
    {
        let state = match update.state {
            Some(s) => match normalize_state_value(s) {
                Ok(v) => Some(v),
                Err(e) => return Err(e),
            },
            None => None,
        };
        let has_field = update.title.is_some() || update.description.is_some()
            || update.agent_model_override.is_some() || update.agent_reasoning_effort_override.is_some();
        if !has_field && state.is_none() {
            return Err(ItemUpdateError::EmptyUpdate);
        }
        Ok(WorkItemUpdatePlan {
            title: update.title,
            description: update.description,
            agent_model_override: update.agent_model_override,
            agent_reasoning_effort_override: update.agent_reasoning_effort_override,
            state,
            expect_version: update.expect_version,
        })
    }

    /// The version the caller expects the item to have.
    pub fn expect_version(&self) -> (v: Option<i64>)
        ensures
            v == self.expect_version,
    {
        self.expect_version
    }

    /// Applies the plan to the stored item: fields not named keep their
    /// values; where the title or description changes, the resulting ones must
    /// not be blank; a model override is normalised; the version goes up by one
    /// and `updated_at` is the current time.
    pub fn apply_to(self, existing: WorkItemRecord) -> (r: Result<AppliedWorkItemUpdate, ItemUpdateError>)
        requires
            existing.version < i64::MAX,
        ensures
            ({
                let title = match self.title { Some(t) => t@, None => existing.title@ };
                let description = match self.description { Some(d) => d@, None => existing.description@ };
                let text_update = self.title is Some || self.description is Some;
                if text_update && trim(title).len() == 0 {
                    r == Err::<AppliedWorkItemUpdate, ItemUpdateError>(ItemUpdateError::EmptyTitle)
                } else if text_update && trim(description).len() == 0 {
                    r == Err::<AppliedWorkItemUpdate, ItemUpdateError>(ItemUpdateError::EmptyDescription)
                } else {
                    r matches Ok(a) && {
                        &&& a.item.title@ == title
                        &&& a.item.description@ == description
                        &&& a.item.version == existing.version + 1
                        &&& a.item.id == existing.id
                        &&& a.item.project_id == existing.project_id
                        &&& a.item.claimed_by == existing.claimed_by
                        &&& a.item.claimed_at == existing.claimed_at
                        &&& a.item.claim_expires_at == existing.claim_expires_at
                        &&& a.item.finished_at == existing.finished_at
                        &&& a.item.created_at == existing.created_at
                        &&& exists|t: time::OffsetDateTime| a.item.updated_at@ == #[trigger] crate::clock::rfc3339_or_epoch(t)
                        &&& opt_seq(a.item.agent_model_override) == match self.agent_model_override {
                            Some(m) => normalized_optional(opt_seq(m)),
                            None => opt_seq(existing.agent_model_override),
                        }
                        &&& a.item.agent_reasoning_effort_override == match self.agent_reasoning_effort_override {
                            Some(e) => e,
                            None => existing.agent_reasoning_effort_override,
                        }
                        &&& a.state == self.state
                        &&& a.record_item_updated_event == self.has_field_update()
                    }
                }
            }),
    {
        let record = self.title.is_some() || self.description.is_some()
            || self.agent_model_override.is_some() || self.agent_reasoning_effort_override.is_some();
        let text_update = self.title.is_some() || self.description.is_some();
        let WorkItemRecord {
            id,
            project_id,
            title: old_title,
            description: old_description,
            claimed_by,
            claimed_at,
            claim_expires_at,
            finished_at,
            agent_model_override: old_model,
            agent_reasoning_effort_override: old_effort,
            version,
            created_at,
            updated_at: _,
        } = existing;
        let title = match self.title {
            Some(t) => t,
            None => old_title,
        };
        let description = match self.description {
            Some(d) => d,
            None => old_description,
        };
        if text_update {
            match validate_item_text(title.as_str(), description.as_str()) {
                Ok(()) => {},
                Err(e) => return Err(e),
            }
        }
        let agent_model_override = match self.agent_model_override {
            Some(m) => normalize_optional(m),
            None => old_model,
        };
        let agent_reasoning_effort_override = match self.agent_reasoning_effort_override {
            Some(e) => e,
            None => old_effort,
        };
        let item = WorkItemRecord {
            id,
            project_id,
            title,
            description,
            claimed_by,
            claimed_at,
            claim_expires_at,
            finished_at,
            agent_model_override,
            agent_reasoning_effort_override,
            version: version + 1,
            created_at,
            updated_at: crate::clock::utc_now(),
        };
        Ok(AppliedWorkItemUpdate { item, state: self.state, record_item_updated_event: record })
    }
}

} // verus!

verus! {

/// The message for an update made against another version of an item.
pub open spec fn version_conflict_text(expected: i64, actual: i64) -> Seq<char> {
    "version conflict: expected "@ + crate::text::int_text(expected as int) + ", found "@ + crate::text::int_text(actual as int)
}

/// Refuses a change made against another version than the stored one.
pub fn check_expected_version(expected: Option<i64>, actual: i64) -> (r: Result<(), String>)
    ensures
        match expected {
            Some(e) => if e != actual {
                r matches Err(m) && m@ == version_conflict_text(e, actual)
            } else {
                r is Ok
            },
            None => r is Ok,
        },
{
    match expected {
        Some(e) => {
            if e != actual {
                let mut m = String::from_str("version conflict: expected ");
                crate::text::push_int(&mut m, e);
                m.append(", found ");
                crate::text::push_int(&mut m, actual);
                Err(m)
            } else {
                Ok(())
            }
        },
        None => Ok(()),
    }
}

} // verus!
