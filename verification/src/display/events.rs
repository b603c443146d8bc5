use vstd::prelude::*;

use crate::text::str_eq;

verus! {

/// A change that the server announces to the pages that show it.
#[allow(inconsistent_fields)]
#[derive(Clone, Debug)]
pub enum UiEvent {
    ProjectListChanged { sequence: u64, timestamp: String },
    ProjectChanged { sequence: u64, timestamp: String, project: String },
    SystemPromptChanged { sequence: u64, timestamp: String, project: String },
    WorkItemChanged { sequence: u64, timestamp: String, project: String, item_id: i64 },
    CommentChanged { sequence: u64, timestamp: String, project: String, item_id: i64 },
    MemoryChanged { sequence: u64, timestamp: String, project: String },
    SwimLaneChanged { sequence: u64, timestamp: String, project: String },
    WorkItemStateChanged { sequence: u64, timestamp: String, project: String },
    AutomationChanged { sequence: u64, timestamp: String, project: String },
    AgentRunChanged { sequence: u64, timestamp: String, project: String, run_id: i64, item_id: Option<i64> },
    AgentOutputChanged { sequence: u64, timestamp: String, project: String, run_id: i64, item_id: Option<i64> },
    AgentToolChanged { sequence: u64, timestamp: String },
    CodexStatusChanged { sequence: u64, timestamp: String },
}

/// The project an event belongs to, for the events that belong to one.
pub open spec fn event_project_of(event: UiEvent) -> Option<Seq<char>> {
    match event {
        UiEvent::ProjectChanged { project, .. } => Some(project@),
        UiEvent::SystemPromptChanged { project, .. } => Some(project@),
        UiEvent::WorkItemChanged { project, .. } => Some(project@),
        UiEvent::CommentChanged { project, .. } => Some(project@),
        UiEvent::MemoryChanged { project, .. } => Some(project@),
        UiEvent::SwimLaneChanged { project, .. } => Some(project@),
        UiEvent::WorkItemStateChanged { project, .. } => Some(project@),
        UiEvent::AutomationChanged { project, .. } => Some(project@),
        UiEvent::AgentRunChanged { project, .. } => Some(project@),
        UiEvent::AgentOutputChanged { project, .. } => Some(project@),
        _ => None,
    }
}

/// An event concerns a page of `project` unless it names another project.
pub open spec fn scopes_project(event: UiEvent, project: Option<Seq<char>>) -> bool {
    match (project, event_project_of(event)) {
        (Some(expected), Some(actual)) => expected == actual,
        _ => true,
    }
}

/// The project an event belongs to.
pub fn event_project(event: &UiEvent) -> (r: Option<&str>)
    ensures
        match r {
            Some(p) => event_project_of(*event) == Some(p@),
            None => event_project_of(*event) is None,
        },
{
    match event {
        UiEvent::ProjectChanged { project, .. } => Some(project.as_str()),
        UiEvent::SystemPromptChanged { project, .. } => Some(project.as_str()),
        UiEvent::WorkItemChanged { project, .. } => Some(project.as_str()),
        UiEvent::CommentChanged { project, .. } => Some(project.as_str()),
        UiEvent::MemoryChanged { project, .. } => Some(project.as_str()),
        UiEvent::SwimLaneChanged { project, .. } => Some(project.as_str()),
        UiEvent::WorkItemStateChanged { project, .. } => Some(project.as_str()),
        UiEvent::AutomationChanged { project, .. } => Some(project.as_str()),
        UiEvent::AgentRunChanged { project, .. } => Some(project.as_str()),
        UiEvent::AgentOutputChanged { project, .. } => Some(project.as_str()),
        UiEvent::ProjectListChanged { .. } => None,
        UiEvent::AgentToolChanged { .. } => None,
        UiEvent::CodexStatusChanged { .. } => None,
    }
}

/// Whether an event concerns a page showing `project` (any project when `None`).
pub fn event_scopes_named_project(event: &UiEvent, project: Option<&str>) -> (b: bool)
    ensures
        b == scopes_project(
            *event,
            match project {
                Some(p) => Some(p@),
                None => None,
            },
        ),
{
    match (project, event_project(event)) {
        (Some(expected), Some(actual)) => str_eq(expected, actual),
        (Some(_), None) => true,
        (None, _) => true,
    }
}

/// The events after which the Codex status page reloads.
pub open spec fn codex_event(event: UiEvent) -> bool {
    ||| event is CodexStatusChanged
    ||| event is AgentToolChanged
    ||| event is ProjectListChanged
    ||| event is ProjectChanged
    ||| event is AutomationChanged
}

/// The events after which the page shell (project list, selected project,
/// Codex status) reloads: the API docs page and the runs page listen to these.
pub open spec fn shell_event(event: UiEvent) -> bool {
    ||| event is ProjectListChanged
    ||| event is ProjectChanged
    ||| event is CodexStatusChanged
}

/// Whether the Codex status page reloads after `event`.
pub fn codex_event_matches(event: &UiEvent) -> (b: bool)
    ensures
        b == codex_event(*event),
{
    match event {
        UiEvent::CodexStatusChanged { .. } => true,
        UiEvent::AgentToolChanged { .. } => true,
        UiEvent::ProjectListChanged { .. } => true,
        UiEvent::ProjectChanged { .. } => true,
        UiEvent::AutomationChanged { .. } => true,
        _ => false,
    }
}

/// Whether the API docs page reloads after `event`.
pub fn api_docs_event_matches(event: &UiEvent) -> (b: bool)
    ensures
        b == shell_event(*event),
{
    match event {
        UiEvent::ProjectListChanged { .. } => true,
        UiEvent::ProjectChanged { .. } => true,
        UiEvent::CodexStatusChanged { .. } => true,
        _ => false,
    }
}

/// Whether the runs page shell reloads after `event`; the live run list
/// follows run events on its own.
pub fn runs_page_event_matches(event: &UiEvent) -> (b: bool)
    ensures
        b == shell_event(*event),
{
    match event {
        UiEvent::ProjectListChanged { .. } => true,
        UiEvent::ProjectChanged { .. } => true,
        UiEvent::CodexStatusChanged { .. } => true,
        _ => false,
    }
}

/// Whether a work item page of `project` and `item_id` reloads after `event`:
/// the event must not name another project; then shell, automation, tool and
/// state events count, and item, comment, run and output events count when
/// they name that item.
pub open spec fn item_event(event: UiEvent, project: Option<Seq<char>>, item_id: Option<i64>) -> bool {
    scopes_project(event, project) && match event {
        UiEvent::ProjectListChanged { .. } => true,
        UiEvent::ProjectChanged { .. } => true,
        UiEvent::AutomationChanged { .. } => true,
        UiEvent::CodexStatusChanged { .. } => true,
        UiEvent::AgentToolChanged { .. } => true,
        UiEvent::WorkItemStateChanged { .. } => true,
        UiEvent::WorkItemChanged { item_id: changed, .. } => Some(changed) == item_id,
        UiEvent::CommentChanged { item_id: changed, .. } => Some(changed) == item_id,
        UiEvent::AgentRunChanged { item_id: changed, .. } => changed is Some && changed == item_id,
        UiEvent::AgentOutputChanged { item_id: changed, .. } => changed is Some && changed == item_id,
        UiEvent::SystemPromptChanged { .. } => false,
        UiEvent::MemoryChanged { .. } => false,
        UiEvent::SwimLaneChanged { .. } => false,
    }
}

/// Whether the work item page reloads after `event`.
pub fn item_event_matches(event: &UiEvent, project: Option<String>, item_id: Option<i64>) -> (b: bool)
    ensures
        b == item_event(
            *event,
            match project {
                Some(p) => Some(p@),
                None => None,
            },
            item_id,
        ),
{
    let scoped = match &project {
        Some(p) => event_scopes_named_project(event, Some(p.as_str())),
        None => event_scopes_named_project(event, None),
    };
    if !scoped {
        return false;
    }
    match event {
        UiEvent::ProjectListChanged { .. } => true,
        UiEvent::ProjectChanged { .. } => true,
        UiEvent::AutomationChanged { .. } => true,
        UiEvent::CodexStatusChanged { .. } => true,
        UiEvent::AgentToolChanged { .. } => true,
        UiEvent::WorkItemChanged { item_id: changed, .. } => Some(*changed) == item_id,
        UiEvent::CommentChanged { item_id: changed, .. } => Some(*changed) == item_id,
        UiEvent::AgentRunChanged { item_id: Some(changed), .. } => Some(*changed) == item_id,
        UiEvent::AgentOutputChanged { item_id: Some(changed), .. } => Some(*changed) == item_id,
        UiEvent::AgentRunChanged { item_id: None, .. } => false,
        UiEvent::AgentOutputChanged { item_id: None, .. } => false,
        UiEvent::SystemPromptChanged { .. } => false,
        UiEvent::MemoryChanged { .. } => false,
        UiEvent::SwimLaneChanged { .. } => false,
        UiEvent::WorkItemStateChanged { .. } => true,
    }
}

/// Whether a run log page of `project` and `run_id` reloads after `event`:
/// the event must not name another project; then run and output events count
/// when they name that run, and shell, automation and tool events count.
pub open spec fn run_log_event(event: UiEvent, project: Option<Seq<char>>, run_id: Option<i64>) -> bool {
    scopes_project(event, project) && match event {
        UiEvent::AgentRunChanged { run_id: changed, .. } => Some(changed) == run_id,
        UiEvent::AgentOutputChanged { run_id: changed, .. } => Some(changed) == run_id,
        UiEvent::ProjectListChanged { .. } => true,
        UiEvent::ProjectChanged { .. } => true,
        UiEvent::AutomationChanged { .. } => true,
        UiEvent::CodexStatusChanged { .. } => true,
        UiEvent::AgentToolChanged { .. } => true,
        _ => false,
    }
}

/// Whether the run log page reloads after `event`.
pub fn run_log_event_matches(event: &UiEvent, project: Option<String>, run_id: Option<i64>) -> (b: bool)
    ensures
        b == run_log_event(
            *event,
            match project {
                Some(p) => Some(p@),
                None => None,
            },
            run_id,
        ),
{
    let scoped = match &project {
        Some(p) => event_scopes_named_project(event, Some(p.as_str())),
        None => event_scopes_named_project(event, None),
    };
    if !scoped {
        return false;
    }
    match event {
        UiEvent::AgentRunChanged { run_id: changed, .. } => Some(*changed) == run_id,
        UiEvent::AgentOutputChanged { run_id: changed, .. } => Some(*changed) == run_id,
        UiEvent::ProjectListChanged { .. } => true,
        UiEvent::ProjectChanged { .. } => true,
        UiEvent::AutomationChanged { .. } => true,
        UiEvent::CodexStatusChanged { .. } => true,
        UiEvent::AgentToolChanged { .. } => true,
        UiEvent::WorkItemChanged { .. } => false,
        UiEvent::CommentChanged { .. } => false,
        UiEvent::SystemPromptChanged { .. } => false,
        UiEvent::MemoryChanged { .. } => false,
        UiEvent::SwimLaneChanged { .. } => false,
        UiEvent::WorkItemStateChanged { .. } => false,
    }
}

} // verus!
