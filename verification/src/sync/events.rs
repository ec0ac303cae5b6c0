//! Change events and what they mean for a sync.
//!
//! The remote service reports changes as events that name a resource by
//! loosely typed strings. [`classify_event`] reads one event as one of a
//! closed set of changes, with everything unknown ignored, and
//! [`classify_events`] gathers a batch of events into an [`EventSummary`].

use crate::sync::IncrementalSyncSummary;
use crate::text::same_text;
use vstd::prelude::*;

verus! {

/// The kinds of resource that an event can be about, as far as a sync cares.
#[derive(Debug, Clone, Copy, PartialEq, Eq, Structural)]
pub enum ResourceKind {
    Task,
    Story,
    Section,
    Project,
    StatusUpdate,
    /// Any kind that a sync does not act on.
    Other,
}

/// What happened to the resource of an event.
#[derive(Debug, Clone, Copy, PartialEq, Eq, Structural)]
pub enum EventAction {
    Changed,
    Added,
    Removed,
    Deleted,
    Undeleted,
    /// Any action that a sync does not know.
    Other,
}

/// The kind of resource that a type name stands for.
pub open spec fn kind_of(name: Seq<char>) -> ResourceKind {
    if name == "task"@ {
        ResourceKind::Task
    } else if name == "story"@ {
        ResourceKind::Story
    } else if name == "section"@ {
        ResourceKind::Section
    } else if name == "project"@ {
        ResourceKind::Project
    } else if name == "status_update"@ {
        ResourceKind::StatusUpdate
    } else {
        ResourceKind::Other
    }
}

/// The action that an action name stands for.
pub open spec fn action_of(name: Seq<char>) -> EventAction {
    if name == "changed"@ {
        EventAction::Changed
    } else if name == "added"@ {
        EventAction::Added
    } else if name == "removed"@ {
        EventAction::Removed
    } else if name == "deleted"@ {
        EventAction::Deleted
    } else if name == "undeleted"@ {
        EventAction::Undeleted
    } else {
        EventAction::Other
    }
}

/// The kind of resource that a type name stands for.
pub fn parse_kind(name: &str) -> (kind: ResourceKind)
    ensures
        kind == kind_of(name@),
{
    if same_text(name, "task") {
        ResourceKind::Task
    } else if same_text(name, "story") {
        ResourceKind::Story
    } else if same_text(name, "section") {
        ResourceKind::Section
    } else if same_text(name, "project") {
        ResourceKind::Project
    } else if same_text(name, "status_update") {
        ResourceKind::StatusUpdate
    } else {
        ResourceKind::Other
    }
}

/// The action that an action name stands for.
pub fn parse_action(name: &str) -> (action: EventAction)
    ensures
        action == action_of(name@),
{
    if same_text(name, "changed") {
        EventAction::Changed
    } else if same_text(name, "added") {
        EventAction::Added
    } else if same_text(name, "removed") {
        EventAction::Removed
    } else if same_text(name, "deleted") {
        EventAction::Deleted
    } else if same_text(name, "undeleted") {
        EventAction::Undeleted
    } else {
        EventAction::Other
    }
}

/// One change that the remote service reported. It lives for one sync
/// attempt and is never stored.
#[derive(Debug, Clone, PartialEq, Eq)]
pub struct ChangeEvent {
    /// The type that the resource itself carries, if it carries one.
    pub resource_type: Option<String>,
    /// The type that the event carries, used where the resource has none.
    pub event_type: Option<String>,
    /// The id of the resource.
    pub resource_gid: String,
    /// What happened to the resource.
    pub action: String,
    /// The id of the resource's parent, if it has one: for a comment, what
    /// it was made on.
    pub parent_gid: Option<String>,
    /// The type that the parent carries, if it carries one.
    pub parent_type: Option<String>,
}

/// A [`ChangeEvent`] with its texts as sequences of characters.
pub struct ChangeEventView {
    pub resource_type: Option<Seq<char>>,
    pub event_type: Option<Seq<char>>,
    pub resource_gid: Seq<char>,
    pub action: Seq<char>,
    pub parent_gid: Option<Seq<char>>,
    pub parent_type: Option<Seq<char>>,
}

/// The characters of an optional text.
pub open spec fn text_of(text: Option<String>) -> Option<Seq<char>> {
    match text {
        Some(t) => Some(t@),
        None => None,
    }
}

impl View for ChangeEvent {
    type V = ChangeEventView;

    open spec fn view(&self) -> ChangeEventView {
        ChangeEventView {
            resource_type: text_of(self.resource_type),
            event_type: text_of(self.event_type),
            resource_gid: self.resource_gid@,
            action: self.action@,
            parent_gid: text_of(self.parent_gid),
            parent_type: text_of(self.parent_type),
        }
    }
}

/// The events of a list, as views.
pub open spec fn events_of(events: Seq<ChangeEvent>) -> Seq<ChangeEventView> {
    events.map_values(|e: ChangeEvent| e@)
}

/// What one event asks of a sync.
#[derive(Debug, Clone, PartialEq, Eq)]
pub enum Change {
    /// Fetch the task with this id again, with its comments.
    Task { gid: String },
    /// Refresh the sections of the project.
    Sections,
    /// Refresh the project's own record.
    Project,
    /// Refresh the status updates.
    StatusUpdates,
    /// Nothing. Removed and deleted tasks are left to the next full sync.
    Ignored,
}

/// A [`Change`] with its text as a sequence of characters.
pub enum ChangeView {
    Task { gid: Seq<char> },
    Sections,
    Project,
    StatusUpdates,
    Ignored,
}

impl View for Change {
    type V = ChangeView;

    open spec fn view(&self) -> ChangeView {
        match self {
            Change::Task { gid } => ChangeView::Task { gid: gid@ },
            Change::Sections => ChangeView::Sections,
            Change::Project => ChangeView::Project,
            Change::StatusUpdates => ChangeView::StatusUpdates,
            Change::Ignored => ChangeView::Ignored,
        }
    }
}

/// The kind of resource an event is about: by the resource's own type, else
/// by the event's, else none that a sync knows.
pub open spec fn event_kind(event: ChangeEventView) -> ResourceKind {
    match event.resource_type {
        Some(name) => kind_of(name),
        None => match event.event_type {
            Some(name) => kind_of(name),
            None => ResourceKind::Other,
        },
    }
}

/// The task that an event names as the parent of its resource: the parent's
/// id, where the event names a parent and says that it is a task.
pub open spec fn parent_task(event: ChangeEventView) -> Option<Seq<char>> {
    match (event.parent_gid, event.parent_type) {
        (Some(gid), Some(name)) => if kind_of(name) == ResourceKind::Task {
            Some(gid)
        } else {
            None
        },
        _ => None,
    }
}

/// What one event asks of a sync:
///
/// - a task that was changed, added or undeleted is fetched again;
/// - a comment that was changed or added has its parent fetched again, where
///   the parent is a task;
/// - any event on a section asks for the sections;
/// - a changed project asks for the project's record;
/// - a status update that was changed or added asks for the status updates;
/// - everything else is ignored.
pub open spec fn classify(event: ChangeEventView) -> ChangeView {
    let action = action_of(event.action);
    match event_kind(event) {
        ResourceKind::Task => if action == EventAction::Changed || action == EventAction::Added
            || action == EventAction::Undeleted {
            ChangeView::Task { gid: event.resource_gid }
        } else {
            ChangeView::Ignored
        },
        ResourceKind::Story => if action == EventAction::Changed || action
            == EventAction::Added {
            match parent_task(event) {
                Some(parent) => ChangeView::Task { gid: parent },
                None => ChangeView::Ignored,
            }
        } else {
            ChangeView::Ignored
        },
        ResourceKind::Section => ChangeView::Sections,
        ResourceKind::Project => if action == EventAction::Changed {
            ChangeView::Project
        } else {
            ChangeView::Ignored
        },
        ResourceKind::StatusUpdate => if action == EventAction::Changed || action
            == EventAction::Added {
            ChangeView::StatusUpdates
        } else {
            ChangeView::Ignored
        },
        ResourceKind::Other => ChangeView::Ignored,
    }
}

impl ChangeEvent {
    /// The task that this event names as the parent of its resource.
    pub fn parent_task(&self) -> (parent: Option<&String>)
        ensures
            (match parent {
                Some(gid) => Some(gid@),
                None => None,
            }) == parent_task(self@),
    {
        match (&self.parent_gid, &self.parent_type) {
            (Some(gid), Some(name)) => match parse_kind(name.as_str()) {
                ResourceKind::Task => Some(gid),
                _ => None,
            },
            _ => None,
        }
    }

    /// The kind of resource this event is about.
    pub fn kind(&self) -> (kind: ResourceKind)
        ensures
            kind == event_kind(self@),
    {
        match &self.resource_type {
            Some(name) => parse_kind(name.as_str()),
            None => match &self.event_type {
                Some(name) => parse_kind(name.as_str()),
                None => ResourceKind::Other,
            },
        }
    }
}

/// What one event asks of a sync.
pub fn classify_event(event: &ChangeEvent) -> (change: Change)
    ensures
        change@ == classify(event@),
{
    let action = parse_action(event.action.as_str());
    match event.kind() {
        ResourceKind::Task => match action {
            EventAction::Changed | EventAction::Added | EventAction::Undeleted => Change::Task {
                gid: event.resource_gid.clone(),
            },
            _ => Change::Ignored,
        },
        ResourceKind::Story => match action {
            EventAction::Changed | EventAction::Added => match event.parent_task() {
                Some(parent) => Change::Task { gid: parent.clone() },
                None => Change::Ignored,
            },
            _ => Change::Ignored,
        },
        ResourceKind::Section => Change::Sections,
        ResourceKind::Project => match action {
            EventAction::Changed => Change::Project,
            _ => Change::Ignored,
        },
        ResourceKind::StatusUpdate => match action {
            EventAction::Changed | EventAction::Added => Change::StatusUpdates,
            _ => Change::Ignored,
        },
        ResourceKind::Other => Change::Ignored,
    }
}

/// What a batch of events asks of a sync.
#[derive(Debug, Clone, PartialEq, Eq)]
pub struct EventSummary {
    /// The tasks to fetch again, each once, in the order in which the events
    /// first named them.
    pub changed_task_gids: Vec<String>,
    pub project_changed: bool,
    pub sections_changed: bool,
    pub status_updates_changed: bool,
}

/// An [`EventSummary`] with its texts as sequences of characters.
pub struct EventSummaryView {
    pub changed_task_gids: Seq<Seq<char>>,
    pub project_changed: bool,
    pub sections_changed: bool,
    pub status_updates_changed: bool,
}

/// The texts of a list of strings.
pub open spec fn texts_of(list: Seq<String>) -> Seq<Seq<char>> {
    list.map_values(|s: String| s@)
}

impl View for EventSummary {
    type V = EventSummaryView;

    open spec fn view(&self) -> EventSummaryView {
        EventSummaryView {
            changed_task_gids: texts_of(self.changed_task_gids@),
            project_changed: self.project_changed,
            sections_changed: self.sections_changed,
            status_updates_changed: self.status_updates_changed,
        }
    }
}

/// The summary of no events.
pub open spec fn no_changes() -> EventSummaryView {
    EventSummaryView {
        changed_task_gids: Seq::empty(),
        project_changed: false,
        sections_changed: false,
        status_updates_changed: false,
    }
}

/// A summary after one more change: a task joins the list unless it is on it
/// already, and a flag once set stays set.
pub open spec fn absorb(summary: EventSummaryView, change: ChangeView) -> EventSummaryView {
    match change {
        ChangeView::Task { gid } => if summary.changed_task_gids.contains(gid) {
            summary
        } else {
            EventSummaryView {
                changed_task_gids: summary.changed_task_gids.push(gid),
                ..summary
            }
        },
        ChangeView::Sections => EventSummaryView { sections_changed: true, ..summary },
        ChangeView::Project => EventSummaryView { project_changed: true, ..summary },
        ChangeView::StatusUpdates => EventSummaryView { status_updates_changed: true, ..summary },
        ChangeView::Ignored => summary,
    }
}

/// The summary of a batch of events, taken one after the other.
pub open spec fn summarize(events: Seq<ChangeEventView>) -> EventSummaryView
    decreases events.len(),
{
    if events.len() == 0 {
        no_changes()
    } else {
        absorb(summarize(events.drop_last()), classify(events.last()))
    }
}

/// Whether a summary asks for anything.
pub open spec fn asks_for_work(summary: EventSummaryView) -> bool {
    summary.changed_task_gids.len() > 0 || summary.project_changed || summary.sections_changed
        || summary.status_updates_changed
}

/// A summary as progress callbacks get it: the number of tasks in place of
/// their ids.
pub open spec fn progress_summary(summary: EventSummaryView) -> IncrementalSyncSummary {
    IncrementalSyncSummary {
        tasks_changed: summary.changed_task_gids.len() as usize,
        project_changed: summary.project_changed,
        sections_changed: summary.sections_changed,
        status_updates_changed: summary.status_updates_changed,
    }
}

/// Whether `gid` is on the list.
pub fn contains_gid(list: &Vec<String>, gid: &str) -> (found: bool)
    ensures
        found == texts_of(list@).contains(gid@),
{
    let mut i: usize = 0;
    while i < list.len()
        invariant
            i <= list.len(),
            forall|k: int| 0 <= k < i ==> texts_of(list@)[k] != gid@,
        decreases list.len() - i,
    {
        if same_text(list[i].as_str(), gid) {
            proof {
                assert(texts_of(list@)[i as int] == gid@);
            }
            return true;
        }
        i += 1;
    }
    false
}

impl EventSummary {
    /// The summary of no events.
    pub fn new() -> (summary: EventSummary)
        ensures
            summary@ == no_changes(),
    {
        let summary = EventSummary {
            changed_task_gids: Vec::new(),
            project_changed: false,
            sections_changed: false,
            status_updates_changed: false,
        };
        proof {
            assert(texts_of(summary.changed_task_gids@) =~= Seq::<Seq<char>>::empty());
        }
        summary
    }

    /// Takes one more change into the summary.
    pub fn record(&mut self, change: Change)
        ensures
            final(self)@ == absorb(old(self)@, change@),
    {
        match change {
            Change::Task { gid } => {
                if !contains_gid(&self.changed_task_gids, gid.as_str()) {
                    let ghost before = texts_of(self.changed_task_gids@);
                    self.changed_task_gids.push(gid);
                    proof {
                        assert(texts_of(self.changed_task_gids@) =~= before.push(gid@));
                    }
                }
            },
            Change::Sections => {
                self.sections_changed = true;
            },
            Change::Project => {
                self.project_changed = true;
            },
            Change::StatusUpdates => {
                self.status_updates_changed = true;
            },
            Change::Ignored => {},
        }
    }

    /// Whether the summary asks for anything.
    pub fn has_changes(&self) -> (any: bool)
        ensures
            any == asks_for_work(self@),
    {
        self.changed_task_gids.len() > 0 || self.project_changed || self.sections_changed
            || self.status_updates_changed
    }

    /// The summary as progress callbacks get it: the number of tasks in place
    /// of their ids.
    pub fn to_progress_summary(&self) -> (summary: IncrementalSyncSummary)
        ensures
            summary == progress_summary(self@),
    {
        IncrementalSyncSummary {
            tasks_changed: self.changed_task_gids.len(),
            project_changed: self.project_changed,
            sections_changed: self.sections_changed,
            status_updates_changed: self.status_updates_changed,
        }
    }
}

/// What a batch of events asks of a sync.
pub fn classify_events(events: &[ChangeEvent]) -> (summary: EventSummary)
    ensures
        summary@ == summarize(events_of(events@)),
{
    let mut summary = EventSummary::new();
    let mut i: usize = 0;
    proof {
        assert(events_of(events@).take(0) =~= Seq::<ChangeEventView>::empty());
    }
    while i < events.len()
        invariant
            i <= events.len(),
            summary@ == summarize(events_of(events@).take(i as int)),
        decreases events.len() - i,
    {
        let change = classify_event(&events[i]);
        summary.record(change);
        proof {
            let upto = events_of(events@).take(i + 1);
            assert(upto.drop_last() =~= events_of(events@).take(i as int));
            assert(upto.last() == events[i as int]@);
        }
        i += 1;
    }
    proof {
        assert(events_of(events@).take(i as int) =~= events_of(events@));
    }
    summary
}

/// The task list of a summary names no task twice.
pub proof fn lemma_summary_has_no_duplicates(events: Seq<ChangeEventView>)
    ensures
        summarize(events).changed_task_gids.no_duplicates(),
    decreases events.len(),
{
    if events.len() > 0 {
        lemma_summary_has_no_duplicates(events.drop_last());
    }
}

/// A task is on the task list of a summary exactly when one of the events
/// asks for it, and a flag is set exactly when one of the events asks for
/// that refresh.
pub proof fn lemma_summary_meaning(events: Seq<ChangeEventView>, gid: Seq<char>)
    ensures
        summarize(events).changed_task_gids.contains(gid) <==> exists|i: int|
            0 <= i < events.len() && classify(#[trigger] events[i]) == (ChangeView::Task { gid }),
        summarize(events).sections_changed <==> exists|i: int|
            0 <= i < events.len() && classify(#[trigger] events[i]) == ChangeView::Sections,
        summarize(events).project_changed <==> exists|i: int|
            0 <= i < events.len() && classify(#[trigger] events[i]) == ChangeView::Project,
        summarize(events).status_updates_changed <==> exists|i: int|
            0 <= i < events.len() && classify(#[trigger] events[i]) == ChangeView::StatusUpdates,
    decreases events.len(),
{
    if events.len() > 0 {
        let head = events.drop_last();
        let n = events.len() - 1;
        lemma_summary_meaning(head, gid);
        assert(events[n] == events.last());
        assert forall|i: int| 0 <= i < head.len() implies head[i] == events[i] by {}
        let before = summarize(head);
        let after = summarize(events);
        // Task list.
        if before.changed_task_gids.contains(gid) {
            let i = choose|i: int|
                0 <= i < head.len() && classify(#[trigger] head[i]) == (ChangeView::Task { gid });
            assert(classify(events[i]) == (ChangeView::Task { gid }));
            match classify(events.last()) {
                ChangeView::Task { gid: other } => {
                    if !before.changed_task_gids.contains(other) {
                        let k = choose|k: int|
                            0 <= k < before.changed_task_gids.len() && before.changed_task_gids[k]
                                == gid;
                        assert(before.changed_task_gids.push(other)[k] == gid);
                    }
                },
                _ => {},
            }
            assert(after.changed_task_gids.contains(gid));
        }
        if classify(events.last()) == (ChangeView::Task { gid }) {
            if !before.changed_task_gids.contains(gid) {
                assert(before.changed_task_gids.push(gid)[before.changed_task_gids.len() as int]
                    == gid);
            }
            assert(after.changed_task_gids.contains(gid));
        }
        if after.changed_task_gids.contains(gid) && !before.changed_task_gids.contains(gid) {
            match classify(events.last()) {
                ChangeView::Task { gid: other } => {
                    let k = choose|k: int|
                        0 <= k < after.changed_task_gids.len() && after.changed_task_gids[k]
                            == gid;
                    if k < before.changed_task_gids.len() {
                        assert(before.changed_task_gids[k] == gid);
                    }
                    assert(other == gid);
                },
                _ => {},
            }
            assert(classify(events[n]) == (ChangeView::Task { gid }));
        }
        if exists|i: int|
            0 <= i < events.len() && classify(#[trigger] events[i]) == (ChangeView::Task { gid }) {
            let i = choose|i: int|
                0 <= i < events.len() && classify(#[trigger] events[i]) == (ChangeView::Task {
                    gid,
                });
            if i < n {
                assert(classify(head[i]) == (ChangeView::Task { gid }));
            }
        }
        // Flags.
        if before.sections_changed {
            let i = choose|i: int|
                0 <= i < head.len() && classify(#[trigger] head[i]) == ChangeView::Sections;
            assert(classify(events[i]) == ChangeView::Sections);
        }
        if exists|i: int|
            0 <= i < events.len() && classify(#[trigger] events[i]) == ChangeView::Sections {
            let i = choose|i: int|
                0 <= i < events.len() && classify(#[trigger] events[i]) == ChangeView::Sections;
            if i < n {
                assert(classify(head[i]) == ChangeView::Sections);
            }
        }
        if before.project_changed {
            let i = choose|i: int|
                0 <= i < head.len() && classify(#[trigger] head[i]) == ChangeView::Project;
            assert(classify(events[i]) == ChangeView::Project);
        }
        if exists|i: int|
            0 <= i < events.len() && classify(#[trigger] events[i]) == ChangeView::Project {
            let i = choose|i: int|
                0 <= i < events.len() && classify(#[trigger] events[i]) == ChangeView::Project;
            if i < n {
                assert(classify(head[i]) == ChangeView::Project);
            }
        }
        if before.status_updates_changed {
            let i = choose|i: int|
                0 <= i < head.len() && classify(#[trigger] head[i]) == ChangeView::StatusUpdates;
            assert(classify(events[i]) == ChangeView::StatusUpdates);
        }
        if exists|i: int|
            0 <= i < events.len() && classify(#[trigger] events[i]) == ChangeView::StatusUpdates {
            let i = choose|i: int|
                0 <= i < events.len() && classify(#[trigger] events[i])
                    == ChangeView::StatusUpdates;
            if i < n {
                assert(classify(head[i]) == ChangeView::StatusUpdates);
            }
        }
    }
}

} // verus!
