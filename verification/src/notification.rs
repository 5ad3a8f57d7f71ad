//! Progress reports: what one report holds, and how a later report for the
//! same title is folded into an earlier one.

use vstd::prelude::*;

verus! {

/// How serious a report is.
#[derive(Debug, Clone, Copy, PartialEq, Eq, Structural)]
pub enum NotificationSeverity {
    Debug,
    Info,
    Warning,
    Error,
}

/// How far a piece of work has come: `done` parts out of `total`.
///
/// The work is complete when `done` has reached `total`.
#[derive(Debug, Clone, Copy, PartialEq, Eq, Structural)]
pub struct Completion {
    pub done: u128,
    pub total: u128,
}

impl Completion {
    /// The value is a fraction between 0 and 1.
    pub open spec fn wf(self) -> bool {
        0 < self.total && self.done <= self.total
    }

    /// Whether nothing is left to do.
    pub open spec fn complete(self) -> bool {
        self.done >= self.total
    }

    /// Nothing done yet.
    pub fn none() -> (c: Completion)
        ensures
            c == (Completion { done: 0, total: 1 }),
            c.wf(),
            !c.complete(),
    {
        Completion { done: 0, total: 1 }
    }

    /// Everything done.
    pub fn full() -> (c: Completion)
        ensures
            c == (Completion { done: 1, total: 1 }),
            c.wf(),
            c.complete(),
    {
        Completion { done: 1, total: 1 }
    }

    /// Whether nothing is left to do.
    pub fn is_complete(&self) -> (complete: bool)
        ensures
            complete == self.complete(),
    {
        self.done >= self.total
    }
}

/// What a finished run has to tell besides its text.
#[derive(Debug, PartialEq, Eq)]
pub struct NotificationStatus {
    /// The amount of data downloaded, written for a reader.
    pub downloaded: Option<String>,
    /// The number of cache files removed.
    pub removed: Option<u64>,
    /// The time the run took, written for a reader.
    pub elapsed: Option<String>,
}

/// The content of a [`NotificationStatus`].
pub ghost struct StatusView {
    pub downloaded: Option<Seq<char>>,
    pub removed: Option<u64>,
    pub elapsed: Option<Seq<char>>,
}

/// The characters of an optional text.
pub open spec fn text_view(text: Option<String>) -> Option<Seq<char>> {
    match text {
        Some(t) => Some(t@),
        None => None,
    }
}

/// A copy of an optional text.
pub fn copy_text(text: &Option<String>) -> (copy: Option<String>)
    ensures
        text_view(copy) == text_view(*text),
{
    match text {
        Some(t) => Some(t.clone()),
        None => None,
    }
}

impl View for NotificationStatus {
    type V = StatusView;

    open spec fn view(&self) -> StatusView {
        StatusView {
            downloaded: text_view(self.downloaded),
            removed: self.removed,
            elapsed: text_view(self.elapsed),
        }
    }
}

impl Default for NotificationStatus {
    /// A status that tells nothing.
    fn default() -> (status: NotificationStatus)
        ensures
            status@ == (StatusView { downloaded: None, removed: None, elapsed: None }),
    {
        NotificationStatus { downloaded: None, removed: None, elapsed: None }
    }
}

impl Clone for NotificationStatus {
    fn clone(&self) -> (copy: NotificationStatus)
        ensures
            copy@ == self@,
    {
        NotificationStatus {
            downloaded: copy_text(&self.downloaded),
            removed: self.removed,
            elapsed: copy_text(&self.elapsed),
        }
    }
}

/// One progress report. Reports with the same title speak of the same work.
#[derive(Debug, PartialEq, Eq)]
pub struct NotificationAlert {
    pub title: String,
    pub body: String,
    pub percent: Completion,
    pub severity: NotificationSeverity,
    pub status: NotificationStatus,
}

/// The content of a [`NotificationAlert`].
pub ghost struct AlertView {
    pub title: Seq<char>,
    pub body: Seq<char>,
    pub percent: Completion,
    pub severity: NotificationSeverity,
    pub status: StatusView,
}

impl AlertView {
    /// Whether the work the report speaks of is still going on.
    pub open spec fn pending(self) -> bool {
        !self.percent.complete()
    }

    /// This report with everything but its title taken from `other`.
    pub open spec fn merged(self, other: AlertView) -> AlertView {
        AlertView { title: self.title, ..other }
    }
}

impl View for NotificationAlert {
    type V = AlertView;

    open spec fn view(&self) -> AlertView {
        AlertView {
            title: self.title@,
            body: self.body@,
            percent: self.percent,
            severity: self.severity,
            status: self.status@,
        }
    }
}

impl Clone for NotificationAlert {
    fn clone(&self) -> (copy: NotificationAlert)
        ensures
            copy@ == self@,
    {
        NotificationAlert {
            title: self.title.clone(),
            body: self.body.clone(),
            percent: self.percent,
            severity: self.severity,
            status: self.status.clone(),
        }
    }
}

impl NotificationAlert {
    /// Whether the work the report speaks of is still going on.
    pub fn is_pending(&self) -> (pending: bool)
        ensures
            pending == self@.pending(),
    {
        !self.percent.is_complete()
    }

    /// Takes everything but the title from `other`.
    pub fn update(&mut self, other: NotificationAlert)
        ensures
            final(self)@ == old(self)@.merged(other@),
    {
        self.body = other.body;
        self.percent = other.percent;
        self.severity = other.severity;
        self.status = other.status;
    }
}

} // verus!
