//! The progress of one download, chunk by chunk.
//!
//! A download is one step among the steps of a run. While it goes on, the
//! run's progress moves from the steps done before it towards the next
//! step, by the part of the announced size that has arrived.

use vstd::prelude::*;
use vstd::string::*;

use crate::notification::AlertView;
use crate::notification::Completion;
use crate::notification::NotificationAlert;
use crate::report::readable_size;
use crate::report::size_text;

verus! {

/// The state of one download.
#[derive(Debug)]
pub struct Download {
    alert: NotificationAlert,
    label: String,
    completed_steps: u64,
    total_steps: u64,
    total_size: Option<u64>,
    downloaded: u64,
}

/// The content of a [`Download`].
pub ghost struct DownloadView {
    /// The report of the run when the download began.
    pub alert: AlertView,
    /// What the downloaded item is called in reports.
    pub label: Seq<char>,
    /// The steps of the run done before the download.
    pub completed_steps: u64,
    /// The steps of the run, this download among them.
    pub total_steps: u64,
    /// The size the server announced, if it announced one.
    pub total_size: Option<u64>,
    /// The bytes that have arrived.
    pub downloaded: u64,
}

/// The progress of the run while a download goes on: the steps done before
/// it, and of its own step the part of the announced size that has arrived,
/// over the steps of the run. Where no size was announced, the size is 0, or
/// the steps before it are not fewer than the steps of the run, the progress
/// stays what it was when the download began.
pub open spec fn download_percent(download: DownloadView) -> Completion {
    match download.total_size {
        Some(size) => if size > 0 && download.completed_steps < download.total_steps {
            let arrived = if download.downloaded < size {
                download.downloaded
            } else {
                size
            };
            Completion {
                done: (download.completed_steps * size + arrived) as u128,
                total: (download.total_steps * size) as u128,
            }
        } else {
            download.alert.percent
        },
        None => download.alert.percent,
    }
}

/// The text of the report while a download goes on: the item and, in
/// brackets, the bytes that have arrived, written for a reader.
pub open spec fn download_body(download: DownloadView) -> Seq<char> {
    "Downloading "@ + download.label + " ("@ + size_text(download.downloaded as int) + ")"@
}

/// The report of the run while a download goes on.
pub open spec fn download_alert(download: DownloadView) -> AlertView {
    AlertView {
        body: download_body(download),
        percent: download_percent(download),
        ..download.alert
    }
}

/// What a finished download counts for: the announced size, or the bytes
/// that arrived where none was announced.
pub open spec fn download_total(download: DownloadView) -> u64 {
    match download.total_size {
        Some(size) => size,
        None => download.downloaded,
    }
}

/// The sum of two byte counts, held at the largest count there is.
pub open spec fn capped_sum(first: u64, second: u64) -> u64 {
    if first + second > u64::MAX {
        u64::MAX
    } else {
        (first + second) as u64
    }
}

/// Adds two byte counts, holding the sum at the largest count there is.
pub fn add_capped(first: u64, second: u64) -> (sum: u64)
    ensures
        sum == capped_sum(first, second),
{
    if first > u64::MAX - second {
        u64::MAX
    } else {
        first + second
    }
}

impl View for Download {
    type V = DownloadView;

    closed spec fn view(&self) -> DownloadView {
        DownloadView {
            alert: self.alert@,
            label: self.label@,
            completed_steps: self.completed_steps,
            total_steps: self.total_steps,
            total_size: self.total_size,
            downloaded: self.downloaded,
        }
    }
}

impl Download {
    /// A download about to begin: `alert` is the run's report as it stands,
    /// `label` names the item, `completed_steps` of the run's `total_steps`
    /// are done, and `total_size` is the size the server announced.
    pub fn new(
        alert: NotificationAlert,
        label: String,
        completed_steps: u64,
        total_steps: u64,
        total_size: Option<u64>,
    ) -> (download: Download)
        ensures
            download@ == (DownloadView {
                alert: alert@,
                label: label@,
                completed_steps,
                total_steps,
                total_size,
                downloaded: 0,
            }),
    {
        Download { alert, label, completed_steps, total_steps, total_size, downloaded: 0 }
    }

    /// Counts a chunk of `length` bytes that has arrived, and gives the
    /// report of the run as it stands then.
    pub fn on_chunk(&mut self, length: usize) -> (alert: NotificationAlert)
        ensures
            final(self)@ == (DownloadView {
                downloaded: capped_sum(old(self)@.downloaded, length as u64),
                ..old(self)@
            }),
            alert@ == download_alert(final(self)@),
            old(self)@.alert.percent.wf() ==> alert@.percent.wf(),
    {
        self.downloaded = add_capped(self.downloaded, length as u64);
        let percent = self.percent();
        let mut body = String::from_str("Downloading ");
        body.append(self.label.as_str());
        body.append(" (");
        body.append(readable_size(self.downloaded).as_str());
        body.append(")");
        NotificationAlert {
            title: self.alert.title.clone(),
            body,
            percent,
            severity: self.alert.severity,
            status: self.alert.status.clone(),
        }
    }

    /// The progress of the run as the download stands.
    pub fn percent(&self) -> (percent: Completion)
        ensures
            percent == download_percent(self@),
            self@.alert.percent.wf() ==> percent.wf(),
    {
        match self.total_size {
            Some(size) => {
                if size > 0 && self.completed_steps < self.total_steps {
                    let arrived = if self.downloaded < size {
                        self.downloaded
                    } else {
                        size
                    };
                    let completed = self.completed_steps as u128;
                    let steps = self.total_steps as u128;
                    let whole = size as u128;
                    assert(completed * whole + whole <= steps * whole) by (nonlinear_arith)
                        requires
                            completed + 1 <= steps,
                            whole > 0,
                    ;
                    assert(steps * whole <= 0xFFFF_FFFF_FFFF_FFFF * 0xFFFF_FFFF_FFFF_FFFF)
                        by (nonlinear_arith)
                        requires
                            steps <= 0xFFFF_FFFF_FFFF_FFFF,
                            whole <= 0xFFFF_FFFF_FFFF_FFFF,
                    ;
                    assert(steps * whole > 0) by (nonlinear_arith)
                        requires
                            steps > 0,
                            whole > 0,
                    ;
                    assert(completed * whole >= 0) by (nonlinear_arith)
                        requires
                            completed >= 0,
                            whole >= 0,
                    ;
                    Completion {
                        done: completed * whole + arrived as u128,
                        total: steps * whole,
                    }
                } else {
                    self.alert.percent
                }
            },
            None => self.alert.percent,
        }
    }

    /// What the download counts for once it is finished.
    pub fn total_bytes(&self) -> (bytes: u64)
        ensures
            bytes == download_total(self@),
    {
        match self.total_size {
            Some(size) => size,
            None => self.downloaded,
        }
    }
}

} // verus!
