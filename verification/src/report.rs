//! The progress reports of a run: what each says, and the pieces of text
//! they are made of.

use size::Base;
use size::Size;
use std::time::Duration;
use vstd::prelude::*;
use vstd::string::*;

use crate::notification::AlertView;
use crate::notification::Completion;
use crate::notification::NotificationAlert;
use crate::notification::NotificationSeverity;
use crate::notification::NotificationStatus;
use crate::notification::StatusView;
use crate::service::get_service_title;
use crate::service::service_name;
use crate::service::service_title;
use crate::service::ImageService;
use crate::text::decimal;
use crate::text::decimal_string;

verus! {

/// The whole seconds a span of time holds.
pub uninterp spec fn duration_seconds(duration: Duration) -> u64;

/// The whole milliseconds a span of time holds.
pub uninterp spec fn duration_millis(duration: Duration) -> u128;

/// How the `size` crate writes a number of bytes for a reader, in units of
/// powers of 1000.
pub uninterp spec fn size_text(bytes: int) -> Seq<char>;

/// A span of time in short: milliseconds below one second, whole minutes
/// above sixty seconds, seconds otherwise.
pub open spec fn condensed(seconds: u64, millis: u128) -> Seq<char> {
    if seconds == 0 {
        decimal(millis as nat) + " ms"@
    } else if seconds > 60 {
        decimal((seconds / 60) as nat) + " m"@
    } else {
        decimal(seconds as nat) + " s"@
    }
}

/// Calls `std::time::Duration::as_secs`, which returns the whole seconds of
/// the span.
#[verifier::external_body]
fn whole_seconds(duration: &Duration) -> (seconds: u64)
    ensures
        seconds == duration_seconds(*duration),
{
    duration.as_secs()
}

/// Calls `std::time::Duration::as_millis`, which returns the whole
/// milliseconds of the span.
#[verifier::external_body]
fn whole_millis(duration: &Duration) -> (millis: u128)
    ensures
        millis == duration_millis(*duration),
{
    duration.as_millis()
}

/// Calls `size::Size::from_bytes`, then `format`, `with_base` for powers of
/// 1000, and writes the result out. The text is `size_text` of the number.
#[verifier::external_body]
fn human_size(bytes: u64) -> (text: String)
    ensures
        text@ == size_text(bytes as int),
{
    Size::from_bytes(bytes).format().with_base(Base::Base10).to_string()
}

/// Writes a span of time, given as its whole seconds and whole milliseconds,
/// in short.
pub fn condense_parts(seconds: u64, millis: u128) -> (text: String)
    ensures
        text@ == condensed(seconds, millis),
{
    if seconds == 0 {
        let mut text = decimal_string(millis);
        text.append(" ms");
        text
    } else if seconds > 60 {
        let mut text = decimal_string((seconds / 60) as u128);
        text.append(" m");
        text
    } else {
        let mut text = decimal_string(seconds as u128);
        text.append(" s");
        text
    }
}

/// Writes a span of time in short.
pub fn condense_duration(duration: Duration) -> (text: String)
    ensures
        text@ == condensed(duration_seconds(duration), duration_millis(duration)),
{
    condense_parts(whole_seconds(&duration), whole_millis(&duration))
}

/// Writes a number of bytes for a reader.
pub fn readable_size(bytes: u64) -> (text: String)
    ensures
        text@ == size_text(bytes as int),
{
    human_size(bytes)
}

/// A status that tells nothing.
pub open spec fn empty_status() -> StatusView {
    StatusView { downloaded: None, removed: None, elapsed: None }
}

/// The first report of a run: the cache is being checked, nothing is done.
pub open spec fn checking_alert(service: ImageService) -> AlertView {
    AlertView {
        title: service_title(service),
        body: "Checking cache"@,
        percent: Completion { done: 0, total: 1 },
        severity: NotificationSeverity::Info,
        status: empty_status(),
    }
}

/// The report of a run that turns to the feed for its item list.
pub open spec fn fetching_alert(before: AlertView, service: ImageService) -> AlertView {
    AlertView { body: "Fetching data from "@ + service_name(service), ..before }
}

/// The part of a run that is done once the item at `index` is processed:
/// the steps before the items and the items before this one, out of all
/// steps and items.
pub open spec fn processed_percent(index: nat, total_steps: u64, total_images: nat) -> Completion {
    Completion {
        done: (total_steps + index) as u128,
        total: (total_steps + total_images) as u128,
    }
}

/// The report of a run that has processed the item called `label`.
pub open spec fn processed_alert(
    before: AlertView,
    label: Seq<char>,
    index: nat,
    total_steps: u64,
    total_images: nat,
) -> AlertView {
    AlertView {
        body: "Processed "@ + label,
        percent: processed_percent(index, total_steps, total_images),
        ..before
    }
}

/// The report of a run that failed: the error and its first cause on two
/// lines, complete, and marked as an error.
pub open spec fn error_alert(service: ImageService, message: Seq<char>, cause: Seq<char>) ->
    AlertView {
    AlertView {
        title: service_title(service),
        body: message + seq!['\n'] + cause,
        percent: Completion { done: 1, total: 1 },
        severity: NotificationSeverity::Error,
        status: empty_status(),
    }
}

/// The last report of a run, complete. Where something was downloaded it
/// counts the images fetched among all, and tells the amount downloaded,
/// the files removed and the time taken. Where nothing was, it says that the
/// cache was up to date, and tells the time taken.
pub open spec fn finished_alert(
    before: AlertView,
    downloaded: u64,
    updated_images: u64,
    total_images: nat,
    removed: u64,
    elapsed: Seq<char>,
) -> AlertView {
    if downloaded > 0 {
        AlertView {
            body: "Cached "@ + decimal(updated_images as nat) + seq!['/'] + decimal(total_images)
                + " images"@,
            percent: Completion { done: 1, total: 1 },
            status: StatusView {
                downloaded: Some(size_text(downloaded as int)),
                removed: Some(removed),
                elapsed: Some(elapsed),
            },
            ..before
        }
    } else {
        AlertView {
            body: "Cache is already updated"@,
            percent: Completion { done: 1, total: 1 },
            status: StatusView { downloaded: None, removed: None, elapsed: Some(elapsed) },
            ..before
        }
    }
}

/// The first report of a run.
pub fn new_checking_alert(service: &ImageService) -> (alert: NotificationAlert)
    ensures
        alert@ == checking_alert(*service),
        alert@.percent.wf(),
{
    NotificationAlert {
        title: get_service_title(service),
        body: String::from_str("Checking cache"),
        percent: Completion::none(),
        severity: NotificationSeverity::Info,
        status: NotificationStatus::default(),
    }
}

/// Turns the report of a run into the one that says the feed is asked.
pub fn set_fetching(alert: &mut NotificationAlert, service: &ImageService)
    ensures
        final(alert)@ == fetching_alert(old(alert)@, *service),
{
    let mut body = String::from_str("Fetching data from ");
    body.append(service.as_str());
    alert.body = body;
}

/// Turns the report of a run into the one that says an item is processed.
pub fn set_processed(
    alert: &mut NotificationAlert,
    label: &str,
    index: usize,
    total_steps: u64,
    total_images: usize,
)
    requires
        index < total_images,
    ensures
        final(alert)@ == processed_alert(
            old(alert)@,
            label@,
            index as nat,
            total_steps,
            total_images as nat,
        ),
        final(alert)@.percent.wf(),
{
    let mut body = String::from_str("Processed ");
    body.append(label);
    alert.body = body;
    alert.percent = Completion {
        done: total_steps as u128 + index as u128,
        total: total_steps as u128 + total_images as u128,
    };
}

/// The report of a run that failed.
pub fn new_error_alert(service: &ImageService, message: &str, cause: &str) -> (alert:
    NotificationAlert)
    ensures
        alert@ == error_alert(*service, message@, cause@),
        alert@.percent.wf(),
{
    let mut body = String::from_str(message);
    proof {
        reveal_strlit("\n");
    }
    body.append("\n");
    body.append(cause);
    assert(body@ =~= message@ + seq!['\n'] + cause@);
    NotificationAlert {
        title: get_service_title(service),
        body,
        percent: Completion::full(),
        severity: NotificationSeverity::Error,
        status: NotificationStatus::default(),
    }
}

/// Turns the report of a run into its last one.
pub fn set_finished(
    alert: &mut NotificationAlert,
    downloaded: u64,
    updated_images: u64,
    total_images: usize,
    removed: u64,
    elapsed: String,
)
    ensures
        final(alert)@ == finished_alert(
            old(alert)@,
            downloaded,
            updated_images,
            total_images as nat,
            removed,
            elapsed@,
        ),
        final(alert)@.percent.wf(),
{
    alert.percent = Completion::full();
    if downloaded > 0 {
        let mut body = String::from_str("Cached ");
        body.append(decimal_string(updated_images as u128).as_str());
        proof {
            reveal_strlit("/");
        }
        body.append("/");
        body.append(decimal_string(total_images as u128).as_str());
        body.append(" images");
        assert(body@ =~= "Cached "@ + decimal(updated_images as nat) + seq!['/'] + decimal(
            total_images as nat,
        ) + " images"@);
        alert.body = body;
        alert.status = NotificationStatus {
            downloaded: Some(readable_size(downloaded)),
            removed: Some(removed),
            elapsed: Some(elapsed),
        };
    } else {
        alert.body = String::from_str("Cache is already updated");
        alert.status = NotificationStatus { downloaded: None, removed: None, elapsed: Some(elapsed) };
    }
}

} // verus!
