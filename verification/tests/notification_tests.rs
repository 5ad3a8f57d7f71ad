use hub::notification::Completion;
use hub::notification::NotificationAlert;
use hub::notification::NotificationSeverity;
use hub::notification::NotificationStatus;
use hub::notification_center::NotificationActor;
use hub::notification_center::NotificationDismiss;
use hub::notification_center::NotificationDismissAll;
use hub::notification_center::NotificationEntry;
use hub::notification_center::NotificationRefresh;
use hub::notification_center::NotificationRequest;
use hub::notification_center::NotificationResults;
use hub::notification_center::NotificationUpdate;
use hub::notification_center::Notifications;

fn alert(title: &str, body: &str, done: u128, total: u128) -> NotificationAlert {
    NotificationAlert {
        title: title.to_string(),
        body: body.to_string(),
        percent: Completion { done, total },
        severity: NotificationSeverity::Info,
        status: NotificationStatus::default(),
    }
}

fn entry(key: &str, alert: NotificationAlert) -> NotificationEntry {
    NotificationEntry { key: key.to_string(), alert }
}

fn sorted(results: &NotificationResults) -> Vec<NotificationEntry> {
    let mut entries = results.notifications.clone();
    entries.sort_by(|a, b| a.key.cmp(&b.key));
    entries
}

fn sorted_pending(results: &NotificationResults) -> Vec<String> {
    let mut pending = results.pending.clone();
    pending.sort();
    pending
}

#[test]
fn completion_knows_when_it_is_complete() {
    assert!(!Completion::none().is_complete());
    assert!(Completion::full().is_complete());
    assert!(!Completion { done: 2, total: 3 }.is_complete());
    assert!(Completion { done: 3, total: 3 }.is_complete());
}

#[test]
fn alert_update_keeps_the_title() {
    let mut first = alert("Bing images", "Checking cache", 0, 1);
    let mut second = alert("other", "Processed 2024-01-05", 1, 4);
    second.severity = NotificationSeverity::Warning;
    second.status.removed = Some(3);
    first.update(second.clone());
    second.title = "Bing images".to_string();
    assert_eq!(first, second);
}

#[test]
fn alert_is_pending_below_the_whole() {
    assert!(alert("t", "b", 0, 1).is_pending());
    assert!(alert("t", "b", 14, 15).is_pending());
    assert!(!alert("t", "b", 1, 1).is_pending());
}

#[test]
fn a_new_title_is_filed_under_the_key() {
    let mut reports = Notifications::new();
    assert_eq!(reports.len(), 0);
    reports.update_at(alert("Bing images", "Checking cache", 0, 1), "k1".to_string());
    reports.update_at(alert("NASA images", "Checking cache", 0, 1), "k2".to_string());
    assert_eq!(reports.len(), 2);
    let results = reports.results();
    assert_eq!(
        sorted(&results),
        vec![
            entry("k1", alert("Bing images", "Checking cache", 0, 1)),
            entry("k2", alert("NASA images", "Checking cache", 0, 1)),
        ]
    );
    assert_eq!(sorted_pending(&results), vec!["k1".to_string(), "k2".to_string()]);
}

#[test]
fn a_pending_title_is_merged_in_place() {
    let mut reports = Notifications::new();
    reports.update_at(alert("Bing images", "Checking cache", 0, 1), "k1".to_string());
    reports.update_at(alert("Bing images", "Processed 2024-01-05", 1, 3), "k2".to_string());
    let results = reports.results();
    assert_eq!(sorted(&results), vec![entry("k1", alert("Bing images", "Processed 2024-01-05", 1, 3))]);
    assert_eq!(results.pending, vec!["k1".to_string()]);
}

#[test]
fn a_completed_title_is_replaced_by_the_next_report() {
    let mut reports = Notifications::new();
    reports.update_at(alert("Bing images", "Checking cache", 0, 1), "k1".to_string());
    reports.update_at(alert("Bing images", "Cache is already updated", 1, 1), "k2".to_string());
    let results = reports.results();
    assert_eq!(sorted(&results), vec![entry("k1", alert("Bing images", "Cache is already updated", 1, 1))]);
    assert!(results.pending.is_empty());
    reports.update_at(alert("Bing images", "Checking cache", 0, 1), "k3".to_string());
    let results = reports.results();
    assert_eq!(sorted(&results), vec![entry("k3", alert("Bing images", "Checking cache", 0, 1))]);
    assert_eq!(results.pending, vec!["k3".to_string()]);
    assert_eq!(reports.len(), 1);
}

#[test]
fn a_report_asked_under_a_used_key_is_filed_under_a_free_one() {
    let mut actor = NotificationActor::new();
    actor.handle_update_at(NotificationUpdate(alert("Bing images", "Checking cache", 0, 1)), "k1".to_string());
    let results = actor.handle_update_at(
        NotificationUpdate(alert("NASA images", "Checking cache", 0, 1)),
        "k1".to_string(),
    );
    assert_eq!(
        sorted(&results),
        vec![
            entry("k1", alert("Bing images", "Checking cache", 0, 1)),
            entry("k1~", alert("NASA images", "Checking cache", 0, 1)),
        ]
    );
    assert_eq!(sorted_pending(&results), vec!["k1".to_string(), "k1~".to_string()]);
}

#[test]
fn fresh_key_is_the_wanted_key_or_one_longer_than_every_key() {
    let mut reports = Notifications::new();
    assert_eq!(reports.fresh_key("a".to_string()), "a");
    reports.update_at(alert("one", "", 0, 1), "a".to_string());
    reports.update_at(alert("two", "", 0, 1), "abcd".to_string());
    assert_eq!(reports.fresh_key("zz".to_string()), "zz");
    assert_eq!(reports.fresh_key("a".to_string()), "a~~~~");
    assert_eq!(reports.fresh_key("abcd".to_string()), "abcd~");
    let key = reports.fresh_key("a".to_string());
    reports.update_at(alert("three", "", 0, 1), key);
    assert_eq!(reports.len(), 3);
    assert_eq!(reports.fresh_key("a".to_string()), "a~~~~~");
}

#[test]
fn a_completed_entry_is_retired_and_the_others_stay() {
    let mut actor = NotificationActor::new();
    actor.handle_update_at(NotificationUpdate(alert("NASA images", "b", 1, 2)), "k0".to_string());
    actor.handle_update_at(NotificationUpdate(alert("Bing images", "done", 1, 1)), "k1".to_string());
    let mut next = alert("Bing images", "Checking cache", 0, 1);
    next.severity = NotificationSeverity::Warning;
    next.status.elapsed = Some("1 s".to_string());
    let results = actor.handle_update_at(NotificationUpdate(next.clone()), "k2".to_string());
    assert_eq!(sorted(&results), vec![entry("k0", alert("NASA images", "b", 1, 2)), entry("k2", next)]);
    assert_eq!(sorted_pending(&results), vec!["k0".to_string(), "k2".to_string()]);
}

#[test]
fn the_mailbox_takes_every_kind_of_request() {
    let mut actor = NotificationActor::new();
    let results = actor
        .handle(NotificationRequest::Update(NotificationUpdate(alert("Bing images", "a", 0, 1))))
        .unwrap();
    assert_eq!(results.notifications.len(), 1);
    let key = results.notifications[0].key.clone();
    let again = actor.handle(NotificationRequest::Refresh(NotificationRefresh)).unwrap();
    assert_eq!(again.notifications, results.notifications);
    assert_eq!(again.pending, vec![key.clone()]);
    assert!(actor
        .handle(NotificationRequest::Dismiss(NotificationDismiss { timestamp: "nope".to_string() }))
        .is_none());
    let gone = actor.handle(NotificationRequest::Dismiss(NotificationDismiss { timestamp: key })).unwrap();
    assert!(gone.notifications.is_empty());
    assert!(gone.pending.is_empty());
}

#[test]
fn the_mailbox_dismisses_all_of_two_pending_and_one_completed() {
    let mut actor = NotificationActor::new();
    actor.handle_update_at(NotificationUpdate(alert("Bing images", "a", 0, 1)), "k1".to_string());
    actor.handle_update_at(NotificationUpdate(alert("NASA images", "b", 1, 2)), "k2".to_string());
    actor.handle_update_at(NotificationUpdate(alert("Windows Spotlight images", "c", 1, 1)), "k3".to_string());
    let results = actor.handle(NotificationRequest::DismissAll(NotificationDismissAll)).unwrap();
    assert!(results.notifications.is_empty());
    assert!(results.pending.is_empty());
    let after = actor.handle(NotificationRequest::Refresh(NotificationRefresh)).unwrap();
    assert!(after.notifications.is_empty());
    assert!(after.pending.is_empty());
}

#[test]
fn dismiss_removes_exactly_that_entry() {
    let mut reports = Notifications::new();
    reports.update_at(alert("Bing images", "a", 0, 1), "k1".to_string());
    reports.update_at(alert("NASA images", "b", 1, 1), "k2".to_string());
    assert!(!reports.dismiss(&"k3".to_string()));
    assert_eq!(reports.len(), 2);
    assert!(reports.dismiss(&"k1".to_string()));
    assert_eq!(sorted(&reports.results()), vec![entry("k2", alert("NASA images", "b", 1, 1))]);
    assert!(reports.get_pending().is_empty());
    assert!(!reports.dismiss(&"k1".to_string()));
}

#[test]
fn get_pending_lists_the_keys_below_the_whole() {
    let mut reports = Notifications::new();
    reports.update_at(alert("a", "", 0, 1), "k1".to_string());
    reports.update_at(alert("b", "", 1, 1), "k2".to_string());
    reports.update_at(alert("c", "", 2, 3), "k3".to_string());
    let mut pending = reports.get_pending();
    pending.sort();
    assert_eq!(pending, vec!["k1".to_string(), "k3".to_string()]);
}

#[test]
fn dismiss_all_on_two_pending_and_one_completed() {
    let mut actor = NotificationActor::new();
    actor.handle_update_at(NotificationUpdate(alert("Bing images", "a", 0, 1)), "k1".to_string());
    actor.handle_update_at(NotificationUpdate(alert("NASA images", "b", 1, 2)), "k2".to_string());
    let before = actor.handle_update_at(
        NotificationUpdate(alert("Windows Spotlight images", "c", 1, 1)),
        "k3".to_string(),
    );
    assert_eq!(before.notifications.len(), 3);
    assert_eq!(sorted_pending(&before), vec!["k1".to_string(), "k2".to_string()]);
    let results = actor.handle_dismiss_all(NotificationDismissAll);
    assert!(results.notifications.is_empty());
    assert!(results.pending.is_empty());
    let after = actor.handle_refresh(NotificationRefresh);
    assert!(after.notifications.is_empty());
    assert!(after.pending.is_empty());
}

#[test]
fn actor_refresh_publishes_without_change() {
    let mut actor = NotificationActor::new();
    let first = actor.handle_update_at(NotificationUpdate(alert("Bing images", "a", 0, 1)), "k1".to_string());
    let again = actor.handle_refresh(NotificationRefresh);
    assert_eq!(first.notifications, again.notifications);
    assert_eq!(first.pending, again.pending);
}

#[test]
fn actor_dismiss_publishes_only_when_something_went() {
    let mut actor = NotificationActor::new();
    actor.handle_update_at(NotificationUpdate(alert("Bing images", "a", 0, 1)), "k1".to_string());
    assert!(actor.handle_dismiss(NotificationDismiss { timestamp: "nope".to_string() }).is_none());
    let results = actor.handle_dismiss(NotificationDismiss { timestamp: "k1".to_string() }).unwrap();
    assert!(results.notifications.is_empty());
    assert!(results.pending.is_empty());
}

#[test]
fn actor_update_files_under_a_timestamp() {
    let mut actor = NotificationActor::new();
    let results = actor.handle_update(NotificationUpdate(alert("Bing images", "a", 0, 1)));
    assert_eq!(results.notifications.len(), 1);
    let key = results.notifications[0].key.clone();
    assert!(chrono::DateTime::parse_from_rfc3339(&key).is_ok());
    assert_eq!(key.len(), "2024-01-05T10:20:30.123+00:00".len());
    assert_eq!(results.pending, vec![key.clone()]);
    let merged = actor.handle_update(NotificationUpdate(alert("Bing images", "b", 1, 2)));
    assert_eq!(merged.notifications, vec![entry(&key, alert("Bing images", "b", 1, 2))]);
}
