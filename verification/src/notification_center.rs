//! The collection of progress reports that every run writes to, and the
//! operations that keep at most one report per title in it.

use chrono::SecondsFormat;
use chrono::Utc;
use vstd::prelude::*;

use crate::notification::AlertView;
use crate::notification::NotificationAlert;

verus! {

/// The reports by key, as the collection is seen from outside.
pub type AlertMap = Map<Seq<char>, AlertView>;

/// A report together with the key it is filed under.
#[derive(Debug, PartialEq, Eq)]
pub struct NotificationEntry {
    pub key: String,
    pub alert: NotificationAlert,
}

/// The content of a [`NotificationEntry`].
pub ghost struct EntryView {
    pub key: Seq<char>,
    pub alert: AlertView,
}

impl View for NotificationEntry {
    type V = EntryView;

    open spec fn view(&self) -> EntryView {
        EntryView { key: self.key@, alert: self.alert@ }
    }
}

impl Clone for NotificationEntry {
    fn clone(&self) -> (copy: NotificationEntry)
        ensures
            copy@ == self@,
    {
        NotificationEntry { key: self.key.clone(), alert: self.alert.clone() }
    }
}

/// The contents of a list of entries.
pub open spec fn entry_views(entries: Seq<NotificationEntry>) -> Seq<EntryView> {
    entries.map_values(|e: NotificationEntry| e@)
}

/// Whether some entry of the list is filed under `key`.
pub open spec fn has_key(entries: Seq<EntryView>, key: Seq<char>) -> bool {
    exists|i: int| 0 <= i < entries.len() && #[trigger] entries[i].key == key
}

/// The place of an entry filed under `key`.
pub open spec fn index_of_key(entries: Seq<EntryView>, key: Seq<char>) -> int {
    choose|i: int| 0 <= i < entries.len() && #[trigger] entries[i].key == key
}

/// No two entries of the list share a key.
pub open spec fn distinct_keys(entries: Seq<EntryView>) -> bool {
    forall|i: int, j: int|
        0 <= i < j < entries.len() ==> #[trigger] entries[i].key != #[trigger] entries[j].key
}

/// The map from key to report that a list of entries stands for.
pub open spec fn map_of(entries: Seq<EntryView>) -> AlertMap {
    Map::new(
        |key: Seq<char>| has_key(entries, key),
        |key: Seq<char>| entries[index_of_key(entries, key)].alert,
    )
}

/// No two reports of the map share a title.
pub open spec fn titles_distinct(reports: AlertMap) -> bool {
    forall|first: Seq<char>, second: Seq<char>|
        reports.dom().contains(first) && reports.dom().contains(second) && #[trigger] reports[first].title
            == #[trigger] reports[second].title ==> first == second
}

/// Whether a report with this title is in the map.
pub open spec fn has_title(reports: AlertMap, title: Seq<char>) -> bool {
    exists|key: Seq<char>| reports.dom().contains(key) && #[trigger] reports[key].title == title
}

/// The key of a report with this title.
pub open spec fn key_of_title(reports: AlertMap, title: Seq<char>) -> Seq<char> {
    choose|key: Seq<char>| reports.dom().contains(key) && #[trigger] reports[key].title == title
}

/// The map after a report has arrived, where `key` is the key a new entry
/// would be filed under.
///
/// A report whose title is still pending in the map is folded into that
/// entry. One whose title is there but complete takes the place of that
/// entry, under the new key. Any other report is filed under the new key.
pub open spec fn updated(reports: AlertMap, alert: AlertView, key: Seq<char>) -> AlertMap {
    if has_title(reports, alert.title) {
        let held = key_of_title(reports, alert.title);
        if reports[held].pending() {
            reports.insert(held, reports[held].merged(alert))
        } else {
            reports.remove(held).insert(key, alert)
        }
    } else {
        reports.insert(key, alert)
    }
}

/// Whether no key of the map is longer than `length`.
pub open spec fn keys_at_most(reports: AlertMap, length: nat) -> bool {
    forall|key: Seq<char>| reports.dom().contains(key) ==> (#[trigger] key.len()) <= length
}

/// Whether `length` is the length of the longest key of the map: 0 where
/// the map has no key.
pub open spec fn is_longest_key(reports: AlertMap, length: nat) -> bool {
    &&& keys_at_most(reports, length)
    &&& length == 0 || exists|key: Seq<char>|
        reports.dom().contains(key) && (#[trigger] key.len()) == length
}

/// The length of the longest key of the map.
pub open spec fn longest_key(reports: AlertMap) -> nat {
    choose|length: nat| is_longest_key(reports, length)
}

/// A run of `count` tildes.
pub open spec fn tildes(count: nat) -> Seq<char> {
    Seq::new(count, |i: int| '~')
}

/// The key that a new entry is filed under when `wanted` is asked for:
/// `wanted` itself where it is free, and otherwise `wanted` with so many
/// tildes behind it that it is longer than every key of the map.
pub open spec fn fresh_key(reports: AlertMap, wanted: Seq<char>) -> Seq<char> {
    if reports.dom().contains(wanted) {
        wanted + tildes((longest_key(reports) - wanted.len() + 1) as nat)
    } else {
        wanted
    }
}

/// A map has one longest key length at most.
pub proof fn lemma_longest_key_is_one(reports: AlertMap, first: nat, second: nat)
    requires
        is_longest_key(reports, first),
        is_longest_key(reports, second),
    ensures
        first == second,
{
    if first < second {
        let key = choose|key: Seq<char>|
            reports.dom().contains(key) && (#[trigger] key.len()) == second;
        assert(key.len() <= first);
    }
    if second < first {
        let key = choose|key: Seq<char>|
            reports.dom().contains(key) && (#[trigger] key.len()) == first;
        assert(key.len() <= second);
    }
}

/// Where a map has a longest key, the key a new entry is filed under is not
/// a key of the map.
pub proof fn lemma_fresh_key_is_free(reports: AlertMap, wanted: Seq<char>, length: nat)
    requires
        is_longest_key(reports, length),
    ensures
        !reports.dom().contains(fresh_key(reports, wanted)),
{
    lemma_longest_key_is_one(reports, length, longest_key(reports));
    if reports.dom().contains(wanted) {
        assert(wanted.len() <= length);
        let key = fresh_key(reports, wanted);
        assert(key.len() == length + 1);
        if reports.dom().contains(key) {
            assert(key.len() <= length);
        }
    }
}

/// The keys of the reports that are still pending.
pub open spec fn pending_keys(reports: AlertMap) -> Set<Seq<char>> {
    Set::new(|key: Seq<char>| reports.dom().contains(key) && reports[key].pending())
}

/// An entry of a list without repeated keys is found in the list's map.
pub proof fn lemma_map_of_entry(entries: Seq<EntryView>, i: int)
    requires
        distinct_keys(entries),
        0 <= i < entries.len(),
    ensures
        map_of(entries).dom().contains(entries[i].key),
        map_of(entries)[entries[i].key] == entries[i].alert,
        index_of_key(entries, entries[i].key) == i,
{
    let key = entries[i].key;
    assert(has_key(entries, key));
    let j = index_of_key(entries, key);
    assert(0 <= j < entries.len() && entries[j].key == key);
    if j < i {
        assert(entries[j].key != entries[i].key);
    }
    if i < j {
        assert(entries[i].key != entries[j].key);
    }
}

/// Adding an entry under a key that is not in the list adds it to the map.
pub proof fn lemma_map_of_push(entries: Seq<EntryView>, entry: EntryView)
    requires
        distinct_keys(entries),
        !has_key(entries, entry.key),
    ensures
        distinct_keys(entries.push(entry)),
        map_of(entries.push(entry)) == map_of(entries).insert(entry.key, entry.alert),
{
    let longer = entries.push(entry);
    assert forall|i: int, j: int| 0 <= i < j < longer.len() implies #[trigger] longer[i].key
        != #[trigger] longer[j].key by {
        if j == entries.len() {
            assert(longer[i] == entries[i]);
            if longer[i].key == entry.key {
                assert(has_key(entries, entry.key));
            }
        } else {
            assert(entries[i].key != entries[j].key);
        }
    }
    assert forall|key: Seq<char>| has_key(longer, key) <==> (key == entry.key || has_key(
        entries,
        key,
    )) by {
        if has_key(longer, key) {
            let i = index_of_key(longer, key);
            if i < entries.len() {
                assert(entries[i].key == key);
            }
        }
        if key == entry.key {
            assert(longer[entries.len() as int].key == key);
        }
        if has_key(entries, key) {
            let i = index_of_key(entries, key);
            assert(longer[i].key == key);
        }
    }
    assert forall|key: Seq<char>| has_key(longer, key) implies #[trigger] map_of(longer)[key]
        == map_of(entries).insert(entry.key, entry.alert)[key] by {
        let i = index_of_key(longer, key);
        lemma_map_of_entry(longer, i);
        if i < entries.len() {
            assert(longer[i] == entries[i]);
            lemma_map_of_entry(entries, i);
        }
    }
    assert(map_of(longer) =~= map_of(entries).insert(entry.key, entry.alert));
}

/// Taking an entry out of the list takes its key out of the map.
pub proof fn lemma_map_of_remove(entries: Seq<EntryView>, i: int)
    requires
        distinct_keys(entries),
        0 <= i < entries.len(),
    ensures
        distinct_keys(entries.remove(i)),
        !has_key(entries.remove(i), entries[i].key),
        map_of(entries.remove(i)) == map_of(entries).remove(entries[i].key),
{
    let shorter = entries.remove(i);
    assert forall|a: int| 0 <= a < shorter.len() implies #[trigger] shorter[a] == entries[if a
        < i {
        a
    } else {
        a + 1
    }] by {}
    assert forall|a: int, b: int| 0 <= a < b < shorter.len() implies #[trigger] shorter[a].key
        != #[trigger] shorter[b].key by {
        let a0 = if a < i { a } else { a + 1 };
        let b0 = if b < i { b } else { b + 1 };
        assert(entries[a0].key != entries[b0].key);
    }
    assert forall|key: Seq<char>| has_key(shorter, key) <==> (key != entries[i].key && has_key(
        entries,
        key,
    )) by {
        if has_key(shorter, key) {
            let a = index_of_key(shorter, key);
            let a0 = if a < i { a } else { a + 1 };
            assert(entries[a0].key == key);
            if a0 < i {
                assert(entries[a0].key != entries[i].key);
            } else {
                assert(entries[i].key != entries[a0].key);
            }
        }
        if key != entries[i].key && has_key(entries, key) {
            let a0 = index_of_key(entries, key);
            let a = if a0 < i { a0 } else { a0 - 1 };
            assert(shorter[a].key == key);
        }
    }
    assert forall|key: Seq<char>| has_key(shorter, key) implies #[trigger] map_of(shorter)[key]
        == map_of(entries)[key] by {
        let a = index_of_key(shorter, key);
        lemma_map_of_entry(shorter, a);
        let a0 = if a < i { a } else { a + 1 };
        lemma_map_of_entry(entries, a0);
    }
    assert(map_of(shorter) =~= map_of(entries).remove(entries[i].key));
}

/// Replacing the report of an entry replaces it in the map.
pub proof fn lemma_map_of_update(entries: Seq<EntryView>, i: int, alert: AlertView)
    requires
        distinct_keys(entries),
        0 <= i < entries.len(),
    ensures
        distinct_keys(entries.update(i, EntryView { key: entries[i].key, alert })),
        map_of(entries.update(i, EntryView { key: entries[i].key, alert })) == map_of(
            entries,
        ).insert(entries[i].key, alert),
{
    let changed = entries.update(i, EntryView { key: entries[i].key, alert });
    assert forall|a: int| 0 <= a < changed.len() implies #[trigger] changed[a].key
        == entries[a].key by {}
    assert forall|a: int, b: int| 0 <= a < b < changed.len() implies #[trigger] changed[a].key
        != #[trigger] changed[b].key by {
        assert(entries[a].key != entries[b].key);
    }
    assert forall|key: Seq<char>| has_key(changed, key) <==> has_key(entries, key) by {
        if has_key(changed, key) {
            let a = index_of_key(changed, key);
            assert(entries[a].key == key);
        }
        if has_key(entries, key) {
            let a = index_of_key(entries, key);
            assert(changed[a].key == key);
        }
    }
    assert(has_key(entries, entries[i].key));
    assert forall|key: Seq<char>| has_key(changed, key) implies #[trigger] map_of(changed)[key]
        == map_of(entries).insert(entries[i].key, alert)[key] by {
        let a = index_of_key(changed, key);
        lemma_map_of_entry(changed, a);
        lemma_map_of_entry(entries, a);
    }
    assert(map_of(changed) =~= map_of(entries).insert(entries[i].key, alert));
}

/// A request to file a report.
#[derive(Debug)]
pub struct NotificationUpdate(pub NotificationAlert);

/// A request to publish the collection as it stands.
#[derive(Debug, Clone, Copy, PartialEq, Eq, Structural)]
pub struct NotificationRefresh;

/// A request to take the entry under `timestamp` out of the collection.
#[derive(Debug)]
pub struct NotificationDismiss {
    pub timestamp: String,
}

/// A request to empty the collection.
#[derive(Debug, Clone, Copy, PartialEq, Eq, Structural)]
pub struct NotificationDismissAll;

/// A request to the owner of the collection.
#[derive(Debug)]
pub enum NotificationRequest {
    Update(NotificationUpdate),
    Refresh(NotificationRefresh),
    Dismiss(NotificationDismiss),
    DismissAll(NotificationDismissAll),
}

/// The collection as it is published: every entry, and the keys of those
/// that are still pending.
#[derive(Debug)]
pub struct NotificationResults {
    pub notifications: Vec<NotificationEntry>,
    pub pending: Vec<String>,
}

/// The characters of each text of a list.
pub open spec fn text_views(texts: Seq<String>) -> Seq<Seq<char>> {
    texts.map_values(|t: String| t@)
}

impl NotificationResults {
    /// The published entries as a map from key to report.
    pub open spec fn reports(self) -> AlertMap {
        map_of(entry_views(self.notifications@))
    }

    /// The published keys of pending reports.
    pub open spec fn pending(self) -> Seq<Seq<char>> {
        text_views(self.pending@)
    }

    /// What is published shows the map `reports`: the same entries, each key
    /// once, and the keys of the pending reports, each once.
    pub open spec fn shows(self, reports: AlertMap) -> bool {
        &&& distinct_keys(entry_views(self.notifications@))
        &&& self.reports() == reports
        &&& self.pending().no_duplicates()
        &&& self.pending().to_set() == pending_keys(reports)
    }
}

/// The reports of all runs, each under the key it was filed with.
#[derive(Debug)]
pub struct Notifications {
    entries: Vec<NotificationEntry>,
}

impl View for Notifications {
    type V = AlertMap;

    closed spec fn view(&self) -> AlertMap {
        map_of(entry_views(self.entries@))
    }
}

impl Notifications {
    /// No key is used twice, and no title is reported twice.
    pub closed spec fn wf(self) -> bool {
        &&& distinct_keys(entry_views(self.entries@))
        &&& titles_distinct(self@)
    }

    /// What a well-formed collection promises about its map.
    pub proof fn lemma_wf(self)
        requires
            self.wf(),
        ensures
            titles_distinct(self@),
            self@.dom().finite(),
    {
        let entries = entry_views(self.entries@);
        lemma_map_of_finite(entries);
    }

    /// An empty collection.
    pub fn new() -> (notifications: Notifications)
        ensures
            notifications.wf(),
            notifications@ == Map::<Seq<char>, AlertView>::empty(),
    {
        let notifications = Notifications { entries: Vec::new() };
        assert(notifications@ =~= Map::<Seq<char>, AlertView>::empty());
        notifications
    }

    /// The number of reports held.
    pub fn len(&self) -> (count: usize)
        requires
            self.wf(),
        ensures
            count == self@.len(),
            self@.dom().finite(),
    {
        proof {
            lemma_map_of_len(entry_views(self.entries@));
        }
        self.entries.len()
    }

    /// The place of the entry filed under `key`, if there is one.
    fn position_of_key(&self, key: &String) -> (place: Option<usize>)
        ensures
            match place {
                Some(i) => i < self.entries@.len() && self.entries@[i as int].key@ == key@,
                None => !has_key(entry_views(self.entries@), key@),
            },
    {
        let ghost entries = entry_views(self.entries@);
        let mut i: usize = 0;
        while i < self.entries.len()
            invariant
                i <= self.entries@.len(),
                entries == entry_views(self.entries@),
                forall|j: int| 0 <= j < i ==> (#[trigger] entries[j]).key != key@,
            decreases self.entries@.len() - i,
        {
            if self.entries[i].key == *key {
                return Some(i);
            }
            assert(entries[i as int].key == self.entries@[i as int].key@);
            i = i + 1;
        }
        None
    }

    /// The place of the entry whose report has this title, if there is one.
    fn position_of_title(&self, title: &String) -> (place: Option<usize>)
        ensures
            match place {
                Some(i) => i < self.entries@.len() && self.entries@[i as int].alert.title@
                    == title@,
                None => forall|j: int|
                    0 <= j < self.entries@.len() ==> (#[trigger] self.entries@[j]).alert.title@
                        != title@,
            },
    {
        let mut i: usize = 0;
        while i < self.entries.len()
            invariant
                i <= self.entries@.len(),
                forall|j: int|
                    0 <= j < i ==> (#[trigger] self.entries@[j]).alert.title@ != title@,
            decreases self.entries@.len() - i,
        {
            if self.entries[i].alert.title == *title {
                return Some(i);
            }
            i = i + 1;
        }
        None
    }

    /// Files `alert` under `key`, a key that is free.
    fn put(&mut self, key: String, alert: NotificationAlert)
        requires
            old(self).wf(),
            !has_title(old(self)@, alert@.title),
            !old(self)@.dom().contains(key@),
        ensures
            final(self).wf(),
            final(self)@ == old(self)@.insert(key@, alert@),
    {
        let ghost before = entry_views(self.entries@);
        let ghost entry = EntryView { key: key@, alert: alert@ };
        self.entries.push(NotificationEntry { key, alert });
        proof {
            assert(!has_key(before, entry.key));
            assert(entry_views(self.entries@) =~= before.push(entry));
            lemma_map_of_push(before, entry);
            assert forall|first: Seq<char>, second: Seq<char>|
                self@.dom().contains(first) && self@.dom().contains(second)
                    && #[trigger] self@[first].title == #[trigger] self@[second].title implies first
                == second by {
                if first != entry.key && second != entry.key {
                    assert(map_of(before)[first].title == map_of(before)[second].title);
                } else if first != entry.key {
                    assert(map_of(before)[first].title == entry.alert.title);
                } else if second != entry.key {
                    assert(map_of(before)[second].title == entry.alert.title);
                }
            }
        }
    }

    /// The length of the longest key held.
    fn longest_key_length(&self) -> (length: usize)
        requires
            self.wf(),
        ensures
            is_longest_key(self@, length as nat),
    {
        let ghost entries = entry_views(self.entries@);
        let mut length: usize = 0;
        let mut i: usize = 0;
        while i < self.entries.len()
            invariant
                i <= self.entries@.len(),
                entries == entry_views(self.entries@),
                forall|j: int| 0 <= j < i ==> (#[trigger] entries[j]).key.len() <= length,
                length == 0 || exists|j: int|
                    0 <= j < i && (#[trigger] entries[j]).key.len() == length,
            decreases self.entries@.len() - i,
        {
            let here = self.entries[i].key.as_str().unicode_len();
            assert(entries[i as int].key.len() == here);
            if here > length {
                length = here;
            }
            i = i + 1;
        }
        proof {
            assert forall|key: Seq<char>| self@.dom().contains(key) implies (#[trigger] key.len())
                <= length by {
                let j = index_of_key(entries, key);
                assert(entries[j].key == key);
            }
            if length != 0 {
                let j = choose|j: int|
                    0 <= j < i && (#[trigger] entries[j]).key.len() == length;
                lemma_map_of_entry(entries, j);
                assert(self@.dom().contains(entries[j].key) && entries[j].key.len() == length);
            }
        }
        length
    }

    /// The key to file a new entry under when `wanted` is asked for: a key
    /// that is free.
    pub fn fresh_key(&self, wanted: String) -> (key: String)
        requires
            self.wf(),
        ensures
            key@ == fresh_key(self@, wanted@),
            !self@.dom().contains(key@),
    {
        let longest = self.longest_key_length();
        proof {
            lemma_fresh_key_is_free(self@, wanted@, longest as nat);
            lemma_longest_key_is_one(self@, longest as nat, longest_key(self@));
        }
        match self.position_of_key(&wanted) {
            None => {
                return wanted;
            },
            Some(i) => {
                proof {
                    lemma_map_of_entry(entry_views(self.entries@), i as int);
                }
            },
        }
        let ghost asked = wanted@;
        let start = wanted.as_str().unicode_len();
        assert(self@.dom().contains(asked));
        assert(asked.len() <= longest);
        let mut key = wanted;
        let mut added: usize = 0;
        proof {
            reveal_strlit("~");
        }
        key.append("~");
        assert(key@ =~= asked + tildes(1));
        while added < longest - start
            invariant
                start == asked.len(),
                start <= longest,
                added <= longest - start,
                key@ == asked + tildes((added + 1) as nat),
                "~"@ == seq!['~'],
            decreases longest - start - added,
        {
            key.append("~");
            assert(key@ =~= asked + tildes((added + 2) as nat));
            added = added + 1;
        }
        key
    }

    /// Takes in a report, where `key` is the key for a new entry: a key
    /// that is free, so that the new entry takes no other entry's place.
    ///
    /// A report whose title is pending in the collection is folded into that
    /// entry, which keeps its key and title. One whose title is there but
    /// complete replaces that entry and is filed under `key`. Any other
    /// report is filed under `key`.
    pub fn update_at(&mut self, alert: NotificationAlert, key: String)
        requires
            old(self).wf(),
            !old(self)@.dom().contains(key@),
        ensures
            final(self).wf(),
            final(self)@ == updated(old(self)@, alert@, key@),
    {
        let ghost before = entry_views(self.entries@);
        let ghost reports = self@;
        match self.position_of_title(&alert.title) {
            Some(i) => {
                proof {
                    lemma_map_of_entry(before, i as int);
                    assert(before[i as int].alert.title == alert@.title);
                    assert(reports[before[i as int].key].title == alert@.title);
                    assert(has_title(reports, alert@.title));
                    assert(key_of_title(reports, alert@.title) == before[i as int].key);
                }
                if self.entries[i].alert.is_pending() {
                    let held_key = self.entries[i].key.clone();
                    let title = self.entries[i].alert.title.clone();
                    let merged = NotificationAlert {
                        title,
                        body: alert.body,
                        percent: alert.percent,
                        severity: alert.severity,
                        status: alert.status,
                    };
                    let ghost folded = merged@;
                    self.entries.set(i, NotificationEntry { key: held_key, alert: merged });
                    proof {
                        assert(folded == before[i as int].alert.merged(alert@));
                        lemma_map_of_update(before, i as int, folded);
                        assert(entry_views(self.entries@) =~= before.update(
                            i as int,
                            EntryView { key: before[i as int].key, alert: folded },
                        ));
                        let held = before[i as int].key;
                        assert(self@ == reports.insert(held, folded));
                        assert forall|first: Seq<char>, second: Seq<char>|
                            self@.dom().contains(first) && self@.dom().contains(second)
                                && #[trigger] self@[first].title
                                == #[trigger] self@[second].title implies first == second by {
                            assert(self@[first].title == reports[first].title);
                            assert(self@[second].title == reports[second].title);
                        }
                    }
                } else {
                    self.entries.remove(i);
                    proof {
                        lemma_map_of_remove(before, i as int);
                        assert(entry_views(self.entries@) =~= before.remove(i as int));
                        let held = before[i as int].key;
                        assert(self@ == reports.remove(held));
                        assert forall|first: Seq<char>, second: Seq<char>|
                            self@.dom().contains(first) && self@.dom().contains(second)
                                && #[trigger] self@[first].title
                                == #[trigger] self@[second].title implies first == second by {
                            assert(reports[first].title == reports[second].title);
                        }
                        if has_title(self@, alert@.title) {
                            let other = key_of_title(self@, alert@.title);
                            assert(reports[other].title == reports[held].title);
                        }
                    }
                    self.put(key, alert);
                }
            },
            None => {
                proof {
                    if has_title(reports, alert@.title) {
                        let held = key_of_title(reports, alert@.title);
                        let j = index_of_key(before, held);
                        lemma_map_of_entry(before, j);
                        assert(self.entries@[j].alert.title@ == alert@.title);
                    }
                }
                self.put(key, alert);
            },
        }
    }

    /// Takes the entry under `key` out, and says whether there was one.
    pub fn dismiss(&mut self, key: &String) -> (found: bool)
        requires
            old(self).wf(),
        ensures
            final(self).wf(),
            found == old(self)@.dom().contains(key@),
            final(self)@ == old(self)@.remove(key@),
    {
        let ghost before = entry_views(self.entries@);
        let ghost reports = self@;
        match self.position_of_key(key) {
            Some(i) => {
                self.entries.remove(i);
                proof {
                    lemma_map_of_entry(before, i as int);
                    lemma_map_of_remove(before, i as int);
                    assert(entry_views(self.entries@) =~= before.remove(i as int));
                    assert forall|first: Seq<char>, second: Seq<char>|
                        self@.dom().contains(first) && self@.dom().contains(second)
                            && #[trigger] self@[first].title
                            == #[trigger] self@[second].title implies first == second by {
                        assert(reports[first].title == reports[second].title);
                    }
                }
                true
            },
            None => {
                assert(self@ =~= reports.remove(key@));
                false
            },
        }
    }

    /// The keys of the reports that are still pending, each once.
    pub fn get_pending(&self) -> (pending: Vec<String>)
        requires
            self.wf(),
        ensures
            text_views(pending@).no_duplicates(),
            text_views(pending@).to_set() == pending_keys(self@),
    {
        let ghost entries = entry_views(self.entries@);
        let mut pending: Vec<String> = Vec::new();
        let mut i: usize = 0;
        while i < self.entries.len()
            invariant
                i <= self.entries@.len(),
                entries == entry_views(self.entries@),
                distinct_keys(entries),
                text_views(pending@).no_duplicates(),
                forall|key: Seq<char>|
                    #[trigger] text_views(pending@).contains(key) <==> exists|j: int|
                        0 <= j < i && (#[trigger] entries[j]).key == key && entries[j].alert.pending(),
            decreases self.entries@.len() - i,
        {
            let ghost found = text_views(pending@);
            if self.entries[i].alert.is_pending() {
                let key = self.entries[i].key.clone();
                pending.push(key);
                proof {
                    let key = entries[i as int].key;
                    assert(text_views(pending@) =~= found.push(key));
                    if found.contains(key) {
                        let j = choose|j: int|
                            0 <= j < i && (#[trigger] entries[j]).key == key
                                && entries[j].alert.pending();
                        assert(entries[j].key != entries[i as int].key);
                    }
                    assert forall|other: Seq<char>| #[trigger]
                        found.push(key).contains(other) <==> exists|j: int|
                            0 <= j < i + 1 && (#[trigger] entries[j]).key == other
                                && entries[j].alert.pending() by {
                        if found.push(key).contains(other) {
                            let at = choose|at: int|
                                0 <= at < found.push(key).len() && found.push(key)[at] == other;
                            if at < found.len() {
                                assert(found[at] == other);
                                assert(found.contains(other));
                            } else {
                                assert(entries[i as int].key == other);
                            }
                        }
                        if exists|j: int|
                            0 <= j < i + 1 && (#[trigger] entries[j]).key == other
                                && entries[j].alert.pending() {
                            let j = choose|j: int|
                                0 <= j < i + 1 && (#[trigger] entries[j]).key == other
                                    && entries[j].alert.pending();
                            if j < i {
                                assert(found.contains(other));
                                let at = choose|at: int| 0 <= at < found.len() && found[at] == other;
                                assert(found.push(key)[at] == other);
                            } else {
                                assert(found.push(key)[found.len() as int] == other);
                            }
                        }
                    }
                }
            } else {
                proof {
                    assert forall|other: Seq<char>| #[trigger]
                        found.contains(other) <==> exists|j: int|
                            0 <= j < i + 1 && (#[trigger] entries[j]).key == other
                                && entries[j].alert.pending() by {
                        if exists|j: int|
                            0 <= j < i + 1 && (#[trigger] entries[j]).key == other
                                && entries[j].alert.pending() {
                            let j = choose|j: int|
                                0 <= j < i + 1 && (#[trigger] entries[j]).key == other
                                    && entries[j].alert.pending();
                            assert(j < i);
                        }
                    }
                }
            }
            i = i + 1;
        }
        proof {
            let found = text_views(pending@);
            assert forall|key: Seq<char>| found.to_set().contains(key) <==> pending_keys(
                self@,
            ).contains(key) by {
                if found.contains(key) {
                    let j = choose|j: int|
                        0 <= j < i && (#[trigger] entries[j]).key == key
                            && entries[j].alert.pending();
                    lemma_map_of_entry(entries, j);
                }
                if pending_keys(self@).contains(key) {
                    let j = index_of_key(entries, key);
                    lemma_map_of_entry(entries, j);
                }
            }
            assert(found.to_set() =~= pending_keys(self@));
        }
        pending
    }

    /// The collection as it is published.
    pub fn results(&self) -> (results: NotificationResults)
        requires
            self.wf(),
        ensures
            results.shows(self@),
    {
        let mut notifications: Vec<NotificationEntry> = Vec::new();
        let mut i: usize = 0;
        while i < self.entries.len()
            invariant
                i <= self.entries@.len(),
                entry_views(notifications@) == entry_views(self.entries@).take(i as int),
            decreases self.entries@.len() - i,
        {
            let ghost copied = entry_views(notifications@);
            notifications.push(self.entries[i].clone());
            assert(entry_views(notifications@) =~= copied.push(self.entries@[i as int]@));
            assert(entry_views(self.entries@).take(i + 1) =~= entry_views(self.entries@).take(
                i as int,
            ).push(self.entries@[i as int]@));
            i = i + 1;
        }
        assert(entry_views(self.entries@).take(i as int) =~= entry_views(self.entries@));
        let pending = self.get_pending();
        NotificationResults { notifications, pending }
    }

    /// Takes every entry out.
    pub fn dismiss_all(&mut self)
        ensures
            final(self).wf(),
            final(self)@ == Map::<Seq<char>, AlertView>::empty(),
    {
        self.entries.clear();
        assert(self@ =~= Map::<Seq<char>, AlertView>::empty());
    }
}

/// The map of a list of entries has finitely many keys.
pub proof fn lemma_map_of_finite(entries: Seq<EntryView>)
    ensures
        map_of(entries).dom().finite(),
    decreases entries.len(),
{
    let keys = entries.map_values(|e: EntryView| e.key).to_set();
    vstd::seq_lib::seq_to_set_is_finite(entries.map_values(|e: EntryView| e.key));
    assert forall|key: Seq<char>| map_of(entries).dom().contains(key) implies keys.contains(
        key,
    ) by {
        let i = index_of_key(entries, key);
        assert(entries.map_values(|e: EntryView| e.key)[i] == key);
    }
    assert(map_of(entries).dom().subset_of(keys));
    vstd::set_lib::lemma_len_subset(map_of(entries).dom(), keys);
}

/// The map of a list without repeated keys has as many entries as the list.
pub proof fn lemma_map_of_len(entries: Seq<EntryView>)
    requires
        distinct_keys(entries),
    ensures
        map_of(entries).dom().finite(),
        map_of(entries).len() == entries.len(),
    decreases entries.len(),
{
    lemma_map_of_finite(entries);
    if entries.len() == 0 {
        assert(map_of(entries).dom() =~= Set::<Seq<char>>::empty());
    } else {
        let last = entries.last();
        let front = entries.drop_last();
        assert(entries =~= front.push(last));
        assert forall|i: int, j: int| 0 <= i < j < front.len() implies #[trigger] front[i].key
            != #[trigger] front[j].key by {
            assert(entries[i].key != entries[j].key);
        }
        if has_key(front, last.key) {
            let i = index_of_key(front, last.key);
            assert(entries[i].key != entries[entries.len() - 1].key);
        }
        lemma_map_of_push(front, last);
        lemma_map_of_len(front);
        assert(!map_of(front).dom().contains(last.key));
    }
}

/// Taking in a report keeps the titles of the map apart.
pub proof fn lemma_updated_titles_distinct(reports: AlertMap, alert: AlertView, key: Seq<char>)
    requires
        titles_distinct(reports),
    ensures
        titles_distinct(updated(reports, alert, key)),
{
    let after = updated(reports, alert, key);
    assert forall|first: Seq<char>, second: Seq<char>|
        after.dom().contains(first) && after.dom().contains(second) && #[trigger] after[first].title
            == #[trigger] after[second].title implies first == second by {
        if has_title(reports, alert.title) {
            let held = key_of_title(reports, alert.title);
            if reports[held].pending() {
                assert(after[first].title == reports[first].title);
                assert(after[second].title == reports[second].title);
            } else {
                if first != key && second != key {
                    assert(reports[first].title == reports[second].title);
                } else if first != key {
                    assert(reports[first].title == reports[held].title);
                } else if second != key {
                    assert(reports[second].title == reports[held].title);
                }
            }
        } else {
            if first != key && second != key {
                assert(reports[first].title == reports[second].title);
            } else if first != key {
                assert(reports[first].title == alert.title);
            } else if second != key {
                assert(reports[second].title == alert.title);
            }
        }
    }
}

/// After a report has been taken in, the map holds a report with its title,
/// and only one.
pub proof fn lemma_updated_has_title_once(reports: AlertMap, alert: AlertView, key: Seq<char>)
    requires
        titles_distinct(reports),
    ensures
        has_title(updated(reports, alert, key), alert.title),
        titles_distinct(updated(reports, alert, key)),
{
    let after = updated(reports, alert, key);
    lemma_updated_titles_distinct(reports, alert, key);
    if has_title(reports, alert.title) {
        let held = key_of_title(reports, alert.title);
        if reports[held].pending() {
            assert(after.dom().contains(held) && after[held].title == alert.title);
        } else {
            assert(after.dom().contains(key) && after[key].title == alert.title);
        }
    } else {
        assert(after.dom().contains(key) && after[key].title == alert.title);
    }
}

/// When a report that completes its work is followed by another report with
/// the same title, the second one is filed under its own key, unchanged, and
/// no other entry with that title is left: the completed one has gone.
pub proof fn lemma_completed_report_is_replaced(
    reports: AlertMap,
    first: AlertView,
    first_key: Seq<char>,
    second: AlertView,
    second_key: Seq<char>,
)
    requires
        titles_distinct(reports),
        first.title == second.title,
        !first.pending(),
    ensures
        ({
            let after = updated(updated(reports, first, first_key), second, second_key);
            &&& after.dom().contains(second_key)
            &&& after[second_key] == second
            &&& forall|key: Seq<char>|
                after.dom().contains(key) && (#[trigger] after[key]).title == second.title ==> key
                    == second_key
        }),
{
    let between = updated(reports, first, first_key);
    let after = updated(between, second, second_key);
    lemma_updated_has_title_once(reports, first, first_key);
    let held = key_of_title(between, second.title);
    assert(between.dom().contains(held) && between[held].title == first.title);
    assert(!between[held].pending()) by {
        if has_title(reports, first.title) {
            let earlier = key_of_title(reports, first.title);
            if reports[earlier].pending() {
                assert(between.dom().contains(earlier) && between[earlier].title == first.title);
                assert(held == earlier);
            } else {
                assert(between.dom().contains(first_key) && between[first_key].title
                    == first.title);
                assert(held == first_key);
            }
        } else {
            assert(between.dom().contains(first_key) && between[first_key].title == first.title);
            assert(held == first_key);
        }
    }
    assert(after == between.remove(held).insert(second_key, second));
    assert forall|key: Seq<char>|
        after.dom().contains(key) && (#[trigger] after[key]).title == second.title implies key
        == second_key by {
        if key != second_key {
            assert(between.dom().contains(key) && between[key].title == between[held].title);
        }
    }
}

/// Where the one entry with a report's title is complete, taking the report
/// in under a free key retires that entry and files the report as it is:
/// the report is the one entry with its title, the map holds as many
/// entries as before, and the entries with other titles are what they were.
pub proof fn lemma_completed_entry_is_retired(
    reports: AlertMap,
    alert: AlertView,
    key: Seq<char>,
    held: Seq<char>,
)
    requires
        reports.dom().finite(),
        titles_distinct(reports),
        reports.dom().contains(held),
        reports[held].title == alert.title,
        !reports[held].pending(),
        !reports.dom().contains(key),
    ensures
        ({
            let after = updated(reports, alert, key);
            &&& after == reports.remove(held).insert(key, alert)
            &&& after.dom().contains(key)
            &&& after[key] == alert
            &&& !after.dom().contains(held)
            &&& forall|other: Seq<char>|
                after.dom().contains(other) && (#[trigger] after[other]).title == alert.title
                    ==> other == key
            &&& after.dom().finite()
            &&& after.len() == reports.len()
            &&& forall|other: Seq<char>|
                other != held && #[trigger] reports.dom().contains(other) ==> after.dom().contains(
                    other,
                ) && after[other] == reports[other]
            &&& forall|other: Seq<char>|
                other != key && #[trigger] after.dom().contains(other) ==> reports.dom().contains(
                    other,
                )
        }),
{
    let after = updated(reports, alert, key);
    assert(has_title(reports, alert.title));
    assert(key_of_title(reports, alert.title) == held);
    assert forall|other: Seq<char>|
        after.dom().contains(other) && (#[trigger] after[other]).title == alert.title implies other
        == key by {
        if other != key {
            assert(reports[other].title == reports[held].title);
        }
    }
    assert(reports.remove(held).dom() =~= reports.dom().remove(held));
    assert(after.dom() =~= reports.dom().remove(held).insert(key));
}

/// Where the one entry with a report's title is pending, taking the report
/// in changes that entry alone: it keeps its key and title and takes the
/// rest from the report. No entry is added.
pub proof fn lemma_pending_entry_is_merged(
    reports: AlertMap,
    alert: AlertView,
    key: Seq<char>,
    held: Seq<char>,
)
    requires
        titles_distinct(reports),
        reports.dom().contains(held),
        reports[held].title == alert.title,
        reports[held].pending(),
    ensures
        ({
            let after = updated(reports, alert, key);
            &&& after == reports.insert(held, reports[held].merged(alert))
            &&& after.dom() == reports.dom()
            &&& after[held] == (AlertView { title: reports[held].title, ..alert })
            &&& forall|other: Seq<char>|
                other != held && #[trigger] reports.dom().contains(other) ==> after[other]
                    == reports[other]
        }),
{
    let after = updated(reports, alert, key);
    assert(has_title(reports, alert.title));
    assert(key_of_title(reports, alert.title) == held);
    assert(after.dom() =~= reports.dom());
}

/// Calls `chrono::Utc::now` and writes the moment with
/// `DateTime::to_rfc3339_opts`, to the millisecond. Nothing is claimed of
/// the text: it depends on the clock.
#[verifier::external_body]
fn timestamp_now() -> (key: String) {
    Utc::now().to_rfc3339_opts(SecondsFormat::Millis, false)
}

/// The owner of the collection: it takes the requests one at a time and
/// answers the mutating ones with the collection as it is to be published.
#[derive(Debug)]
pub struct NotificationActor {
    notifications: Notifications,
}

impl NotificationActor {
    /// The reports held, by key.
    pub closed spec fn reports(self) -> AlertMap {
        self.notifications@
    }

    /// No key is used twice, and no title is reported twice.
    pub closed spec fn wf(self) -> bool {
        self.notifications.wf()
    }

    /// What a well-formed owner promises about its reports: at most one
    /// entry for a title, so at most one pending entry for it.
    pub proof fn lemma_wf(self)
        requires
            self.wf(),
        ensures
            titles_distinct(self.reports()),
            self.reports().dom().finite(),
    {
        self.notifications.lemma_wf();
    }

    /// An owner of an empty collection.
    pub fn new() -> (actor: NotificationActor)
        ensures
            actor.wf(),
            actor.reports() == Map::<Seq<char>, AlertView>::empty(),
    {
        NotificationActor { notifications: Notifications::new() }
    }

    /// Takes in a report, asking for `timestamp` as the key for a new entry,
    /// and publishes the collection. A new entry is filed under `timestamp`
    /// where that is free, and under a longer key that is free otherwise, so
    /// that it takes no other entry's place.
    pub fn handle_update_at(&mut self, msg: NotificationUpdate, timestamp: String) -> (results:
        NotificationResults)
        requires
            old(self).wf(),
        ensures
            final(self).wf(),
            final(self).reports() == updated(
                old(self).reports(),
                msg.0@,
                fresh_key(old(self).reports(), timestamp@),
            ),
            !old(self).reports().dom().contains(fresh_key(old(self).reports(), timestamp@)),
            titles_distinct(final(self).reports()),
            results.shows(final(self).reports()),
    {
        let key = self.notifications.fresh_key(timestamp);
        self.notifications.update_at(msg.0, key);
        proof {
            self.notifications.lemma_wf();
        }
        self.notifications.results()
    }

    /// Takes in a report, asking for the present moment as the key for a new
    /// entry, and publishes the collection.
    pub fn handle_update(&mut self, msg: NotificationUpdate) -> (results: NotificationResults)
        requires
            old(self).wf(),
        ensures
            final(self).wf(),
            exists|timestamp: Seq<char>|
                final(self).reports() == updated(
                    old(self).reports(),
                    msg.0@,
                    #[trigger] fresh_key(old(self).reports(), timestamp),
                ) && !old(self).reports().dom().contains(
                    fresh_key(old(self).reports(), timestamp),
                ),
            titles_distinct(final(self).reports()),
            results.shows(final(self).reports()),
    {
        let timestamp = timestamp_now();
        let ghost asked = timestamp@;
        let results = self.handle_update_at(msg, timestamp);
        assert(self.reports() == updated(
            old(self).reports(),
            msg.0@,
            fresh_key(old(self).reports(), asked),
        ));
        results
    }

    /// Publishes the collection as it stands.
    pub fn handle_refresh(&self, msg: NotificationRefresh) -> (results: NotificationResults)
        requires
            self.wf(),
        ensures
            results.shows(self.reports()),
    {
        self.notifications.results()
    }

    /// Takes the entry under the given key out. Where there was one, the
    /// collection is published; where there was none, nothing is.
    pub fn handle_dismiss(&mut self, msg: NotificationDismiss) -> (results: Option<
        NotificationResults,
    >)
        requires
            old(self).wf(),
        ensures
            final(self).wf(),
            final(self).reports() == old(self).reports().remove(msg.timestamp@),
            results is Some == old(self).reports().dom().contains(msg.timestamp@),
            results is Some ==> results.unwrap().shows(final(self).reports()),
    {
        if self.notifications.dismiss(&msg.timestamp) {
            Some(self.notifications.results())
        } else {
            None
        }
    }

    /// Empties the collection and publishes it: no entry, nothing pending.
    pub fn handle_dismiss_all(&mut self, msg: NotificationDismissAll) -> (results:
        NotificationResults)
        ensures
            final(self).wf(),
            final(self).reports() == Map::<Seq<char>, AlertView>::empty(),
            results.notifications@.len() == 0,
            results.pending@.len() == 0,
            results.shows(final(self).reports()),
    {
        self.notifications.dismiss_all();
        let results = NotificationResults { notifications: Vec::new(), pending: Vec::new() };
        proof {
            assert(results.reports() =~= Map::<Seq<char>, AlertView>::empty());
            assert(results.pending().to_set() =~= pending_keys(self.reports()));
        }
        results
    }
}

impl NotificationActor {
    /// Takes one request out of the mailbox and answers with the collection
    /// to publish, if the request asks for that: every request does, but for
    /// dismissing a key that is not there.
    ///
    /// An update takes the report in, with the present moment asked for as
    /// the key of a new entry. A refresh changes nothing. Dismissing takes
    /// the entry under the key out. Dismissing all leaves no entry, and
    /// publishes no entry and nothing pending.
    pub fn handle(&mut self, request: NotificationRequest) -> (results: Option<NotificationResults>)
        requires
            old(self).wf(),
        ensures
            final(self).wf(),
            titles_distinct(final(self).reports()),
            match request {
                NotificationRequest::Update(msg) => {
                    &&& results is Some
                    &&& exists|timestamp: Seq<char>|
                        final(self).reports() == updated(
                            old(self).reports(),
                            msg.0@,
                            #[trigger] fresh_key(old(self).reports(), timestamp),
                        ) && !old(self).reports().dom().contains(
                            fresh_key(old(self).reports(), timestamp),
                        )
                },
                NotificationRequest::Refresh(_) => {
                    &&& results is Some
                    &&& final(self).reports() == old(self).reports()
                },
                NotificationRequest::Dismiss(msg) => {
                    &&& results is Some == old(self).reports().dom().contains(msg.timestamp@)
                    &&& final(self).reports() == old(self).reports().remove(msg.timestamp@)
                },
                NotificationRequest::DismissAll(_) => {
                    &&& results is Some
                    &&& final(self).reports() == Map::<Seq<char>, AlertView>::empty()
                    &&& results.unwrap().notifications@.len() == 0
                    &&& results.unwrap().pending@.len() == 0
                },
            },
            results is Some ==> results.unwrap().shows(final(self).reports()),
    {
        match request {
            NotificationRequest::Update(msg) => Some(self.handle_update(msg)),
            NotificationRequest::Refresh(msg) => {
                proof {
                    self.lemma_wf();
                }
                Some(self.handle_refresh(msg))
            },
            NotificationRequest::Dismiss(msg) => {
                let results = self.handle_dismiss(msg);
                proof {
                    self.lemma_wf();
                }
                results
            },
            NotificationRequest::DismissAll(msg) => {
                let results = self.handle_dismiss_all(msg);
                proof {
                    self.lemma_wf();
                }
                Some(results)
            },
        }
    }
}

} // verus!
