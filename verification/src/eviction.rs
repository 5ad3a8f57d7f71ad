//! Which files of a feed's cache directory have had their day.
//!
//! A daily feed's files are named after days: those older than the oldest
//! item of the feed go, and so do item lists of other days than today. A
//! batch feed's files go when the feed no longer lists them.

use vstd::prelude::*;
use vstd::string::*;

use crate::date::date_before;
use crate::date::iso_text;
use crate::date::parse_date;
use crate::date::parsed_calendar_date;
use crate::date::CalendarDate;
use crate::date::DATE_FILE_FMT;
use crate::feed::find_oldest_date;
use crate::feed::item_views;
use crate::feed::oldest_date;
use crate::feed::CacheItem;
use crate::feed::CacheItemView;
use crate::notification_center::text_views;
use crate::service::get_metadata_extension;
use crate::service::get_service_metadata_name_on;
use crate::service::metadata_extension;
use crate::service::metadata_name;
use crate::service::service_is_daily;
use crate::service::ImageService;
use crate::text::ends_with;
use crate::text::has_suffix;
use crate::text::name_extension;
use crate::text::name_key;
use crate::text::same_text;
use crate::text::split_name;

verus! {

/// The day a cache file is named after, if it is named after one.
pub open spec fn file_date(name: Seq<char>) -> Option<CalendarDate> {
    parsed_calendar_date(name_key(name), DATE_FILE_FMT@)
}

/// Whether a file of a daily feed's cache has had its day: it is named after
/// a day before `oldest`, or it is an item list, going by its extension, of
/// another day than `today`. A file that is not named after a day stays.
pub open spec fn stale_by_date(
    name: Seq<char>,
    oldest: CalendarDate,
    today: CalendarDate,
    extension: Seq<char>,
) -> bool {
    match file_date(name) {
        Some(date) => date_before(date, oldest) || (date != today && ends_with(
            name_extension(name),
            extension,
        )),
        None => false,
    }
}

/// Whether one of the items is cached under this file name.
pub open spec fn names_item(items: Seq<CacheItemView>, name: Seq<char>) -> bool {
    exists|i: int| 0 <= i < items.len() && (#[trigger] items[i]).file_name == name
}

/// Whether a file of a feed's cache has had its day, given the items the
/// feed lists now.
///
/// For a daily feed the oldest day among the items decides, as
/// `stale_by_date` says; without an item that has a day, every file stays.
/// For a batch feed every file goes that is neither the item list nor the
/// file of an item.
pub open spec fn is_stale(
    service: ImageService,
    name: Seq<char>,
    items: Seq<CacheItemView>,
    today: CalendarDate,
) -> bool {
    if service_is_daily(service) {
        match oldest_date(items, items.len() as int) {
            Some(oldest) => stale_by_date(name, oldest, today, metadata_extension(service)),
            None => false,
        }
    } else {
        name != metadata_name(service, today) && !names_item(items, name)
    }
}

/// The files among `names` that have had their day, in the order of `names`.
pub open spec fn stale_names(
    service: ImageService,
    names: Seq<Seq<char>>,
    items: Seq<CacheItemView>,
    today: CalendarDate,
) -> Seq<Seq<char>> {
    names.filter(|name: Seq<char>| is_stale(service, name, items, today))
}

/// Whether a file of a daily feed's cache has had its day.
pub fn is_stale_by_date(name: &str, oldest: &CalendarDate, today: &CalendarDate, extension: &str) -> (stale:
    bool)
    ensures
        stale == stale_by_date(name@, *oldest, *today, extension@),
{
    let (key, ext) = split_name(name);
    match parse_date(key, DATE_FILE_FMT) {
        Some(date) => date.is_before(oldest) || (!date.same_day(today) && has_suffix(
            ext,
            extension,
        )),
        None => false,
    }
}

/// Whether one of the items is cached under this file name.
pub fn is_item_file(items: &Vec<CacheItem>, name: &str) -> (found: bool)
    ensures
        found == names_item(item_views(items@), name@),
{
    let mut i: usize = 0;
    while i < items.len()
        invariant
            i <= items@.len(),
            forall|j: int| 0 <= j < i ==> (#[trigger] item_views(items@)[j]).file_name != name@,
        decreases items@.len() - i,
    {
        if same_text(items[i].file_name.as_str(), name) {
            assert(item_views(items@)[i as int].file_name == name@);
            return true;
        }
        i = i + 1;
    }
    false
}

/// Picks the files that have had their day out of the names found in a
/// feed's cache directory, given the items the feed lists now.
pub fn stale_files(
    service: &ImageService,
    names: &Vec<String>,
    items: &Vec<CacheItem>,
    today: &CalendarDate,
) -> (stale: Vec<String>)
    ensures
        text_views(stale@) == stale_names(*service, text_views(names@), item_views(items@), *today),
{
    let ghost all = text_views(names@);
    let ghost rule = |name: Seq<char>| is_stale(*service, name, item_views(items@), *today);
    let daily = service.is_daily();
    let oldest = find_oldest_date(items);
    let extension = get_metadata_extension(service);
    let list_name = get_service_metadata_name_on(service, today);
    let mut stale: Vec<String> = Vec::new();
    let mut i: usize = 0;
    proof {
        reveal(Seq::filter);
        assert(all.take(0).filter(rule) =~= Seq::<Seq<char>>::empty());
        assert(text_views(stale@) =~= Seq::<Seq<char>>::empty());
    }
    while i < names.len()
        invariant
            i <= names@.len(),
            all == text_views(names@),
            rule == (|name: Seq<char>| is_stale(*service, name, item_views(items@), *today)),
            daily == service_is_daily(*service),
            oldest == oldest_date(item_views(items@), items@.len() as int),
            extension@ == metadata_extension(*service),
            list_name@ == metadata_name(*service, *today),
            text_views(stale@) == all.take(i as int).filter(rule),
        decreases names@.len() - i,
    {
        let name = names[i].as_str();
        let goes = if daily {
            match oldest {
                Some(day) => is_stale_by_date(name, &day, today, extension),
                None => false,
            }
        } else {
            !same_text(name, list_name.as_str()) && !is_item_file(items, name)
        };
        let ghost found = text_views(stale@);
        proof {
            reveal(Seq::filter);
            assert(all[i as int] == name@);
            assert(goes == rule(name@));
            assert(all.take(i + 1).drop_last() =~= all.take(i as int));
            assert(all.take(i + 1).last() == name@);
        }
        if goes {
            stale.push(names[i].clone());
            assert(text_views(stale@) =~= found.push(name@));
        }
        i = i + 1;
    }
    assert(all.take(i as int) =~= all);
    stale
}

/// Of a daily feed's cache, every file named after a day before the oldest
/// item's day is among the stale files; and a file named after a day that is
/// not before it stays, where the day is today or the file is not an item
/// list by its extension.
pub proof fn lemma_daily_eviction(
    service: ImageService,
    names: Seq<Seq<char>>,
    items: Seq<CacheItemView>,
    today: CalendarDate,
    name: Seq<char>,
)
    requires
        service_is_daily(service),
        names.contains(name),
        oldest_date(items, items.len() as int) is Some,
        file_date(name) is Some,
    ensures
        ({
            let oldest = oldest_date(items, items.len() as int).unwrap();
            let date = file_date(name).unwrap();
            let stale = stale_names(service, names, items, today);
            &&& date_before(date, oldest) ==> stale.contains(name)
            &&& !date_before(date, oldest) && (date == today || !ends_with(
                name_extension(name),
                metadata_extension(service),
            )) ==> !stale.contains(name)
        }),
{
    let rule = |name: Seq<char>| is_stale(service, name, items, today);
    let stale = stale_names(service, names, items, today);
    let i = choose|i: int| 0 <= i < names.len() && names[i] == name;
    if rule(name) {
        names.lemma_filter_contains(rule, i);
    }
    if stale.contains(name) {
        let j = choose|j: int| 0 <= j < stale.len() && stale[j] == name;
        names.lemma_filter_pred(rule, j);
    }
}

/// Of a batch feed's cache, every file that is neither the item list nor the
/// file of a listed item is among the stale files, and no other file is.
pub proof fn lemma_batch_eviction(
    service: ImageService,
    names: Seq<Seq<char>>,
    items: Seq<CacheItemView>,
    today: CalendarDate,
    name: Seq<char>,
)
    requires
        !service_is_daily(service),
        names.contains(name),
    ensures
        stale_names(service, names, items, today).contains(name) <==> (name != metadata_name(
            service,
            today,
        ) && !names_item(items, name)),
{
    let rule = |name: Seq<char>| is_stale(service, name, items, today);
    let stale = stale_names(service, names, items, today);
    let i = choose|i: int| 0 <= i < names.len() && names[i] == name;
    if rule(name) {
        names.lemma_filter_contains(rule, i);
    }
    if stale.contains(name) {
        let j = choose|j: int| 0 <= j < stale.len() && stale[j] == name;
        names.lemma_filter_pred(rule, j);
    }
}

/// Whether a day reads back from its `YYYY-MM-DD` text.
pub open spec fn reads_back(date: CalendarDate) -> bool {
    parsed_calendar_date(iso_text(date), DATE_FILE_FMT@) == Some(date)
}

/// Whether an item of a daily feed is cached the way the feeds' items are:
/// its file is named after its day, which reads back and is not after
/// `today`, with an extension that holds no dot and is not that of an item
/// list.
pub open spec fn cached_by_day(service: ImageService, item: CacheItemView, today: CalendarDate) ->
    bool {
    let extension = name_extension(item.file_name);
    match item.date {
        Some(date) => {
            &&& reads_back(date)
            &&& !date_before(today, date)
            &&& item.file_name == iso_text(date) + seq!['.'] + extension
            &&& !extension.contains('.')
            &&& !ends_with(extension, metadata_extension(service))
        },
        None => false,
    }
}

/// A file named after a day that reads back, with an extension that holds
/// no dot, is named after that day.
pub proof fn lemma_dated_file(date: CalendarDate, extension: Seq<char>)
    requires
        reads_back(date),
        !extension.contains('.'),
    ensures
        file_date(iso_text(date) + seq!['.'] + extension) == Some(date),
        name_extension(iso_text(date) + seq!['.'] + extension) == extension,
{
    crate::text::lemma_name_parts(iso_text(date), extension);
}

/// The item list of a daily feed on a day that reads back is named after
/// that day.
pub proof fn lemma_list_is_dated(service: ImageService, today: CalendarDate)
    requires
        service_is_daily(service),
        reads_back(today),
    ensures
        file_date(metadata_name(service, today)) == Some(today),
{
    reveal_strlit("xml");
    reveal_strlit("json");
    let extension = metadata_extension(service);
    assert forall|i: int| 0 <= i < extension.len() implies extension[i] != '.' by {}
    lemma_dated_file(today, extension);
}

/// Of a daily feed's cache, the file of a listed item stays, where its name
/// reads back as the item's day and it is not an item list of another day by
/// its extension.
pub proof fn lemma_item_file_stays(
    service: ImageService,
    items: Seq<CacheItemView>,
    today: CalendarDate,
    i: int,
)
    requires
        service_is_daily(service),
        0 <= i < items.len(),
        items[i].date is Some,
        file_date(items[i].file_name) == items[i].date,
        items[i].date == Some(today) || !ends_with(
            name_extension(items[i].file_name),
            metadata_extension(service),
        ),
    ensures
        !is_stale(service, items[i].file_name, items, today),
{
    crate::feed::lemma_oldest_date(items, items.len() as int);
}

/// Of a daily feed's cache, today's item list stays, where its name reads
/// back as today and no listed item is of a later day than today.
pub proof fn lemma_todays_list_stays(
    service: ImageService,
    items: Seq<CacheItemView>,
    today: CalendarDate,
)
    requires
        service_is_daily(service),
        file_date(metadata_name(service, today)) == Some(today),
        forall|i: int|
            0 <= i < items.len() && (#[trigger] items[i]).date is Some ==> !date_before(
                today,
                items[i].date.unwrap(),
            ),
    ensures
        !is_stale(service, metadata_name(service, today), items, today),
{
    crate::feed::lemma_oldest_date(items, items.len() as int);
}

/// Where no file of the cache has had its day, none is picked for removal.
pub proof fn lemma_nothing_stale(
    service: ImageService,
    names: Seq<Seq<char>>,
    items: Seq<CacheItemView>,
    today: CalendarDate,
)
    requires
        forall|i: int| 0 <= i < names.len() ==> !is_stale(service, #[trigger] names[i], items, today),
    ensures
        stale_names(service, names, items, today).len() == 0,
{
    let rule = |name: Seq<char>| is_stale(service, name, items, today);
    let stale = stale_names(service, names, items, today);
    if stale.len() > 0 {
        names.lemma_filter_pred(rule, 0);
        names.lemma_filter_contains_rev(rule, stale[0]);
        let i = choose|i: int| 0 <= i < names.len() && names[i] == stale[0];
        assert(!is_stale(service, names[i], items, today));
    }
}

/// Of a daily feed's cache that holds today's item list and files of listed
/// items and nothing else, no file is picked for removal, where today reads
/// back and every item is cached by its day.
pub proof fn lemma_current_cache_is_kept(
    service: ImageService,
    names: Seq<Seq<char>>,
    items: Seq<CacheItemView>,
    today: CalendarDate,
)
    requires
        service_is_daily(service),
        reads_back(today),
        forall|i: int| 0 <= i < items.len() ==> cached_by_day(service, #[trigger] items[i], today),
        forall|j: int|
            0 <= j < names.len() ==> (#[trigger] names[j]) == metadata_name(service, today)
                || names_item(items, names[j]),
    ensures
        stale_names(service, names, items, today).len() == 0,
{
    lemma_list_is_dated(service, today);
    assert forall|i: int| 0 <= i < items.len() && (#[trigger] items[i]).date is Some
        implies !date_before(today, items[i].date.unwrap()) by {
        assert(cached_by_day(service, items[i], today));
    }
    lemma_todays_list_stays(service, items, today);
    assert forall|j: int| 0 <= j < names.len() implies !is_stale(
        service,
        #[trigger] names[j],
        items,
        today,
    ) by {
        if names[j] != metadata_name(service, today) {
            let i = choose|i: int| 0 <= i < items.len() && (#[trigger] items[i]).file_name == names[j];
            assert(cached_by_day(service, items[i], today));
            let date = items[i].date.unwrap();
            lemma_dated_file(date, name_extension(items[i].file_name));
            lemma_item_file_stays(service, items, today, i);
        }
    }
    lemma_nothing_stale(service, names, items, today);
}

} // verus!
