//! What every feed's items are brought to before the cache is touched, and
//! the ways in which an item can fail to get there.

use vstd::prelude::*;
use vstd::string::*;

use crate::date::date_before;
use crate::date::CalendarDate;

verus! {

/// Why an item of a feed cannot be cached.
#[derive(Debug, Clone, Copy, PartialEq, Eq, Structural)]
pub enum FeedError {
    /// The date of a Bing item is not written as `YYYYMMDD`.
    BingDate,
    /// The publication time of a NASA item holds no date at its place.
    NasaDate,
    /// The address of a NASA image is no URL.
    NasaUrl,
    /// The address of a NASA image ends in no file extension.
    NasaExtension,
}

/// What an error says to a reader.
pub open spec fn error_text(error: FeedError) -> Seq<char> {
    match error {
        FeedError::BingDate => "Failed to parse Bing picture's date."@,
        FeedError::NasaDate => "Failed to parse NASA picture's date."@,
        FeedError::NasaUrl => "Failed to parse NASA picture's URL."@,
        FeedError::NasaExtension => "Failed to find image MIME type from NASA URL."@,
    }
}

impl FeedError {
    /// What the error says to a reader.
    pub fn message(&self) -> (text: String)
        ensures
            text@ == error_text(*self),
    {
        match self {
            FeedError::BingDate => String::from_str("Failed to parse Bing picture's date."),
            FeedError::NasaDate => String::from_str("Failed to parse NASA picture's date."),
            FeedError::NasaUrl => String::from_str("Failed to parse NASA picture's URL."),
            FeedError::NasaExtension => String::from_str(
                "Failed to find image MIME type from NASA URL.",
            ),
        }
    }
}

/// One item of a feed, ready for the cache.
#[derive(Debug, PartialEq, Eq)]
pub struct CacheItem {
    /// What the item is called in progress reports.
    pub label: String,
    /// The name of the item's file in the cache.
    pub file_name: String,
    /// Where the image is downloaded from.
    pub url: String,
    /// The day the item belongs to, for a feed with dates.
    pub date: Option<CalendarDate>,
}

/// The content of a [`CacheItem`].
pub ghost struct CacheItemView {
    pub label: Seq<char>,
    pub file_name: Seq<char>,
    pub url: Seq<char>,
    pub date: Option<CalendarDate>,
}

impl View for CacheItem {
    type V = CacheItemView;

    open spec fn view(&self) -> CacheItemView {
        CacheItemView {
            label: self.label@,
            file_name: self.file_name@,
            url: self.url@,
            date: self.date,
        }
    }
}

impl Clone for CacheItem {
    fn clone(&self) -> (copy: CacheItem)
        ensures
            copy@ == self@,
    {
        CacheItem {
            label: self.label.clone(),
            file_name: self.file_name.clone(),
            url: self.url.clone(),
            date: self.date,
        }
    }
}

/// The contents of a list of items.
pub open spec fn item_views(items: Seq<CacheItem>) -> Seq<CacheItemView> {
    items.map_values(|i: CacheItem| i@)
}

/// What came of bringing one item of a feed into the common form: its cache
/// item, or the reason why it has none.
pub type Outcome = Result<CacheItemView, FeedError>;

/// The content of what came of one item.
pub open spec fn outcome_view(outcome: Result<CacheItem, FeedError>) -> Outcome {
    match outcome {
        Ok(item) => Ok(item@),
        Err(error) => Err(error),
    }
}

/// The contents of what came of the items of a feed, one for each item.
pub open spec fn outcome_views(outcomes: Seq<Result<CacheItem, FeedError>>) -> Seq<Outcome> {
    outcomes.map_values(|o: Result<CacheItem, FeedError>| outcome_view(o))
}

/// The cache items among what came of the items of a feed, in their order.
pub open spec fn ok_items(outcomes: Seq<Outcome>) -> Seq<CacheItemView>
    decreases outcomes.len(),
{
    if outcomes.len() == 0 {
        Seq::empty()
    } else {
        match outcomes.last() {
            Ok(item) => ok_items(outcomes.drop_last()).push(item),
            Err(_) => ok_items(outcomes.drop_last()),
        }
    }
}

/// Where every item of a feed has a cache item, the cache items are those,
/// one for each item.
pub proof fn lemma_ok_items_all(outcomes: Seq<Outcome>)
    requires
        forall|i: int| 0 <= i < outcomes.len() ==> (#[trigger] outcomes[i]) is Ok,
    ensures
        ok_items(outcomes).len() == outcomes.len(),
        forall|i: int|
            0 <= i < outcomes.len() ==> outcomes[i] == Ok::<CacheItemView, FeedError>(
                #[trigger] ok_items(outcomes)[i],
            ),
    decreases outcomes.len(),
{
    if outcomes.len() > 0 {
        let front = outcomes.drop_last();
        assert forall|i: int| 0 <= i < front.len() implies (#[trigger] front[i]) is Ok by {
            assert(front[i] == outcomes[i]);
        }
        lemma_ok_items_all(front);
        assert forall|i: int| 0 <= i < outcomes.len() implies outcomes[i] == Ok::<
            CacheItemView,
            FeedError,
        >(#[trigger] ok_items(outcomes)[i]) by {
            if i < front.len() {
                assert(front[i] == outcomes[i]);
                assert(ok_items(outcomes)[i] == ok_items(front)[i]);
            }
        }
    }
}

/// Picks the cache items out of what came of the items of a feed.
pub fn resolved_items(outcomes: &Vec<Result<CacheItem, FeedError>>) -> (items: Vec<CacheItem>)
    ensures
        item_views(items@) == ok_items(outcome_views(outcomes@)),
{
    let ghost all = outcome_views(outcomes@);
    let mut items: Vec<CacheItem> = Vec::new();
    let mut i: usize = 0;
    assert(item_views(items@) =~= ok_items(all.take(0)));
    while i < outcomes.len()
        invariant
            i <= outcomes@.len(),
            all == outcome_views(outcomes@),
            item_views(items@) == ok_items(all.take(i as int)),
        decreases outcomes@.len() - i,
    {
        let ghost found = item_views(items@);
        proof {
            assert(all.take(i + 1).drop_last() =~= all.take(i as int));
            assert(all.take(i + 1).last() == outcome_view(outcomes@[i as int]));
        }
        match &outcomes[i] {
            Ok(item) => {
                items.push(item.clone());
                assert(item_views(items@) =~= found.push(item@));
            },
            Err(_) => {},
        }
        i = i + 1;
    }
    assert(all.take(i as int) =~= all);
    items
}

/// The earliest day among the first `count` items, if any of them has a day.
pub open spec fn oldest_date(items: Seq<CacheItemView>, count: int) -> Option<CalendarDate>
    decreases count,
{
    if count <= 0 {
        None
    } else {
        let before = oldest_date(items, count - 1);
        match (before, items[count - 1].date) {
            (Some(b), Some(d)) => if date_before(d, b) {
                Some(d)
            } else {
                Some(b)
            },
            (None, Some(d)) => Some(d),
            (b, None) => b,
        }
    }
}

/// The earliest day is the day of one of the items, and none of them has an
/// earlier one.
pub proof fn lemma_oldest_date(items: Seq<CacheItemView>, count: int)
    requires
        0 <= count <= items.len(),
    ensures
        match oldest_date(items, count) {
            Some(oldest) => {
                &&& exists|i: int| 0 <= i < count && (#[trigger] items[i]).date == Some(oldest)
                &&& forall|i: int|
                    0 <= i < count && (#[trigger] items[i]).date is Some ==> !date_before(
                        items[i].date.unwrap(),
                        oldest,
                    )
            },
            None => forall|i: int| 0 <= i < count ==> (#[trigger] items[i]).date is None,
        },
    decreases count,
{
    if count > 0 {
        lemma_oldest_date(items, count - 1);
        let before = oldest_date(items, count - 1);
        match oldest_date(items, count) {
            Some(oldest) => {
                if items[count - 1].date == Some(oldest) {
                    assert(items[count - 1].date == Some(oldest));
                } else {
                    let i = choose|i: int|
                        0 <= i < count - 1 && (#[trigger] items[i]).date == Some(oldest);
                    assert(items[i].date == Some(oldest));
                }
            },
            None => {},
        }
    }
}

/// The earliest day among the items of a list.
pub fn find_oldest_date(items: &Vec<CacheItem>) -> (oldest: Option<CalendarDate>)
    ensures
        oldest == oldest_date(item_views(items@), items@.len() as int),
{
    let mut oldest: Option<CalendarDate> = None;
    let mut i: usize = 0;
    while i < items.len()
        invariant
            i <= items@.len(),
            oldest == oldest_date(item_views(items@), i as int),
        decreases items@.len() - i,
    {
        assert(item_views(items@)[i as int].date == items@[i as int].date);
        match (oldest, items[i].date) {
            (Some(b), Some(d)) => {
                if d.is_before(&b) {
                    oldest = Some(d);
                }
            },
            (None, Some(d)) => {
                oldest = Some(d);
            },
            _ => {},
        }
        i = i + 1;
    }
    oldest
}

} // verus!
