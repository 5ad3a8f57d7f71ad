//! The Bing feed: items dated `YYYYMMDD`, images below a fixed host, cache
//! files named after the day.

use vstd::prelude::*;
use vstd::string::*;

use crate::date::iso_text;
use crate::date::parse_date;
use crate::date::parsed_calendar_date;
use crate::date::CalendarDate;
use crate::date::BING_DATE_FORMAT;
use crate::feed::outcome_view;
use crate::feed::CacheItem;
use crate::feed::CacheItemView;
use crate::feed::FeedError;
use crate::signals::DailyImage;
use crate::signals::DailyImageView;

verus! {

/// One item of the feed, as the feed writes it.
#[derive(Debug, PartialEq, Eq)]
pub struct BingImage {
    /// The image's address below the host.
    pub url: String,
    /// The day of the image, as `YYYYMMDD`.
    pub start_date: String,
    /// The description of the image.
    pub copyright: String,
}

/// The content of a [`BingImage`].
pub ghost struct BingImageView {
    pub url: Seq<char>,
    pub start_date: Seq<char>,
    pub copyright: Seq<char>,
}

impl View for BingImage {
    type V = BingImageView;

    open spec fn view(&self) -> BingImageView {
        BingImageView { url: self.url@, start_date: self.start_date@, copyright: self.copyright@ }
    }
}

/// The feed's item list.
#[derive(Debug, PartialEq, Eq)]
pub struct BingImages {
    pub images: Vec<BingImage>,
}

/// The contents of a list of feed items.
pub open spec fn bing_views(images: Seq<BingImage>) -> Seq<BingImageView> {
    images.map_values(|i: BingImage| i@)
}

/// The day an item's date names, if it names one.
pub open spec fn bing_date(start_date: Seq<char>) -> Option<CalendarDate> {
    parsed_calendar_date(start_date, BING_DATE_FORMAT@)
}

/// The date an item is shown with: the day as `YYYY-MM-DD`, or the feed's
/// own text where that names no day.
pub open spec fn bing_shown_date(start_date: Seq<char>) -> Seq<char> {
    match bing_date(start_date) {
        Some(date) => iso_text(date),
        None => start_date,
    }
}

/// The image of the list that an item becomes: not yet in the cache, shown
/// with its date and the feed's description.
pub open spec fn bing_daily_image(image: BingImageView) -> DailyImageView {
    DailyImageView {
        url: Seq::empty(),
        date: bing_shown_date(image.start_date),
        description: image.copyright,
    }
}

/// The cache item of a feed item with the day `date`: the file is the day
/// and `.jpg`, the image lies below `https://bing.com`.
pub open spec fn bing_cache_item(image: BingImageView, date: CalendarDate) -> CacheItemView {
    CacheItemView {
        label: iso_text(date),
        file_name: iso_text(date) + ".jpg"@,
        url: "https://bing.com"@ + image.url,
        date: Some(date),
    }
}

/// What resolving a feed item gives: its cache item, or the error of a date
/// that names no day.
pub open spec fn bing_resolved(image: BingImageView) -> Result<CacheItemView, FeedError> {
    match bing_date(image.start_date) {
        Some(date) => Ok(bing_cache_item(image, date)),
        None => Err(FeedError::BingDate),
    }
}

/// Reads the date of a feed item.
pub fn parse_bing_date(date: &str) -> (day: Option<CalendarDate>)
    ensures
        day == bing_date(date@),
        day is Some ==> day.unwrap().wf(),
{
    parse_date(date, BING_DATE_FORMAT)
}

impl BingImage {
    /// The image of the list that this item becomes.
    pub fn daily_image(&self) -> (image: DailyImage)
        ensures
            image@ == bing_daily_image(self@),
    {
        let date = match parse_bing_date(self.start_date.as_str()) {
            Some(day) => day.iso_string(),
            None => self.start_date.clone(),
        };
        let url = String::from_str("");
        proof {
            reveal_strlit("");
            assert(url@ =~= Seq::<char>::empty());
        }
        DailyImage { url, date, description: self.copyright.clone() }
    }

    /// The cache item of this feed item; an error where its date names no
    /// day.
    pub fn resolve(&self) -> (item: Result<CacheItem, FeedError>)
        ensures
            outcome_view(item) == bing_resolved(self@),
    {
        match parse_bing_date(self.start_date.as_str()) {
            Some(day) => {
                let label = day.iso_string();
                let mut file_name = day.iso_string();
                file_name.append(".jpg");
                let mut url = String::from_str("https://bing.com");
                url.append(self.url.as_str());
                Ok(CacheItem { label, file_name, url, date: Some(day) })
            },
            None => Err(FeedError::BingDate),
        }
    }
}

impl BingImages {
    /// The list of images as it is first shown, in the feed's order.
    pub fn daily_images(&self) -> (images: Vec<DailyImage>)
        ensures
            images@.len() == self.images@.len(),
            forall|i: int|
                0 <= i < images@.len() ==> (#[trigger] images@[i])@ == bing_daily_image(
                    self.images@[i]@,
                ),
    {
        let mut images: Vec<DailyImage> = Vec::new();
        let mut i: usize = 0;
        while i < self.images.len()
            invariant
                i <= self.images@.len(),
                images@.len() == i,
                forall|j: int|
                    0 <= j < i ==> (#[trigger] images@[j])@ == bing_daily_image(self.images@[j]@),
            decreases self.images@.len() - i,
        {
            images.push(self.images[i].daily_image());
            i = i + 1;
        }
        images
    }

    /// What comes of each item of the feed, in the feed's order: its cache
    /// item, or the error of a date that names no day.
    pub fn resolve(&self) -> (outcomes: Vec<Result<CacheItem, FeedError>>)
        ensures
            outcomes@.len() == self.images@.len(),
            forall|i: int|
                0 <= i < outcomes@.len() ==> outcome_view(#[trigger] outcomes@[i]) == bing_resolved(
                    self.images@[i]@,
                ),
    {
        let mut outcomes: Vec<Result<CacheItem, FeedError>> = Vec::new();
        let mut i: usize = 0;
        while i < self.images.len()
            invariant
                i <= self.images@.len(),
                outcomes@.len() == i,
                forall|j: int|
                    0 <= j < i ==> outcome_view(#[trigger] outcomes@[j]) == bing_resolved(
                        self.images@[j]@,
                    ),
            decreases self.images@.len() - i,
        {
            outcomes.push(self.images[i].resolve());
            i = i + 1;
        }
        outcomes
    }
}

/// The file an item is cached under goes by its date alone: two items with
/// the same date have the same file, or both have none.
pub proof fn lemma_bing_file_goes_by_date(first: BingImageView, second: BingImageView)
    requires
        first.start_date == second.start_date,
    ensures
        match (bing_resolved(first), bing_resolved(second)) {
            (Ok(one), Ok(other)) => one.file_name == other.file_name && one.label == other.label
                && one.date == other.date,
            (Err(one), Err(other)) => one == other,
            _ => false,
        },
{
}

/// The cache item of a feed item is cached by its day, where that day reads
/// back from its text and is not after `today`.
pub proof fn lemma_bing_item_is_cached_by_day(
    image: BingImageView,
    date: CalendarDate,
    today: CalendarDate,
)
    requires
        crate::eviction::reads_back(date),
        !crate::date::date_before(today, date),
    ensures
        crate::eviction::cached_by_day(
            crate::service::ImageService::Bing,
            bing_cache_item(image, date),
            today,
        ),
{
    reveal_strlit(".jpg");
    reveal_strlit("jpg");
    reveal_strlit("json");
    let extension = "jpg"@;
    assert forall|i: int| 0 <= i < extension.len() implies extension[i] != '.' by {}
    assert(".jpg"@ =~= seq!['.'] + extension);
    assert(iso_text(date) + ".jpg"@ =~= iso_text(date) + seq!['.'] + extension);
    crate::text::lemma_name_parts(iso_text(date), extension);
    assert(!crate::text::ends_with(extension, "json"@));
}

} // verus!
