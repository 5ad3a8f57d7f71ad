//! The NASA feed: items with a publication time that holds the day at a
//! fixed place, images at full addresses, cache files named after the day
//! with the extension of the image's address.

use reqwest::Url;
use std::path::Path;
use vstd::prelude::*;
use vstd::string::*;

use crate::date::iso_text;
use crate::date::parse_date;
use crate::date::parsed_calendar_date;
use crate::date::CalendarDate;
use crate::date::NASA_DATE_FORMAT;
use crate::feed::outcome_view;
use crate::feed::CacheItem;
use crate::feed::CacheItemView;
use crate::feed::FeedError;
use crate::notification::text_view;
use crate::signals::DailyImage;
use crate::signals::DailyImageView;

verus! {

/// The address of an item's image.
#[derive(Debug, PartialEq, Eq)]
pub struct NasaImgUrl {
    pub url: String,
}

/// One item of the feed, as the feed writes it.
#[derive(Debug, PartialEq, Eq)]
pub struct NasaItem {
    /// The description of the image.
    pub description: String,
    /// The publication time, as in `Fri, 05 Sep 2015 10:00:00 EDT`.
    pub pub_date: String,
    /// Where the image is.
    pub enclosure: NasaImgUrl,
}

/// The items of the feed.
#[derive(Debug, PartialEq, Eq)]
pub struct NasaChannel {
    pub item: Vec<NasaItem>,
}

/// The feed's document.
#[derive(Debug, PartialEq, Eq)]
pub struct NasaFeed {
    pub channel: NasaChannel,
}

/// The content of a [`NasaItem`].
pub ghost struct NasaItemView {
    pub description: Seq<char>,
    pub pub_date: Seq<char>,
    pub url: Seq<char>,
}

impl View for NasaItem {
    type V = NasaItemView;

    open spec fn view(&self) -> NasaItemView {
        NasaItemView {
            description: self.description@,
            pub_date: self.pub_date@,
            url: self.enclosure.url@,
        }
    }
}

/// The path of the URL that `url` writes, as the `url` crate's parser reads
/// it, or nothing where the text is no URL.
pub uninterp spec fn parsed_url_path(url: Seq<char>) -> Option<Seq<char>>;

/// The part of a publication time that holds the day: the eleven characters
/// after the first five. Nothing where the text is shorter.
pub open spec fn nasa_date_text(pub_date: Seq<char>) -> Option<Seq<char>> {
    if pub_date.len() >= 16 {
        Some(pub_date.subrange(5, 16))
    } else {
        None
    }
}

/// The day a publication time names, if it names one.
pub open spec fn nasa_date(pub_date: Seq<char>) -> Option<CalendarDate> {
    match nasa_date_text(pub_date) {
        Some(text) => parsed_calendar_date(text, NASA_DATE_FORMAT@),
        None => None,
    }
}

/// The date an item is shown with: the day as `YYYY-MM-DD`, or the feed's
/// own text where that names no day.
pub open spec fn nasa_shown_date(pub_date: Seq<char>) -> Seq<char> {
    match nasa_date(pub_date) {
        Some(date) => iso_text(date),
        None => pub_date,
    }
}

/// The image of the list that an item becomes.
pub open spec fn nasa_daily_image(item: NasaItemView) -> DailyImageView {
    DailyImageView {
        url: Seq::empty(),
        date: nasa_shown_date(item.pub_date),
        description: item.description,
    }
}

/// The cache item of a feed item with the day `date` and an address that
/// ends in `extension`.
pub open spec fn nasa_cache_item(item: NasaItemView, date: CalendarDate, extension: Seq<char>) ->
    CacheItemView {
    CacheItemView {
        label: iso_text(date),
        file_name: iso_text(date) + seq!['.'] + extension,
        url: item.url,
        date: Some(date),
    }
}

/// What resolving a feed item gives, where `extension` is what the path of
/// its address ends in: the error of a time without a day first, then that
/// of an address that is no URL, then that of a path without extension.
pub open spec fn nasa_resolved(item: NasaItemView, extension: Option<Seq<char>>) -> Result<
    CacheItemView,
    FeedError,
> {
    match nasa_date(item.pub_date) {
        None => Err(FeedError::NasaDate),
        Some(date) => if parsed_url_path(item.url) is None {
            Err(FeedError::NasaUrl)
        } else {
            match extension {
                Some(ext) => Ok(nasa_cache_item(item, date, ext)),
                None => Err(FeedError::NasaExtension),
            }
        },
    }
}

/// Whether `extension` can be what a path ends in: a path without any dot
/// ends in none.
pub open spec fn possible_extension(path: Seq<char>, extension: Option<Seq<char>>) -> bool {
    !path.contains('.') ==> extension is None
}

/// Whether `outcome` can be what comes of resolving a feed item: it is, for
/// some extension that the path of the item's address can end in.
pub open spec fn nasa_may_resolve(item: NasaItemView, outcome: Result<CacheItemView, FeedError>) ->
    bool {
    exists|extension: Option<Seq<char>>|
        {
            &&& parsed_url_path(item.url) matches Some(path) ==> possible_extension(
                path,
                extension,
            )
            &&& #[trigger] nasa_resolved(item, extension) == outcome
        }
}

/// Calls `reqwest::Url::parse`, which is the parser of the `url` crate, and
/// copies what `Url::path` returns. The result is `parsed_url_path` of the
/// text: nothing where the parser returns an error.
#[verifier::external_body]
fn url_path(url: &str) -> (path: Option<String>)
    ensures
        text_view(path) == parsed_url_path(url@),
{
    match Url::parse(url) {
        Ok(parsed) => Some(parsed.path().to_string()),
        Err(_) => None,
    }
}

/// Calls `std::path::Path::extension` on the text taken as a path, and
/// copies the extension. What counts as a separator depends on the platform,
/// so of the result only this is claimed, which std documents: a path
/// without any dot has no extension.
#[verifier::external_body]
fn path_extension(path: &str) -> (extension: Option<String>)
    ensures
        possible_extension(path@, text_view(extension)),
{
    match Path::new(path).extension() {
        Some(found) => Some(found.to_string_lossy().to_string()),
        None => None,
    }
}

/// Reads the day out of a publication time.
pub fn parse_nasa_date(pub_date: &str) -> (day: Option<CalendarDate>)
    ensures
        day == nasa_date(pub_date@),
        day is Some ==> day.unwrap().wf(),
{
    if pub_date.unicode_len() < 16 {
        return None;
    }
    parse_date(pub_date.substring_char(5, 16), NASA_DATE_FORMAT)
}

impl NasaItem {
    /// The image of the list that this item becomes.
    pub fn daily_image(&self) -> (image: DailyImage)
        ensures
            image@ == nasa_daily_image(self@),
    {
        let date = match parse_nasa_date(self.pub_date.as_str()) {
            Some(day) => day.iso_string(),
            None => self.pub_date.clone(),
        };
        let url = String::from_str("");
        proof {
            reveal_strlit("");
            assert(url@ =~= Seq::<char>::empty());
        }
        DailyImage { url, date, description: self.description.clone() }
    }

    /// The cache item of this feed item, where `extension` is what the path
    /// of its address ends in.
    pub fn resolve_with(&self, extension: Option<String>) -> (item: Result<CacheItem, FeedError>)
        ensures
            outcome_view(item) == nasa_resolved(self@, text_view(extension)),
    {
        let day = match parse_nasa_date(self.pub_date.as_str()) {
            Some(day) => day,
            None => {
                return Err(FeedError::NasaDate);
            },
        };
        if url_path(self.enclosure.url.as_str()).is_none() {
            return Err(FeedError::NasaUrl);
        }
        match extension {
            Some(ext) => {
                let label = day.iso_string();
                let mut file_name = day.iso_string();
                proof {
                    reveal_strlit(".");
                }
                file_name.append(".");
                file_name.append(ext.as_str());
                assert("."@ =~= seq!['.']);
                assert(file_name@ =~= iso_text(day) + seq!['.'] + ext@);
                Ok(CacheItem { label, file_name, url: self.enclosure.url.clone(), date: Some(day) })
            },
            None => Err(FeedError::NasaExtension),
        }
    }

    /// What the path of the item's address ends in, as the platform's path
    /// rules see it; nothing where the address is no URL, and nothing where
    /// its path holds no dot.
    pub fn extension(&self) -> (extension: Option<String>)
        ensures
            match parsed_url_path(self@.url) {
                Some(path) => possible_extension(path, text_view(extension)),
                None => extension is None,
            },
    {
        match url_path(self.enclosure.url.as_str()) {
            Some(path) => path_extension(path.as_str()),
            None => None,
        }
    }

    /// The cache item of this feed item. An error where its time holds no
    /// day, where its address is no URL, and where the address ends in no
    /// extension: that it does where its path holds no dot.
    pub fn resolve(&self) -> (item: Result<CacheItem, FeedError>)
        ensures
            nasa_may_resolve(self@, outcome_view(item)),
            nasa_date(self@.pub_date) is None ==> item == Err::<CacheItem, FeedError>(
                FeedError::NasaDate,
            ),
            nasa_date(self@.pub_date) is Some && parsed_url_path(self@.url) is None ==> item
                == Err::<CacheItem, FeedError>(FeedError::NasaUrl),
            nasa_date(self@.pub_date) is Some && parsed_url_path(self@.url) is Some
                && !parsed_url_path(self@.url).unwrap().contains('.') ==> item == Err::<
                CacheItem,
                FeedError,
            >(FeedError::NasaExtension),
    {
        let extension = self.extension();
        let ghost ext = text_view(extension);
        let item = self.resolve_with(extension);
        assert(nasa_resolved(self@, ext) == outcome_view(item));
        item
    }
}

impl NasaFeed {
    /// The list of images as it is first shown, in the feed's order.
    pub fn daily_images(&self) -> (images: Vec<DailyImage>)
        ensures
            images@.len() == self.channel.item@.len(),
            forall|i: int|
                0 <= i < images@.len() ==> (#[trigger] images@[i])@ == nasa_daily_image(
                    self.channel.item@[i]@,
                ),
    {
        let mut images: Vec<DailyImage> = Vec::new();
        let mut i: usize = 0;
        while i < self.channel.item.len()
            invariant
                i <= self.channel.item@.len(),
                images@.len() == i,
                forall|j: int|
                    0 <= j < i ==> (#[trigger] images@[j])@ == nasa_daily_image(
                        self.channel.item@[j]@,
                    ),
            decreases self.channel.item@.len() - i,
        {
            images.push(self.channel.item[i].daily_image());
            i = i + 1;
        }
        images
    }

    /// What comes of each item of the feed, in the feed's order: its cache
    /// item, or the error it has none for.
    pub fn resolve(&self) -> (outcomes: Vec<Result<CacheItem, FeedError>>)
        ensures
            outcomes@.len() == self.channel.item@.len(),
            forall|i: int|
                0 <= i < outcomes@.len() ==> nasa_may_resolve(
                    self.channel.item@[i]@,
                    outcome_view(#[trigger] outcomes@[i]),
                ),
    {
        let mut outcomes: Vec<Result<CacheItem, FeedError>> = Vec::new();
        let mut i: usize = 0;
        while i < self.channel.item.len()
            invariant
                i <= self.channel.item@.len(),
                outcomes@.len() == i,
                forall|j: int|
                    0 <= j < i ==> nasa_may_resolve(
                        self.channel.item@[j]@,
                        outcome_view(#[trigger] outcomes@[j]),
                    ),
            decreases self.channel.item@.len() - i,
        {
            outcomes.push(self.channel.item[i].resolve());
            i = i + 1;
        }
        outcomes
    }
}

/// The file an item is cached under goes by its publication time and the
/// extension of its address alone: two items that agree in both and resolve
/// have the same file.
pub proof fn lemma_nasa_file_goes_by_date_and_extension(
    first: NasaItemView,
    second: NasaItemView,
    extension: Option<Seq<char>>,
)
    requires
        first.pub_date == second.pub_date,
        nasa_resolved(first, extension) is Ok,
        nasa_resolved(second, extension) is Ok,
    ensures
        nasa_resolved(first, extension).unwrap().file_name == nasa_resolved(
            second,
            extension,
        ).unwrap().file_name,
{
}

} // verus!
