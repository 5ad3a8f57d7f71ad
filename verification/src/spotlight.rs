//! The Windows Spotlight feed: a batch of items without dates, each a
//! document of its own inside the feed's document, cached under the
//! identifier the feed gives it.

use vstd::prelude::*;
use vstd::string::*;

use crate::feed::outcome_view;
use crate::feed::CacheItem;
use crate::feed::CacheItemView;
use crate::feed::FeedError;
use crate::signals::DailyImage;
use crate::signals::DailyImageView;
use crate::text::strip_suffixes;
use crate::text::to_unix_newlines;
use crate::text::trim_char;
use crate::text::trim_suffix;
use crate::text::trimmed;
use crate::text::unix_newlines;

verus! {

/// Where the landscape form of an image is.
#[derive(Debug, PartialEq, Eq)]
pub struct SpotlightLandscape {
    pub asset: String,
}

/// One image of the feed, as the feed writes it.
#[derive(Debug, PartialEq, Eq)]
pub struct SpotlightImage {
    pub landscape_image: SpotlightLandscape,
    /// The description, with a line that asks for a click at its end.
    pub icon_hover_text: String,
    /// The identifier the feed gives the image.
    pub entity_id: String,
}

/// The document of one item.
#[derive(Debug, PartialEq, Eq)]
pub struct SpotlightItemContent {
    pub ad: SpotlightImage,
}

/// One item of the batch: a document written out as text.
#[derive(Debug, PartialEq, Eq)]
pub struct SpotlightItem {
    pub item: String,
}

/// The items of the batch.
#[derive(Debug, PartialEq, Eq)]
pub struct SpotlightBatchInfo {
    pub items: Vec<SpotlightItem>,
}

/// The feed's document.
#[derive(Debug, PartialEq, Eq)]
pub struct SpotlightImages {
    pub batch_response: SpotlightBatchInfo,
}

/// The content of a [`SpotlightImage`].
pub ghost struct SpotlightImageView {
    pub asset: Seq<char>,
    pub icon_hover_text: Seq<char>,
    pub entity_id: Seq<char>,
}

impl View for SpotlightImage {
    type V = SpotlightImageView;

    open spec fn view(&self) -> SpotlightImageView {
        SpotlightImageView {
            asset: self.landscape_image.asset@,
            icon_hover_text: self.icon_hover_text@,
            entity_id: self.entity_id@,
        }
    }
}

/// The line that the feed puts at the end of every description.
pub const CLICK_LINE: &'static str = "\r\nRight-click to learn more";

/// The document inside an item's text: the text without the backticks
/// around it.
pub open spec fn item_document(item: Seq<char>) -> Seq<char> {
    trimmed(item, '`')
}

/// The description of an image as it is shown: without the line that asks
/// for a click, and with plain line feeds.
pub open spec fn shown_description(icon_hover_text: Seq<char>) -> Seq<char> {
    unix_newlines(strip_suffixes(icon_hover_text, CLICK_LINE@))
}

/// The image of the list that a feed image becomes: not yet in the cache,
/// without a date.
pub open spec fn spotlight_daily_image(image: SpotlightImageView) -> DailyImageView {
    DailyImageView {
        url: Seq::empty(),
        date: Seq::empty(),
        description: shown_description(image.icon_hover_text),
    }
}

/// The cache item of a feed image: the file is the identifier and `.jpg`,
/// and progress reports call the item by its file.
pub open spec fn spotlight_cache_item(image: SpotlightImageView) -> CacheItemView {
    CacheItemView {
        label: image.entity_id + ".jpg"@,
        file_name: image.entity_id + ".jpg"@,
        url: image.asset,
        date: None,
    }
}

impl SpotlightItem {
    /// The document inside the item's text.
    pub fn document(&self) -> (document: &str)
        ensures
            document@ == item_document(self.item@),
    {
        trim_char(self.item.as_str(), '`')
    }
}

impl SpotlightImages {
    /// The documents of the batch's items, in the feed's order.
    pub fn documents(&self) -> (documents: Vec<String>)
        ensures
            documents@.len() == self.batch_response.items@.len(),
            forall|i: int|
                0 <= i < documents@.len() ==> (#[trigger] documents@[i])@ == item_document(
                    self.batch_response.items@[i].item@,
                ),
    {
        let mut documents: Vec<String> = Vec::new();
        let mut i: usize = 0;
        while i < self.batch_response.items.len()
            invariant
                i <= self.batch_response.items@.len(),
                documents@.len() == i,
                forall|j: int|
                    0 <= j < i ==> (#[trigger] documents@[j])@ == item_document(
                        self.batch_response.items@[j].item@,
                    ),
            decreases self.batch_response.items@.len() - i,
        {
            documents.push(String::from_str(self.batch_response.items[i].document()));
            i = i + 1;
        }
        documents
    }
}

impl SpotlightImage {
    /// The image of the list that this feed image becomes.
    pub fn daily_image(&self) -> (image: DailyImage)
        ensures
            image@ == spotlight_daily_image(self@),
    {
        let url = String::from_str("");
        let date = String::from_str("");
        proof {
            reveal_strlit("");
            assert(url@ =~= Seq::<char>::empty());
            assert(date@ =~= Seq::<char>::empty());
        }
        let description = to_unix_newlines(trim_suffix(self.icon_hover_text.as_str(), CLICK_LINE));
        DailyImage { url, date, description }
    }

    /// The cache item of this feed image.
    pub fn resolve(&self) -> (item: CacheItem)
        ensures
            item@ == spotlight_cache_item(self@),
    {
        let mut file_name = self.entity_id.clone();
        file_name.append(".jpg");
        CacheItem {
            label: file_name.clone(),
            file_name,
            url: self.landscape_image.asset.clone(),
            date: None,
        }
    }
}

impl From<SpotlightImage> for DailyImage {
    /// The image of the list that a feed image becomes.
    fn from(value: SpotlightImage) -> (image: DailyImage)
        ensures
            image@ == spotlight_daily_image(value@),
    {
        value.daily_image()
    }
}

impl vstd::std_specs::convert::FromSpecImpl<SpotlightImage> for DailyImage {
    /// The contract of `from` states the conversion over the contents of
    /// the two values; as an equation between values it is not claimed.
    open spec fn obeys_from_spec() -> bool {
        false
    }

    /// Some image with the contents that the conversion gives.
    open spec fn from_spec(value: SpotlightImage) -> DailyImage {
        choose|image: DailyImage| image@ == spotlight_daily_image(value@)
    }
}

/// The list of images as it is first shown, in the feed's order.
pub fn spotlight_daily_images(contents: &Vec<SpotlightItemContent>) -> (images: Vec<DailyImage>)
    ensures
        images@.len() == contents@.len(),
        forall|i: int|
            0 <= i < images@.len() ==> (#[trigger] images@[i])@ == spotlight_daily_image(
                contents@[i].ad@,
            ),
{
    let mut images: Vec<DailyImage> = Vec::new();
    let mut i: usize = 0;
    while i < contents.len()
        invariant
            i <= contents@.len(),
            images@.len() == i,
            forall|j: int|
                0 <= j < i ==> (#[trigger] images@[j])@ == spotlight_daily_image(contents@[j].ad@),
        decreases contents@.len() - i,
    {
        images.push(contents[i].ad.daily_image());
        i = i + 1;
    }
    images
}

/// What comes of each item of the batch, in the feed's order: its cache
/// item, which every item of this feed has.
pub fn spotlight_resolve(contents: &Vec<SpotlightItemContent>) -> (outcomes: Vec<
    Result<CacheItem, FeedError>,
>)
    ensures
        outcomes@.len() == contents@.len(),
        forall|i: int|
            0 <= i < outcomes@.len() ==> outcome_view(#[trigger] outcomes@[i]) == Ok::<
                CacheItemView,
                FeedError,
            >(spotlight_cache_item(contents@[i].ad@)),
{
    let mut outcomes: Vec<Result<CacheItem, FeedError>> = Vec::new();
    let mut i: usize = 0;
    while i < contents.len()
        invariant
            i <= contents@.len(),
            outcomes@.len() == i,
            forall|j: int|
                0 <= j < i ==> outcome_view(#[trigger] outcomes@[j]) == Ok::<
                    CacheItemView,
                    FeedError,
                >(spotlight_cache_item(contents@[j].ad@)),
        decreases contents@.len() - i,
    {
        outcomes.push(Ok(contents[i].ad.resolve()));
        i = i + 1;
    }
    outcomes
}

/// The file an image is cached under goes by its identifier alone.
pub proof fn lemma_spotlight_file_goes_by_identifier(
    first: SpotlightImageView,
    second: SpotlightImageView,
)
    requires
        first.entity_id == second.entity_id,
    ensures
        spotlight_cache_item(first).file_name == spotlight_cache_item(second).file_name,
{
}

} // verus!
