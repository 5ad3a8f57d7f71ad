//! The closed set of image feeds and what is fixed about each of them.

use vstd::prelude::*;
use vstd::string::*;

use crate::date::iso_text;
use crate::date::today;
use crate::date::CalendarDate;

verus! {

/// One of the feeds the cache is synchronised with.
#[derive(Debug, Clone, Copy, PartialEq, Eq, Structural)]
pub enum ImageService {
    Bing,
    Nasa,
    Spotlight,
}

/// The display name of a feed, as a sequence of characters.
pub open spec fn service_name(service: ImageService) -> Seq<char> {
    match service {
        ImageService::Bing => "Bing"@,
        ImageService::Nasa => "NASA"@,
        ImageService::Spotlight => "Windows Spotlight"@,
    }
}

/// Whether a feed publishes one dated image per day.
pub open spec fn service_is_daily(service: ImageService) -> bool {
    !(service is Spotlight)
}

/// The address a feed's item list is fetched from.
pub open spec fn service_url(service: ImageService) -> Seq<char> {
    match service {
        ImageService::Bing => "https://www.bing.com/HPImageArchive.aspx?format=js&idx=0&n=14"@,
        ImageService::Nasa => "https://www.nasa.gov/feeds/iotd-feed/"@,
        ImageService::Spotlight =>
            "https://fd.api.iris.microsoft.com/v4/api/selection?&placement=88000820&bcnt=4&country=us&locale=en-us&fmt=json"@,
    }
}

impl ImageService {
    /// The display name, also the name of the feed's cache directory.
    pub fn as_str(&self) -> (name: &'static str)
        ensures
            name@ == service_name(*self),
    {
        match self {
            ImageService::Bing => "Bing",
            ImageService::Nasa => "NASA",
            ImageService::Spotlight => "Windows Spotlight",
        }
    }

    /// True for the feeds whose items are keyed by a calendar date.
    pub fn is_daily(&self) -> (daily: bool)
        ensures
            daily == service_is_daily(*self),
    {
        match self {
            ImageService::Bing => true,
            ImageService::Nasa => true,
            ImageService::Spotlight => false,
        }
    }
}

/// The address a feed's item list is fetched from.
pub fn get_service_url(service: &ImageService) -> (url: &'static str)
    ensures
        url@ == service_url(*service),
{
    match service {
        ImageService::Bing => "https://www.bing.com/HPImageArchive.aspx?format=js&idx=0&n=14",
        ImageService::Nasa => "https://www.nasa.gov/feeds/iotd-feed/",
        ImageService::Spotlight =>
            "https://fd.api.iris.microsoft.com/v4/api/selection?&placement=88000820&bcnt=4&country=us&locale=en-us&fmt=json",
    }
}

/// The extension of the file a daily feed's item list is cached in.
pub open spec fn metadata_extension(service: ImageService) -> Seq<char> {
    if service is Nasa {
        "xml"@
    } else {
        "json"@
    }
}

/// The name of the file a feed's item list is cached in on the day `date`:
/// the date and the feed's extension for a daily feed, `info.json` for the
/// others.
pub open spec fn metadata_name(service: ImageService, date: CalendarDate) -> Seq<char> {
    if service_is_daily(service) {
        iso_text(date) + seq!['.'] + metadata_extension(service)
    } else {
        "info.json"@
    }
}

/// The title under which a feed's runs report: the feed's name and
/// ` images`.
pub open spec fn service_title(service: ImageService) -> Seq<char> {
    service_name(service) + " images"@
}

/// The extension of the file a daily feed's item list is cached in.
pub fn get_metadata_extension(service: &ImageService) -> (extension: &'static str)
    ensures
        extension@ == metadata_extension(*service),
{
    match service {
        ImageService::Nasa => "xml",
        _ => "json",
    }
}

/// The name of the file a feed's item list is cached in on the day `date`.
pub fn get_service_metadata_name_on(service: &ImageService, date: &CalendarDate) -> (name: String)
    ensures
        name@ == metadata_name(*service, *date),
{
    if service.is_daily() {
        let mut name = date.iso_string();
        proof {
            reveal_strlit(".");
        }
        name.append(".");
        name.append(get_metadata_extension(service));
        name
    } else {
        String::from_str("info.json")
    }
}

/// The name of the file a feed's item list is cached in today. For a daily
/// feed it is the name on some day, which the clock decides.
pub fn get_service_metadata_name(service: &ImageService) -> (name: String)
    ensures
        exists|date: CalendarDate| date.wf() && name@ == #[trigger] metadata_name(*service, date),
        !service_is_daily(*service) ==> name@ == "info.json"@,
{
    let date = today();
    let name = get_service_metadata_name_on(service, &date);
    assert(name@ == metadata_name(*service, date));
    name
}

/// The title under which a feed's runs report.
pub fn get_service_title(service: &ImageService) -> (title: String)
    ensures
        title@ == service_title(*service),
{
    let mut title = String::from_str(service.as_str());
    title.append(" images");
    title
}

} // verus!
