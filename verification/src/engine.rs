//! The synchronisation of one feed's cache, as a machine that is told what
//! happened and answers with what to do next.
//!
//! A run goes through these steps: find the feed's item list, in the cache or
//! at the feed; bring the items into their common form; show the list; see
//! to it that every item's image is in the cache, downloading the missing
//! ones; remove the files that have had their day; report. The machine
//! decides, and whoever drives it reads, writes and downloads.

use std::time::Duration;
use vstd::prelude::*;
use vstd::string::*;

use crate::bing::bing_daily_image;
use crate::bing::bing_resolved;
use crate::bing::BingImages;
use crate::date::CalendarDate;
use crate::download::add_capped;
use crate::download::capped_sum;
use crate::eviction::stale_files;
use crate::eviction::stale_names;
use crate::feed::error_text;
use crate::feed::item_views;
use crate::feed::ok_items;
use crate::feed::outcome_view;
use crate::feed::outcome_views;
use crate::feed::resolved_items;
use crate::feed::Outcome;
use crate::feed::CacheItem;
use crate::feed::CacheItemView;
use crate::feed::FeedError;
use crate::nasa::nasa_daily_image;
use crate::nasa::nasa_may_resolve;
use crate::nasa::NasaFeed;
use crate::notification::AlertView;
use crate::notification::NotificationAlert;
use crate::notification_center::text_views;
use crate::report::checking_alert;
use crate::report::condense_duration;
use crate::report::condensed;
use crate::report::duration_millis;
use crate::report::duration_seconds;
use crate::report::error_alert;
use crate::report::fetching_alert;
use crate::report::finished_alert;
use crate::report::new_checking_alert;
use crate::report::new_error_alert;
use crate::report::processed_alert;
use crate::report::set_fetching;
use crate::report::set_finished;
use crate::report::set_processed;
use crate::service::get_service_metadata_name_on;
use crate::service::get_service_url;
use crate::service::metadata_name;
use crate::service::service_title;
use crate::service::service_url;
use crate::service::ImageService;
use crate::signals::copy_images;
use crate::signals::image_views;
use crate::signals::DailyImage;
use crate::signals::DailyImageView;
use crate::signals::ImageList;
use crate::signals::ImageListView;
use crate::signals::Refresh;
use crate::spotlight::spotlight_cache_item;
use crate::spotlight::spotlight_daily_image;
use crate::spotlight::spotlight_daily_images;
use crate::spotlight::spotlight_resolve;
use crate::spotlight::SpotlightItemContent;

verus! {

/// Where a run stands: what it is waiting to be told.
#[derive(Debug, Clone, Copy, PartialEq, Eq, Structural)]
pub enum SyncPhase {
    /// Whether the item list is in the cache.
    MetadataProbe,
    /// The item list, read from the cache.
    MetadataRead,
    /// The item list, fetched from the feed.
    MetadataFetch,
    /// Whether the current item's image is in the cache.
    ImageProbe,
    /// The end of the current item's download.
    ImageDownload,
    /// The names of the files in the cache.
    CacheListing,
    /// The end of the removal of the stale files.
    Removal,
    /// Nothing: the run came to its end.
    Finished,
    /// Nothing: the run was given up.
    Failed,
}

/// What the driver of a run is asked to do next.
#[derive(Debug, PartialEq, Eq)]
pub enum SyncRequest {
    /// Say whether this file is in the feed's cache directory.
    ProbeMetadata { file_name: String },
    /// Read the item list from this file of the cache directory.
    ReadMetadata { file_name: String },
    /// Fetch the item list from `url` and write it to this file.
    FetchMetadata { url: String, file_name: String },
    /// Say whether this file is in the cache directory, and where.
    ProbeImage { file_name: String },
    /// Download `url` to this file. The download is one step of a run that
    /// stands at `alert`, with `completed_steps` of `total_steps` done.
    DownloadImage {
        url: String,
        file_name: String,
        alert: NotificationAlert,
        completed_steps: u64,
        total_steps: u64,
    },
    /// Name the files of the cache directory.
    ListCache,
    /// Remove these files from the cache directory.
    RemoveFiles { names: Vec<String> },
    /// Nothing: the run came to its end.
    Done,
    /// Nothing: the run was given up.
    Abort,
}

/// The content of a [`SyncRequest`].
pub ghost enum RequestView {
    ProbeMetadata { file_name: Seq<char> },
    ReadMetadata { file_name: Seq<char> },
    FetchMetadata { url: Seq<char>, file_name: Seq<char> },
    ProbeImage { file_name: Seq<char> },
    DownloadImage {
        url: Seq<char>,
        file_name: Seq<char>,
        alert: AlertView,
        completed_steps: u64,
        total_steps: u64,
    },
    ListCache,
    RemoveFiles { names: Seq<Seq<char>> },
    Done,
    Abort,
}

impl View for SyncRequest {
    type V = RequestView;

    open spec fn view(&self) -> RequestView {
        match self {
            SyncRequest::ProbeMetadata { file_name } => RequestView::ProbeMetadata {
                file_name: file_name@,
            },
            SyncRequest::ReadMetadata { file_name } => RequestView::ReadMetadata {
                file_name: file_name@,
            },
            SyncRequest::FetchMetadata { url, file_name } => RequestView::FetchMetadata {
                url: url@,
                file_name: file_name@,
            },
            SyncRequest::ProbeImage { file_name } => RequestView::ProbeImage {
                file_name: file_name@,
            },
            SyncRequest::DownloadImage { url, file_name, alert, completed_steps, total_steps } =>
                RequestView::DownloadImage {
                url: url@,
                file_name: file_name@,
                alert: alert@,
                completed_steps: *completed_steps,
                total_steps: *total_steps,
            },
            SyncRequest::ListCache => RequestView::ListCache,
            SyncRequest::RemoveFiles { names } => RequestView::RemoveFiles {
                names: text_views(names@),
            },
            SyncRequest::Done => RequestView::Done,
            SyncRequest::Abort => RequestView::Abort,
        }
    }
}

/// The contents of a list of reports.
pub open spec fn alert_views(alerts: Seq<NotificationAlert>) -> Seq<AlertView> {
    alerts.map_values(|a: NotificationAlert| a@)
}

/// What a run answers when it is told something: the reports to file, the
/// image list to show if it changed, and what to do next.
#[derive(Debug, PartialEq, Eq)]
pub struct SyncStep {
    pub alerts: Vec<NotificationAlert>,
    pub list: Option<ImageList>,
    pub request: SyncRequest,
}

/// The content of a [`SyncStep`].
pub ghost struct StepView {
    pub alerts: Seq<AlertView>,
    pub list: Option<ImageListView>,
    pub request: RequestView,
}

impl View for SyncStep {
    type V = StepView;

    open spec fn view(&self) -> StepView {
        StepView {
            alerts: alert_views(self.alerts@),
            list: match self.list {
                Some(list) => Some(list@),
                None => None,
            },
            request: self.request@,
        }
    }
}

/// The state of a run.
pub ghost struct EngineView {
    pub service: ImageService,
    /// The day of the run.
    pub today: CalendarDate,
    pub phase: SyncPhase,
    /// The run's report as it stands.
    pub notification: AlertView,
    /// What came of each of the feed's items, once they are known.
    pub items: Seq<Outcome>,
    /// The image list as it is shown.
    pub images: Seq<DailyImageView>,
    /// The place of the current item.
    pub index: nat,
    /// Where the current item's file lies, while it is being downloaded.
    pub path: Seq<char>,
    /// The bytes downloaded so far.
    pub downloaded: u64,
    /// The images that were missing from the cache so far.
    pub updated_images: u64,
    /// The steps taken before the items: 1 where the item list was fetched.
    pub total_steps: u64,
    /// The files found stale.
    pub removed: u64,
}

/// A step that files nothing and shows nothing.
pub open spec fn quiet_step(request: RequestView) -> StepView {
    StepView { alerts: Seq::empty(), list: None, request }
}

impl EngineView {
    /// The state is consistent: the report is a fraction, the list shows
    /// one image for each item, and the current item is one of them, with a
    /// cache item, while the run is busy with it.
    pub open spec fn wf(self) -> bool {
        &&& self.notification.percent.wf()
        &&& self.images.len() == self.items.len()
        &&& self.items.len() <= usize::MAX
        &&& self.index <= self.items.len()
        &&& (self.phase is ImageProbe || self.phase is ImageDownload) ==> self.index
            < self.items.len() && self.items[self.index as int] is Ok
    }

    /// The cache item of the current item.
    pub open spec fn current(self) -> CacheItemView {
        self.items[self.index as int].unwrap()
    }

    /// The run given up over an error: its report says so.
    pub open spec fn given_up(self, message: Seq<char>, cause: Seq<char>) -> EngineView {
        EngineView {
            phase: SyncPhase::Failed,
            notification: error_alert(self.service, message, cause),
            ..self
        }
    }

    /// The request for the item list to be fetched.
    pub open spec fn fetch_request(self) -> RequestView {
        RequestView::FetchMetadata {
            url: service_url(self.service),
            file_name: metadata_name(self.service, self.today),
        }
    }

    /// The run turned to the feed: one step more, and the report says so.
    pub open spec fn fetching(self) -> EngineView {
        EngineView {
            phase: SyncPhase::MetadataFetch,
            notification: fetching_alert(self.notification, self.service),
            total_steps: 1,
            ..self
        }
    }

    /// The run as it turns to the current item, the reports it files over
    /// that, and what it asks for. Where the item has a cache item, it asks
    /// whether the item's image is in the cache. Where the item has none, the
    /// run is given up over the item's error, and files the error. Where no
    /// item is left, it asks for the cache's files.
    pub open spec fn turn_to_item(self) -> (EngineView, Seq<AlertView>, RequestView) {
        if self.index < self.items.len() {
            match self.items[self.index as int] {
                Ok(item) => (
                    EngineView { phase: SyncPhase::ImageProbe, ..self },
                    Seq::empty(),
                    RequestView::ProbeImage { file_name: item.file_name },
                ),
                Err(error) => {
                    let next = self.given_up(error_text(error), error_text(error));
                    (next, seq![next.notification], RequestView::Abort)
                },
            }
        } else {
            (
                EngineView { phase: SyncPhase::CacheListing, ..self },
                Seq::empty(),
                RequestView::ListCache,
            )
        }
    }

    /// The steps of the run: those before the items, and one for each item.
    pub open spec fn all_steps(self) -> u64 {
        capped_sum(self.total_steps, self.items.len() as u64)
    }

    /// The steps done when the current item's download begins: none at the
    /// first item, and otherwise those before the items and the items before
    /// the one just processed.
    pub open spec fn steps_before_download(self) -> u64 {
        if self.index == 0 {
            0
        } else {
            capped_sum(self.total_steps, (self.index - 1) as u64)
        }
    }

    /// The run after the current item's image was found or fetched at
    /// `path`: the list shows the path, the report says the item is
    /// processed, and the run turns to the next item, which it may be given
    /// up over.
    pub open spec fn processed(self, path: Seq<char>) -> (EngineView, StepView) {
        let i = self.index as int;
        let images = self.images.update(i, DailyImageView { url: path, ..self.images[i] });
        let notification = processed_alert(
            self.notification,
            self.current().label,
            self.index,
            self.total_steps,
            self.items.len(),
        );
        let moved = EngineView { images, notification, index: self.index + 1, ..self };
        let (next, filed, request) = moved.turn_to_item();
        (
            next,
            StepView {
                alerts: seq![notification] + filed,
                list: Some(ImageListView { service: self.service, images }),
                request,
            },
        )
    }
}

/// The run as it begins, and its first step. The cache is asked for the
/// item list, unless the list is to be fetched anew: then the feed is.
pub open spec fn started(service: ImageService, reset: bool, today: CalendarDate) -> (
    EngineView,
    StepView,
) {
    let first = EngineView {
        service,
        today,
        phase: SyncPhase::MetadataProbe,
        notification: checking_alert(service),
        items: Seq::empty(),
        images: Seq::empty(),
        index: 0,
        path: Seq::empty(),
        downloaded: 0,
        updated_images: 0,
        total_steps: 0,
        removed: 0,
    };
    if reset {
        let next = first.fetching();
        (
            next,
            StepView {
                alerts: seq![first.notification, next.notification],
                list: None,
                request: next.fetch_request(),
            },
        )
    } else {
        (
            first,
            StepView {
                alerts: seq![first.notification],
                list: None,
                request: RequestView::ProbeMetadata { file_name: metadata_name(service, today) },
            },
        )
    }
}

/// The run after it was told whether the item list is in the cache: it
/// reads the list where it is, and turns to the feed where it is not.
pub open spec fn metadata_probed(state: EngineView, exists: bool) -> (EngineView, StepView) {
    if exists {
        (
            EngineView { phase: SyncPhase::MetadataRead, ..state },
            quiet_step(
                RequestView::ReadMetadata { file_name: metadata_name(state.service, state.today) },
            ),
        )
    } else {
        let next = state.fetching();
        (
            next,
            StepView { alerts: seq![next.notification], list: None, request: next.fetch_request() },
        )
    }
}

/// The run given up over an error: its report says so.
pub open spec fn failed(state: EngineView, message: Seq<char>, cause: Seq<char>) -> (
    EngineView,
    StepView,
) {
    let next = state.given_up(message, cause);
    (next, StepView { alerts: seq![next.notification], list: None, request: RequestView::Abort })
}

/// The run after the item list arrived, `bytes` long, and with it what
/// came of each of its items. The list of images is shown, the bytes count
/// as downloaded where the list came from the feed, and the run turns to the
/// first item.
pub open spec fn items_known(
    state: EngineView,
    images: Seq<DailyImageView>,
    items: Seq<Outcome>,
    bytes: u64,
) -> (EngineView, StepView) {
    let downloaded = if state.phase is MetadataFetch {
        capped_sum(state.downloaded, bytes)
    } else {
        state.downloaded
    };
    let known = EngineView { items, images, index: 0, downloaded, ..state };
    let (next, filed, request) = known.turn_to_item();
    (
        next,
        StepView {
            alerts: filed,
            list: Some(ImageListView { service: state.service, images }),
            request,
        },
    )
}

/// The run after it was told whether the current item's image is in the
/// cache, and where its file lies. An image that is there is not fetched
/// again: the item is processed. One that is missing is downloaded.
pub open spec fn image_probed(state: EngineView, exists: bool, path: Seq<char>) -> (
    EngineView,
    StepView,
) {
    if exists {
        state.processed(path)
    } else {
        let item = state.current();
        (
            EngineView {
                phase: SyncPhase::ImageDownload,
                path,
                updated_images: capped_sum(state.updated_images, 1),
                ..state
            },
            quiet_step(
                RequestView::DownloadImage {
                    url: item.url,
                    file_name: item.file_name,
                    alert: state.notification,
                    completed_steps: state.steps_before_download(),
                    total_steps: state.all_steps(),
                },
            ),
        )
    }
}

/// The run after the current item's download ended with `bytes` bytes:
/// they count as downloaded, and the item is processed.
pub open spec fn image_downloaded(state: EngineView, bytes: u64) -> (EngineView, StepView) {
    EngineView { downloaded: capped_sum(state.downloaded, bytes), ..state }.processed(state.path)
}

/// The run after it was told the names of the files in the cache: the stale
/// ones, going by the items' cache items, are to be removed.
pub open spec fn cache_listed(state: EngineView, names: Seq<Seq<char>>) -> (EngineView, StepView) {
    let stale = stale_names(state.service, names, ok_items(state.items), state.today);
    (
        EngineView { phase: SyncPhase::Removal, removed: stale.len() as u64, ..state },
        quiet_step(RequestView::RemoveFiles { names: stale }),
    )
}

/// The run after the stale files were removed, `seconds` whole seconds and
/// `millis` whole milliseconds after it began: it files its last report.
pub open spec fn files_removed(state: EngineView, seconds: u64, millis: u128) -> (
    EngineView,
    StepView,
) {
    let notification = finished_alert(
        state.notification,
        state.downloaded,
        state.updated_images,
        state.items.len(),
        state.removed,
        condensed(seconds, millis),
    );
    (
        EngineView { phase: SyncPhase::Finished, notification, ..state },
        StepView { alerts: seq![notification], list: None, request: RequestView::Done },
    )
}

/// A feed's item list, read out of its document.
#[derive(Debug)]
pub enum DecodedFeed {
    Bing(BingImages),
    Nasa(NasaFeed),
    /// The documents of the batch's items, each read out of its text.
    Spotlight(Vec<SpotlightItemContent>),
}

impl DecodedFeed {
    /// The feed an item list is from.
    pub open spec fn service(self) -> ImageService {
        match self {
            DecodedFeed::Bing(_) => ImageService::Bing,
            DecodedFeed::Nasa(_) => ImageService::Nasa,
            DecodedFeed::Spotlight(_) => ImageService::Spotlight,
        }
    }

    /// The feed this item list is from.
    pub fn get_service(&self) -> (service: ImageService)
        ensures
            service == self.service(),
    {
        match self {
            DecodedFeed::Bing(_) => ImageService::Bing,
            DecodedFeed::Nasa(_) => ImageService::Nasa,
            DecodedFeed::Spotlight(_) => ImageService::Spotlight,
        }
    }
}

/// Whether `images` and `items` are what the items of a feed come to: the
/// image to show and what came of resolving it, for each item in the feed's
/// order.
pub open spec fn feed_gives(feed: DecodedFeed, images: Seq<DailyImageView>, items: Seq<Outcome>) ->
    bool {
    match feed {
        DecodedFeed::Bing(list) => {
            &&& images.len() == list.images@.len()
            &&& items.len() == list.images@.len()
            &&& forall|i: int|
                0 <= i < images.len() ==> #[trigger] images[i] == bing_daily_image(
                    list.images@[i]@,
                )
            &&& forall|i: int|
                0 <= i < items.len() ==> #[trigger] items[i] == bing_resolved(list.images@[i]@)
        },
        DecodedFeed::Nasa(document) => {
            let list = document.channel.item@;
            &&& images.len() == list.len()
            &&& items.len() == list.len()
            &&& forall|i: int|
                0 <= i < images.len() ==> #[trigger] images[i] == nasa_daily_image(list[i]@)
            &&& forall|i: int|
                0 <= i < items.len() ==> nasa_may_resolve(list[i]@, #[trigger] items[i])
        },
        DecodedFeed::Spotlight(contents) => {
            &&& images.len() == contents@.len()
            &&& items.len() == contents@.len()
            &&& forall|i: int|
                0 <= i < images.len() ==> #[trigger] images[i] == spotlight_daily_image(
                    contents@[i].ad@,
                )
            &&& forall|i: int|
                0 <= i < items.len() ==> #[trigger] items[i] == Ok::<CacheItemView, FeedError>(
                    spotlight_cache_item(contents@[i].ad@),
                )
        },
    }
}

/// One run of the synchronisation of a feed's cache.
#[derive(Debug)]
pub struct SyncEngine {
    service: ImageService,
    today: CalendarDate,
    phase: SyncPhase,
    notification: NotificationAlert,
    items: Vec<Result<CacheItem, FeedError>>,
    images: Vec<DailyImage>,
    index: usize,
    path: String,
    downloaded: u64,
    updated_images: u64,
    total_steps: u64,
    removed: u64,
}

impl View for SyncEngine {
    type V = EngineView;

    closed spec fn view(&self) -> EngineView {
        EngineView {
            service: self.service,
            today: self.today,
            phase: self.phase,
            notification: self.notification@,
            items: outcome_views(self.items@),
            images: image_views(self.images@),
            index: self.index as nat,
            path: self.path@,
            downloaded: self.downloaded,
            updated_images: self.updated_images,
            total_steps: self.total_steps,
            removed: self.removed,
        }
    }
}

impl SyncEngine {
    /// Begins a run on the day `today`.
    pub fn start(request: Refresh, today: CalendarDate) -> (begun: (SyncEngine, SyncStep))
        ensures
            (begun.0@, begun.1@) == started(request.service, request.reset, today),
            begun.0@.wf(),
    {
        let service = request.service;
        let reset = request.reset;
        let first = new_checking_alert(&service);
        let file_name = get_service_metadata_name_on(&service, &today);
        let mut engine = SyncEngine {
            service,
            today,
            phase: SyncPhase::MetadataProbe,
            notification: first.clone(),
            items: Vec::new(),
            images: Vec::new(),
            index: 0,
            path: String::from_str(""),
            downloaded: 0,
            updated_images: 0,
            total_steps: 0,
            removed: 0,
        };
        proof {
            reveal_strlit("");
            assert(engine.path@ =~= Seq::<char>::empty());
            assert(outcome_views(engine.items@) =~= Seq::<Outcome>::empty());
            assert(image_views(engine.images@) =~= Seq::<DailyImageView>::empty());
        }
        let mut alerts: Vec<NotificationAlert> = Vec::new();
        alerts.push(first);
        let next = if reset {
            engine.turn_to_feed();
            alerts.push(engine.notification.clone());
            SyncRequest::FetchMetadata {
                url: String::from_str(get_service_url(&service)),
                file_name,
            }
        } else {
            SyncRequest::ProbeMetadata { file_name }
        };
        let step = SyncStep { alerts, list: None, request: next };
        proof {
            let (state, answer) = started(service, reset, today);
            assert(step@.alerts =~= answer.alerts);
        }
        (engine, step)
    }

    /// The run turns to the feed for its item list.
    fn turn_to_feed(&mut self)
        ensures
            final(self)@ == old(self)@.fetching(),
    {
        set_fetching(&mut self.notification, &self.service);
        self.phase = SyncPhase::MetadataFetch;
        self.total_steps = 1;
    }

    /// Where the run stands.
    pub fn phase(&self) -> (phase: SyncPhase)
        ensures
            phase == self@.phase,
    {
        self.phase
    }

    /// The feed the run is for.
    pub fn service(&self) -> (service: ImageService)
        ensures
            service == self@.service,
    {
        self.service
    }

    /// The run's report as it stands.
    pub fn notification(&self) -> (alert: &NotificationAlert)
        ensures
            alert@ == self@.notification,
    {
        &self.notification
    }

    /// Tells the run whether the item list is in the cache.
    pub fn on_metadata_probed(&mut self, exists: bool) -> (step: SyncStep)
        requires
            old(self)@.wf(),
            old(self)@.phase is MetadataProbe,
        ensures
            (final(self)@, step@) == metadata_probed(old(self)@, exists),
            final(self)@.wf(),
    {
        let file_name = get_service_metadata_name_on(&self.service, &self.today);
        if exists {
            self.phase = SyncPhase::MetadataRead;
            let step = SyncStep {
                alerts: Vec::new(),
                list: None,
                request: SyncRequest::ReadMetadata { file_name },
            };
            assert(step@.alerts =~= Seq::<AlertView>::empty());
            step
        } else {
            self.turn_to_feed();
            let mut alerts: Vec<NotificationAlert> = Vec::new();
            alerts.push(self.notification.clone());
            let step = SyncStep {
                alerts,
                list: None,
                request: SyncRequest::FetchMetadata {
                    url: String::from_str(get_service_url(&self.service)),
                    file_name,
                },
            };
            assert(step@.alerts =~= seq![self@.notification]);
            step
        }
    }

    /// Gives the run up over an error of the work around it: `message` says
    /// what failed, `cause` what it failed over.
    pub fn on_failure(&mut self, message: &str, cause: &str) -> (step: SyncStep)
        ensures
            (final(self)@, step@) == failed(old(self)@, message@, cause@),
            old(self)@.wf() ==> final(self)@.wf(),
    {
        self.notification = new_error_alert(&self.service, message, cause);
        self.phase = SyncPhase::Failed;
        let mut alerts: Vec<NotificationAlert> = Vec::new();
        alerts.push(self.notification.clone());
        let step = SyncStep { alerts, list: None, request: SyncRequest::Abort };
        assert(step@.alerts =~= seq![self@.notification]);
        step
    }

    /// Turns the run to the current item: adds to `alerts` what the run
    /// files over that, and gives what it asks for.
    fn turn_to_item(&mut self, alerts: Vec<NotificationAlert>) -> (answer: (
        Vec<NotificationAlert>,
        SyncRequest,
    ))
        requires
            old(self)@.index <= old(self)@.items.len(),
        ensures
            final(self)@ == old(self)@.turn_to_item().0,
            alert_views(answer.0@) == alert_views(alerts@) + old(self)@.turn_to_item().1,
            answer.1@ == old(self)@.turn_to_item().2,
    {
        let mut alerts = alerts;
        let ghost before = alert_views(alerts@);
        if self.index < self.items.len() {
            assert(outcome_views(self.items@)[self.index as int] == outcome_view(
                self.items@[self.index as int],
            ));
            match &self.items[self.index] {
                Ok(item) => {
                    let file_name = item.file_name.clone();
                    self.phase = SyncPhase::ImageProbe;
                    assert(alert_views(alerts@) =~= before + Seq::<AlertView>::empty());
                    (alerts, SyncRequest::ProbeImage { file_name })
                },
                Err(error) => {
                    let text = error.message();
                    self.notification = new_error_alert(
                        &self.service,
                        text.as_str(),
                        text.as_str(),
                    );
                    self.phase = SyncPhase::Failed;
                    alerts.push(self.notification.clone());
                    assert(alert_views(alerts@) =~= before + seq![self@.notification]);
                    (alerts, SyncRequest::Abort)
                },
            }
        } else {
            self.phase = SyncPhase::CacheListing;
            assert(alert_views(alerts@) =~= before + Seq::<AlertView>::empty());
            (alerts, SyncRequest::ListCache)
        }
    }

    /// The image list as it is shown now.
    fn shown_list(&self) -> (list: ImageList)
        ensures
            list@ == (ImageListView { service: self@.service, images: self@.images }),
    {
        ImageList { service: self.service, images: copy_images(&self.images) }
    }

    /// Tells the run what came of each of the feed's items, with the list of
    /// images to show, after an item list of `bytes` bytes arrived.
    pub fn on_items(
        &mut self,
        images: Vec<DailyImage>,
        items: Vec<Result<CacheItem, FeedError>>,
        bytes: u64,
    ) -> (step: SyncStep)
        requires
            old(self)@.wf(),
            old(self)@.phase is MetadataRead || old(self)@.phase is MetadataFetch,
            items@.len() == images@.len(),
        ensures
            (final(self)@, step@) == items_known(
                old(self)@,
                image_views(images@),
                outcome_views(items@),
                bytes,
            ),
            final(self)@.wf(),
    {
        if self.phase == SyncPhase::MetadataFetch {
            self.downloaded = add_capped(self.downloaded, bytes);
        }
        self.items = items;
        self.images = images;
        self.index = 0;
        let count = self.items.len();
        assert(self@.items.len() == count);
        let list = self.shown_list();
        let alerts: Vec<NotificationAlert> = Vec::new();
        assert(alert_views(alerts@) =~= Seq::<AlertView>::empty());
        let ghost known = self@;
        let (alerts, request) = self.turn_to_item(alerts);
        let step = SyncStep { alerts, list: Some(list), request };
        assert(step@.alerts =~= known.turn_to_item().1);
        step
    }

    /// Tells the run the feed's item list, read out of a document of `bytes`
    /// bytes. Each item is brought into the common form, and the run goes on
    /// as `on_items` says.
    pub fn on_metadata(&mut self, feed: DecodedFeed, bytes: u64) -> (step: SyncStep)
        requires
            old(self)@.wf(),
            old(self)@.phase is MetadataRead || old(self)@.phase is MetadataFetch,
            feed.service() == old(self)@.service,
        ensures
            exists|images: Seq<DailyImageView>, items: Seq<Outcome>|
                feed_gives(feed, images, items) && (final(self)@, step@) == #[trigger] items_known(
                    old(self)@,
                    images,
                    items,
                    bytes,
                ),
            final(self)@.wf(),
    {
        let (images, items) = match &feed {
            DecodedFeed::Bing(list) => (list.daily_images(), list.resolve()),
            DecodedFeed::Nasa(document) => (document.daily_images(), document.resolve()),
            DecodedFeed::Spotlight(contents) => (
                spotlight_daily_images(contents),
                spotlight_resolve(contents),
            ),
        };
        let ghost shown = image_views(images@);
        let ghost resolved = outcome_views(items@);
        assert(feed_gives(feed, shown, resolved));
        let step = self.on_items(images, items, bytes);
        assert((self@, step@) == items_known(old(self)@, shown, resolved, bytes));
        step
    }

    /// The cache item of the current item.
    fn current_item(&self) -> (item: &CacheItem)
        requires
            self@.index < self@.items.len(),
            self@.items[self@.index as int] is Ok,
        ensures
            item@ == self@.current(),
    {
        assert(outcome_views(self.items@)[self.index as int] == outcome_view(
            self.items@[self.index as int],
        ));
        self.items[self.index].as_ref().unwrap()
    }

    /// Marks the current item as processed, its file lying at `path`.
    fn finish_item(&mut self, path: String) -> (step: SyncStep)
        requires
            old(self)@.wf(),
            old(self)@.index < old(self)@.items.len(),
            old(self)@.items[old(self)@.index as int] is Ok,
        ensures
            (final(self)@, step@) == old(self)@.processed(path@),
            final(self)@.wf(),
    {
        let i = self.index;
        let ghost before = image_views(self.images@);
        let shown = DailyImage {
            url: path,
            date: self.images[i].date.clone(),
            description: self.images[i].description.clone(),
        };
        self.images.set(i, shown);
        assert(image_views(self.images@) =~= before.update(
            i as int,
            DailyImageView { url: path@, ..before[i as int] },
        ));
        let label = self.current_item().label.clone();
        set_processed(&mut self.notification, label.as_str(), i, self.total_steps, self.items.len());
        self.index = i + 1;
        let list = self.shown_list();
        let mut alerts: Vec<NotificationAlert> = Vec::new();
        alerts.push(self.notification.clone());
        let ghost filed = self@.notification;
        let ghost moved = self@;
        assert(alert_views(alerts@) =~= seq![filed]);
        let (alerts, request) = self.turn_to_item(alerts);
        let step = SyncStep { alerts, list: Some(list), request };
        assert(step@.alerts =~= seq![filed] + moved.turn_to_item().1);
        step
    }

    /// Tells the run whether the current item's image is in the cache, and
    /// where its file lies.
    pub fn on_image_probed(&mut self, exists: bool, path: String) -> (step: SyncStep)
        requires
            old(self)@.wf(),
            old(self)@.phase is ImageProbe,
        ensures
            (final(self)@, step@) == image_probed(old(self)@, exists, path@),
            final(self)@.wf(),
    {
        if exists {
            self.finish_item(path)
        } else {
            let i = self.index;
            let completed_steps = if i == 0 {
                0
            } else {
                add_capped(self.total_steps, (i - 1) as u64)
            };
            let total_steps = add_capped(self.total_steps, self.items.len() as u64);
            let url = self.current_item().url.clone();
            let file_name = self.current_item().file_name.clone();
            self.phase = SyncPhase::ImageDownload;
            self.path = path;
            self.updated_images = add_capped(self.updated_images, 1);
            let step = SyncStep {
                alerts: Vec::new(),
                list: None,
                request: SyncRequest::DownloadImage {
                    url,
                    file_name,
                    alert: self.notification.clone(),
                    completed_steps,
                    total_steps,
                },
            };
            assert(step@.alerts =~= Seq::<AlertView>::empty());
            step
        }
    }

    /// Tells the run that the current item's download ended, and what it
    /// counts for in bytes.
    pub fn on_image_downloaded(&mut self, bytes: u64) -> (step: SyncStep)
        requires
            old(self)@.wf(),
            old(self)@.phase is ImageDownload,
        ensures
            (final(self)@, step@) == image_downloaded(old(self)@, bytes),
            final(self)@.wf(),
    {
        self.downloaded = add_capped(self.downloaded, bytes);
        let path = self.path.clone();
        self.finish_item(path)
    }

    /// Tells the run the names of the files in the cache directory.
    pub fn on_cache_listed(&mut self, names: Vec<String>) -> (step: SyncStep)
        requires
            old(self)@.wf(),
            old(self)@.phase is CacheListing,
        ensures
            (final(self)@, step@) == cache_listed(old(self)@, text_views(names@)),
            final(self)@.wf(),
    {
        let kept = resolved_items(&self.items);
        let stale = stale_files(&self.service, &names, &kept, &self.today);
        proof {
            text_views(names@).lemma_filter_len(
                |name: Seq<char>|
                    crate::eviction::is_stale(self.service, name, item_views(kept@), self.today),
            );
        }
        self.removed = stale.len() as u64;
        self.phase = SyncPhase::Removal;
        let step = SyncStep {
            alerts: Vec::new(),
            list: None,
            request: SyncRequest::RemoveFiles { names: stale },
        };
        assert(step@.alerts =~= Seq::<AlertView>::empty());
        step
    }

    /// Tells the run that the stale files are removed, and how long it has
    /// taken since it began.
    pub fn on_files_removed(&mut self, elapsed: Duration) -> (step: SyncStep)
        requires
            old(self)@.wf(),
            old(self)@.phase is Removal,
        ensures
            (final(self)@, step@) == files_removed(
                old(self)@,
                duration_seconds(elapsed),
                duration_millis(elapsed),
            ),
            final(self)@.wf(),
    {
        set_finished(
            &mut self.notification,
            self.downloaded,
            self.updated_images,
            self.items.len(),
            self.removed,
            condense_duration(elapsed),
        );
        self.phase = SyncPhase::Finished;
        let mut alerts: Vec<NotificationAlert> = Vec::new();
        alerts.push(self.notification.clone());
        let step = SyncStep { alerts, list: None, request: SyncRequest::Done };
        assert(step@.alerts =~= seq![self@.notification]);
        step
    }
}

/// Something a run is told.
pub ghost enum EventView {
    MetadataProbed { exists: bool },
    Items { images: Seq<DailyImageView>, items: Seq<Outcome>, bytes: u64 },
    ImageProbed { exists: bool, path: Seq<char> },
    ImageDownloaded { bytes: u64 },
    CacheListed { names: Seq<Seq<char>> },
    FilesRemoved { seconds: u64, millis: u128 },
    Failed { message: Seq<char>, cause: Seq<char> },
}

/// Whether a run in this phase waits to be told this.
pub open spec fn awaited(phase: SyncPhase, event: EventView) -> bool {
    match event {
        EventView::MetadataProbed { .. } => phase is MetadataProbe,
        EventView::Items { images, items, .. } => {
            &&& phase is MetadataRead || phase is MetadataFetch
            &&& items.len() == images.len()
            &&& images.len() <= usize::MAX
        },
        EventView::ImageProbed { .. } => phase is ImageProbe,
        EventView::ImageDownloaded { .. } => phase is ImageDownload,
        EventView::CacheListed { .. } => phase is CacheListing,
        EventView::FilesRemoved { .. } => phase is Removal,
        EventView::Failed { .. } => !(phase is Finished) && !(phase is Failed),
    }
}

/// The run after it was told something, and its answer.
#[verifier::opaque]
pub open spec fn told(state: EngineView, event: EventView) -> (EngineView, StepView) {
    match event {
        EventView::MetadataProbed { exists } => metadata_probed(state, exists),
        EventView::Items { images, items, bytes } => items_known(state, images, items, bytes),
        EventView::ImageProbed { exists, path } => image_probed(state, exists, path),
        EventView::ImageDownloaded { bytes } => image_downloaded(state, bytes),
        EventView::CacheListed { names } => cache_listed(state, names),
        EventView::FilesRemoved { seconds, millis } => files_removed(state, seconds, millis),
        EventView::Failed { message, cause } => failed(state, message, cause),
    }
}

/// The run after it was told the first `count` of a series of things.
pub open spec fn run_to(state: EngineView, events: Seq<EventView>, count: int) -> EngineView
    decreases count,
{
    if count <= 0 {
        state
    } else {
        told(run_to(state, events, count - 1), events[count - 1]).0
    }
}

/// The run after it was told a series of things.
pub open spec fn run(state: EngineView, events: Seq<EventView>) -> EngineView {
    run_to(state, events, events.len() as int)
}

/// The answer of the run to the thing it was told at place `i` of a series.
pub open spec fn answer_at(state: EngineView, events: Seq<EventView>, i: int) -> StepView {
    told(run_to(state, events, i), events[i]).1
}

/// Whether the run was told, each time, something it waited for.
pub open spec fn in_turn(state: EngineView, events: Seq<EventView>) -> bool {
    forall|i: int|
        0 <= i < events.len() ==> awaited((#[trigger] run_to(state, events, i)).phase, events[i])
}

/// Whether the run found in the cache whatever it looked for.
pub open spec fn found_in_cache(event: EventView) -> bool {
    match event {
        EventView::MetadataProbed { exists } => exists,
        EventView::ImageProbed { exists, .. } => exists,
        _ => true,
    }
}

/// Whether everything the run looked for in the cache was there.
pub open spec fn all_cached(events: Seq<EventView>) -> bool {
    forall|i: int| 0 <= i < events.len() ==> found_in_cache(#[trigger] events[i])
}

/// Whether a request asks for something from the network.
pub open spec fn asks_network(request: RequestView) -> bool {
    request is FetchMetadata || request is DownloadImage
}

/// What holds of a run that has found everything in the cache so far.
pub open spec fn nothing_fetched(state: EngineView) -> bool {
    &&& state.downloaded == 0
    &&& !(state.phase is MetadataFetch)
    &&& !(state.phase is ImageDownload)
    &&& state.phase is Finished ==> state.notification.body == "Cache is already updated"@
}

/// Telling a run that has fetched nothing about something that was in the
/// cache leaves it so, and its answer asks nothing of the network.
pub proof fn lemma_cached_step(state: EngineView, event: EventView)
    requires
        nothing_fetched(state),
        awaited(state.phase, event),
        found_in_cache(event),
    ensures
        nothing_fetched(told(state, event).0),
        !asks_network(told(state, event).1.request),
{
    reveal(told);
}

/// A run that has fetched nothing and from then on finds in the cache
/// whatever it looks for has still fetched nothing after any number of
/// steps.
pub proof fn lemma_cached_run(state: EngineView, events: Seq<EventView>, count: int)
    requires
        nothing_fetched(state),
        in_turn(state, events),
        all_cached(events),
        0 <= count <= events.len(),
    ensures
        nothing_fetched(run_to(state, events, count)),
        count < events.len() ==> !asks_network(answer_at(state, events, count).request),
    decreases count,
{
    if count > 0 {
        lemma_cached_run(state, events, count - 1);
        let before = run_to(state, events, count - 1);
        assert(awaited(before.phase, events[count - 1]));
        assert(found_in_cache(events[count - 1]));
        lemma_cached_step(before, events[count - 1]);
    }
    if count < events.len() {
        let here = run_to(state, events, count);
        assert(awaited(here.phase, events[count]));
        assert(found_in_cache(events[count]));
        lemma_cached_step(here, events[count]);
    }
}

/// A run that begins without a reset and finds the item list and every image
/// in the cache asks nothing of the network, counts no byte as downloaded,
/// and, where it comes to its end, reports that the cache was up to date.
pub proof fn lemma_cached_run_fetches_nothing(
    service: ImageService,
    today: CalendarDate,
    events: Seq<EventView>,
)
    requires
        in_turn(started(service, false, today).0, events),
        all_cached(events),
    ensures
        !asks_network(started(service, false, today).1.request),
        forall|i: int|
            0 <= i < events.len() ==> !asks_network(
                (#[trigger] answer_at(started(service, false, today).0, events, i)).request,
            ),
        run(started(service, false, today).0, events).downloaded == 0,
        run(started(service, false, today).0, events).phase is Finished ==> run(
            started(service, false, today).0,
            events,
        ).notification.body == "Cache is already updated"@,
{
    let state = started(service, false, today).0;
    assert forall|i: int| 0 <= i < events.len() implies !asks_network(
        (#[trigger] answer_at(state, events, i)).request,
    ) by {
        lemma_cached_run(state, events, i);
    }
    lemma_cached_run(state, events, events.len() as int);
}

/// Whether the run's report is what its phase asks for: it goes under the
/// feed's title, and it is complete when the run is over and pending while
/// the run goes on.
pub open spec fn report_fits(state: EngineView) -> bool {
    &&& state.notification.title == service_title(state.service)
    &&& state.notification.pending() <==> !(state.phase is Finished) && !(state.phase is Failed)
}

/// Whether every report of a step goes under the feed's title.
pub open spec fn titled(step: StepView, service: ImageService) -> bool {
    forall|i: int| 0 <= i < step.alerts.len() ==> (#[trigger] step.alerts[i]).title == service_title(service)
}

/// A run begins well-formed, with a pending report under the feed's title.
pub proof fn lemma_started_fits(service: ImageService, reset: bool, today: CalendarDate)
    ensures
        started(service, reset, today).0.wf(),
        report_fits(started(service, reset, today).0),
        titled(started(service, reset, today).1, service),
{
}

/// Whatever a run is told in its turn, it stays well-formed, it stays the
/// run of its feed, its reports go under the feed's title, and its report is
/// complete exactly when the run is over.
pub proof fn lemma_told_fits(state: EngineView, event: EventView)
    requires
        state.wf(),
        report_fits(state),
        awaited(state.phase, event),
    ensures
        told(state, event).0.wf(),
        told(state, event).0.service == state.service,
        report_fits(told(state, event).0),
        titled(told(state, event).1, state.service),
        told(state, event).1.request is Done <==> told(state, event).0.phase is Finished,
        told(state, event).1.request is Abort <==> told(state, event).0.phase is Failed,
{
    reveal(told);
}

/// Something a run is told, as its driver hands it over.
#[derive(Debug)]
pub enum SyncEvent {
    /// Whether the item list is in the cache.
    MetadataProbed { exists: bool },
    /// The item list, read out of a document of `bytes` bytes.
    Metadata { feed: DecodedFeed, bytes: u64 },
    /// Whether the current item's image is in the cache, and where its file
    /// lies.
    ImageProbed { exists: bool, path: String },
    /// The current item's download ended, and counts for `bytes` bytes.
    ImageDownloaded { bytes: u64 },
    /// The names of the files in the cache directory.
    CacheListed { names: Vec<String> },
    /// The stale files are removed, `elapsed` after the run began.
    FilesRemoved { elapsed: Duration },
    /// The work around the run failed: `message` says what failed, `cause`
    /// what it failed over.
    Failed { message: String, cause: String },
}

impl SyncEvent {
    /// Whether `event` is what the run is told by this: the same thing, with
    /// a feed's item list brought into the common form of its items.
    pub open spec fn tells(self, event: EventView) -> bool {
        match self {
            SyncEvent::MetadataProbed { exists } => event == (EventView::MetadataProbed {
                exists,
            }),
            SyncEvent::Metadata { feed, bytes } => match event {
                EventView::Items { images, items, bytes: counted } => feed_gives(
                    feed,
                    images,
                    items,
                ) && counted == bytes,
                _ => false,
            },
            SyncEvent::ImageProbed { exists, path } => event == (EventView::ImageProbed {
                exists,
                path: path@,
            }),
            SyncEvent::ImageDownloaded { bytes } => event == (EventView::ImageDownloaded { bytes }),
            SyncEvent::CacheListed { names } => event == (EventView::CacheListed {
                names: text_views(names@),
            }),
            SyncEvent::FilesRemoved { elapsed } => event == (EventView::FilesRemoved {
                seconds: duration_seconds(elapsed),
                millis: duration_millis(elapsed),
            }),
            SyncEvent::Failed { message, cause } => event == (EventView::Failed {
                message: message@,
                cause: cause@,
            }),
        }
    }

    /// Whether a run of `service` in this phase waits to be told this.
    pub open spec fn fits(self, phase: SyncPhase, service: ImageService) -> bool {
        match self {
            SyncEvent::MetadataProbed { .. } => phase is MetadataProbe,
            SyncEvent::Metadata { feed, .. } => (phase is MetadataRead || phase is MetadataFetch)
                && feed.service() == service,
            SyncEvent::ImageProbed { .. } => phase is ImageProbe,
            SyncEvent::ImageDownloaded { .. } => phase is ImageDownload,
            SyncEvent::CacheListed { .. } => phase is CacheListing,
            SyncEvent::FilesRemoved { .. } => phase is Removal,
            SyncEvent::Failed { .. } => !(phase is Finished) && !(phase is Failed),
        }
    }
}

impl SyncEngine {
    /// Whether the run waits to be told this.
    pub fn accepts(&self, event: &SyncEvent) -> (fits: bool)
        ensures
            fits == event.fits(self@.phase, self@.service),
    {
        match event {
            SyncEvent::MetadataProbed { .. } => self.phase == SyncPhase::MetadataProbe,
            SyncEvent::Metadata { feed, .. } => (self.phase == SyncPhase::MetadataRead
                || self.phase == SyncPhase::MetadataFetch) && feed.get_service() == self.service,
            SyncEvent::ImageProbed { .. } => self.phase == SyncPhase::ImageProbe,
            SyncEvent::ImageDownloaded { .. } => self.phase == SyncPhase::ImageDownload,
            SyncEvent::CacheListed { .. } => self.phase == SyncPhase::CacheListing,
            SyncEvent::FilesRemoved { .. } => self.phase == SyncPhase::Removal,
            SyncEvent::Failed { .. } => self.phase != SyncPhase::Finished && self.phase
                != SyncPhase::Failed,
        }
    }

    /// Tells the run something. Where the run waits for it, the run goes on
    /// as `told` says and answers with its next step. Where it does not, the
    /// run stays as it is and answers nothing.
    pub fn handle(&mut self, event: SyncEvent) -> (step: Option<SyncStep>)
        requires
            old(self)@.wf(),
        ensures
            final(self)@.wf(),
            step is Some == event.fits(old(self)@.phase, old(self)@.service),
            step is None ==> final(self)@ == old(self)@,
            step is Some ==> exists|view: EventView|
                {
                    &&& #[trigger] event.tells(view)
                    &&& awaited(old(self)@.phase, view)
                    &&& (final(self)@, step.unwrap()@) == told(old(self)@, view)
                },
    {
        if !self.accepts(&event) {
            return None;
        }
        let ghost told_by = event;
        proof {
            reveal(told);
        }
        match event {
            SyncEvent::MetadataProbed { exists } => {
                let step = self.on_metadata_probed(exists);
                assert(told_by.tells(EventView::MetadataProbed { exists }));
                Some(step)
            },
            SyncEvent::Metadata { feed, bytes } => {
                let step = self.on_metadata(feed, bytes);
                proof {
                    let (images, items) = choose|
                        images: Seq<DailyImageView>,
                        items: Seq<Outcome>,
                    |
                        feed_gives(feed, images, items) && (self@, step@) == #[trigger] items_known(
                            old(self)@,
                            images,
                            items,
                            bytes,
                        );
                    let view = EventView::Items { images, items, bytes };
                    assert(told_by.tells(view));
                    lemma_feed_gives_lengths(feed, images, items);
                }
                Some(step)
            },
            SyncEvent::ImageProbed { exists, path } => {
                let ghost view = EventView::ImageProbed { exists, path: path@ };
                let step = self.on_image_probed(exists, path);
                assert(told_by.tells(view));
                Some(step)
            },
            SyncEvent::ImageDownloaded { bytes } => {
                let step = self.on_image_downloaded(bytes);
                assert(told_by.tells(EventView::ImageDownloaded { bytes }));
                Some(step)
            },
            SyncEvent::CacheListed { names } => {
                let ghost view = EventView::CacheListed { names: text_views(names@) };
                let step = self.on_cache_listed(names);
                assert(told_by.tells(view));
                Some(step)
            },
            SyncEvent::FilesRemoved { elapsed } => {
                let step = self.on_files_removed(elapsed);
                assert(told_by.tells(
                    EventView::FilesRemoved {
                        seconds: duration_seconds(elapsed),
                        millis: duration_millis(elapsed),
                    },
                ));
                Some(step)
            },
            SyncEvent::Failed { message, cause } => {
                let step = self.on_failure(message.as_str(), cause.as_str());
                assert(told_by.tells(EventView::Failed { message: message@, cause: cause@ }));
                Some(step)
            },
        }
    }
}

/// What the items of a feed come to has one image and one outcome for each
/// item, and no more of them than a list can hold.
pub proof fn lemma_feed_gives_lengths(
    feed: DecodedFeed,
    images: Seq<DailyImageView>,
    items: Seq<Outcome>,
)
    requires
        feed_gives(feed, images, items),
    ensures
        images.len() <= usize::MAX,
        items.len() == images.len(),
{
    match feed {
        DecodedFeed::Bing(list) => {
            assert(list.images@.len() == list.images.len());
        },
        DecodedFeed::Nasa(document) => {
            assert(document.channel.item@.len() == document.channel.item.len());
        },
        DecodedFeed::Spotlight(contents) => {
            assert(contents@.len() == contents.len());
        },
    }
}

/// A run that turns to an item without a cache item is given up there: it
/// files the item's error and asks for nothing more. What it has downloaded
/// and shown stays as it was.
pub proof fn lemma_turn_to_bad_item(state: EngineView)
    requires
        state.index < state.items.len(),
        state.items[state.index as int] is Err,
    ensures
        ({
            let (next, filed, request) = state.turn_to_item();
            let text = error_text(state.items[state.index as int]->Err_0);
            &&& next == state.given_up(text, text)
            &&& next.phase is Failed
            &&& filed == seq![error_alert(state.service, text, text)]
            &&& request is Abort
            &&& next.downloaded == state.downloaded
            &&& next.images == state.images
        }),
{
}

/// Where the item after the current one has no cache item, the current item
/// is processed as any other: the list shows its file and the report says
/// so. Then the run is given up: the error of the next item is filed after
/// that report, and nothing more is asked for.
pub proof fn lemma_run_stops_at_bad_item(state: EngineView, path: Seq<char>)
    requires
        state.wf(),
        state.phase is ImageProbe || state.phase is ImageDownload,
        state.index + 1 < state.items.len(),
        state.items[state.index as int + 1] is Err,
    ensures
        ({
            let (next, step) = state.processed(path);
            let text = error_text(state.items[state.index as int + 1]->Err_0);
            let report = processed_alert(
                state.notification,
                state.current().label,
                state.index,
                state.total_steps,
                state.items.len(),
            );
            &&& next.phase is Failed
            &&& step.request is Abort
            &&& step.alerts == seq![report, error_alert(state.service, text, text)]
            &&& step.list == Some(
                ImageListView { service: state.service, images: next.images },
            )
            &&& next.images == state.images.update(
                state.index as int,
                DailyImageView { url: path, ..state.images[state.index as int] },
            )
            &&& next.downloaded == state.downloaded
        }),
{
    let (next, step) = state.processed(path);
    let text = error_text(state.items[state.index as int + 1]->Err_0);
    let report = processed_alert(
        state.notification,
        state.current().label,
        state.index,
        state.total_steps,
        state.items.len(),
    );
    assert(step.alerts =~= seq![report, error_alert(state.service, text, text)]);
}

/// A run that is over waits for nothing: whatever it is told then, it is
/// not told in its turn.
pub proof fn lemma_over_awaits_nothing(phase: SyncPhase, event: EventView)
    requires
        phase is Finished || phase is Failed,
    ensures
        !awaited(phase, event),
{
}

/// Where the first item of a feed has no cache item, the list of images is
/// shown all the same, and then the run is given up over that item's error:
/// nothing is looked for in the cache and nothing is fetched.
pub proof fn lemma_first_bad_item(
    state: EngineView,
    images: Seq<DailyImageView>,
    items: Seq<Outcome>,
    bytes: u64,
)
    requires
        items.len() > 0,
        items[0] is Err,
    ensures
        ({
            let (next, step) = items_known(state, images, items, bytes);
            let text = error_text(items[0]->Err_0);
            &&& next.phase is Failed
            &&& step.alerts == seq![error_alert(state.service, text, text)]
            &&& step.list == Some(ImageListView { service: state.service, images })
            &&& step.request is Abort
        }),
{
}

} // verus!
