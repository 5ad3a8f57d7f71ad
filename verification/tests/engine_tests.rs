use std::time::Duration;

use hub::bing::BingImage;
use hub::bing::BingImages;
use hub::date::CalendarDate;
use hub::engine::DecodedFeed;
use hub::engine::SyncEngine;
use hub::engine::SyncEvent;
use hub::engine::SyncPhase;
use hub::engine::SyncRequest;
use hub::engine::SyncStep;
use hub::feed::CacheItem;
use hub::feed::FeedError;
use hub::nasa::NasaChannel;
use hub::nasa::NasaFeed;
use hub::nasa::NasaImgUrl;
use hub::nasa::NasaItem;
use hub::notification::Completion;
use hub::notification::NotificationAlert;
use hub::notification::NotificationSeverity;
use hub::notification::NotificationStatus;
use hub::service::ImageService;
use hub::signals::DailyImage;
use hub::signals::ImageList;
use hub::signals::Refresh;
use hub::spotlight::SpotlightImage;
use hub::spotlight::SpotlightItemContent;
use hub::spotlight::SpotlightLandscape;

fn today() -> CalendarDate {
    CalendarDate { year: 2024, month: 1, day: 5 }
}

fn info(title: &str, body: &str, done: u128, total: u128) -> NotificationAlert {
    NotificationAlert {
        title: title.to_string(),
        body: body.to_string(),
        percent: Completion { done, total },
        severity: NotificationSeverity::Info,
        status: NotificationStatus::default(),
    }
}

fn bing_feed() -> DecodedFeed {
    let item = |url: &str, date: &str, text: &str| BingImage {
        url: url.to_string(),
        start_date: date.to_string(),
        copyright: text.to_string(),
    };
    DecodedFeed::Bing(BingImages {
        images: vec![
            item("/a.jpg", "20240105", "first"),
            item("/b.jpg", "20240104", "second"),
            item("/c.jpg", "20240103", "third"),
        ],
    })
}

fn image(url: &str, date: &str, description: &str) -> DailyImage {
    DailyImage { url: url.to_string(), date: date.to_string(), description: description.to_string() }
}

fn bing_list(urls: [&str; 3]) -> Option<ImageList> {
    Some(ImageList {
        service: ImageService::Bing,
        images: vec![
            image(urls[0], "2024-01-05", "first"),
            image(urls[1], "2024-01-04", "second"),
            image(urls[2], "2024-01-03", "third"),
        ],
    })
}

fn quiet(request: SyncRequest) -> SyncStep {
    SyncStep { alerts: vec![], list: None, request }
}

#[test]
fn a_run_begins_by_asking_the_cache_for_the_item_list() {
    let (engine, step) = SyncEngine::start(Refresh { service: ImageService::Bing, reset: false }, today());
    assert_eq!(engine.phase(), SyncPhase::MetadataProbe);
    assert_eq!(engine.service(), ImageService::Bing);
    assert_eq!(
        step,
        SyncStep {
            alerts: vec![info("Bing images", "Checking cache", 0, 1)],
            list: None,
            request: SyncRequest::ProbeMetadata { file_name: "2024-01-05.json".to_string() },
        }
    );
    assert_eq!(engine.notification(), &info("Bing images", "Checking cache", 0, 1));
}

#[test]
fn a_reset_run_begins_by_asking_the_feed() {
    let (engine, step) = SyncEngine::start(Refresh { service: ImageService::Spotlight, reset: true }, today());
    assert_eq!(engine.phase(), SyncPhase::MetadataFetch);
    assert_eq!(
        step,
        SyncStep {
            alerts: vec![
                info("Windows Spotlight images", "Checking cache", 0, 1),
                info("Windows Spotlight images", "Fetching data from Windows Spotlight", 0, 1),
            ],
            list: None,
            request: SyncRequest::FetchMetadata {
                url: "https://fd.api.iris.microsoft.com/v4/api/selection?&placement=88000820&bcnt=4&country=us&locale=en-us&fmt=json".to_string(),
                file_name: "info.json".to_string(),
            },
        }
    );
}

#[test]
fn a_cached_item_list_is_read() {
    let (mut engine, _) = SyncEngine::start(Refresh { service: ImageService::Nasa, reset: false }, today());
    let step = engine.on_metadata_probed(true);
    assert_eq!(engine.phase(), SyncPhase::MetadataRead);
    assert_eq!(step, quiet(SyncRequest::ReadMetadata { file_name: "2024-01-05.xml".to_string() }));
}

#[test]
fn a_missing_item_list_is_fetched() {
    let (mut engine, _) = SyncEngine::start(Refresh { service: ImageService::Nasa, reset: false }, today());
    let step = engine.on_metadata_probed(false);
    assert_eq!(engine.phase(), SyncPhase::MetadataFetch);
    assert_eq!(
        step,
        SyncStep {
            alerts: vec![info("NASA images", "Fetching data from NASA", 0, 1)],
            list: None,
            request: SyncRequest::FetchMetadata {
                url: "https://www.nasa.gov/feeds/iotd-feed/".to_string(),
                file_name: "2024-01-05.xml".to_string(),
            },
        }
    );
}

#[test]
fn cache_miss_with_three_items_of_which_one_is_cached() {
    let (mut engine, _) = SyncEngine::start(Refresh { service: ImageService::Bing, reset: false }, today());
    engine.on_metadata_probed(false);
    let step = engine.on_metadata(bing_feed(), 1200);
    assert_eq!(engine.phase(), SyncPhase::ImageProbe);
    assert_eq!(
        step,
        SyncStep {
            alerts: vec![],
            list: bing_list(["", "", ""]),
            request: SyncRequest::ProbeImage { file_name: "2024-01-05.jpg".to_string() },
        }
    );
    let mut downloads = 0;

    let step = engine.on_image_probed(false, "/cache/Bing/2024-01-05.jpg".to_string());
    assert_eq!(engine.phase(), SyncPhase::ImageDownload);
    assert_eq!(
        step,
        quiet(SyncRequest::DownloadImage {
            url: "https://bing.com/a.jpg".to_string(),
            file_name: "2024-01-05.jpg".to_string(),
            alert: info("Bing images", "Fetching data from Bing", 0, 1),
            completed_steps: 0,
            total_steps: 4,
        })
    );
    downloads += 1;
    let step = engine.on_image_downloaded(500_000);
    assert_eq!(
        step,
        SyncStep {
            alerts: vec![info("Bing images", "Processed 2024-01-05", 1, 4)],
            list: bing_list(["/cache/Bing/2024-01-05.jpg", "", ""]),
            request: SyncRequest::ProbeImage { file_name: "2024-01-04.jpg".to_string() },
        }
    );

    let step = engine.on_image_probed(true, "/cache/Bing/2024-01-04.jpg".to_string());
    assert_eq!(
        step,
        SyncStep {
            alerts: vec![info("Bing images", "Processed 2024-01-04", 2, 4)],
            list: bing_list(["/cache/Bing/2024-01-05.jpg", "/cache/Bing/2024-01-04.jpg", ""]),
            request: SyncRequest::ProbeImage { file_name: "2024-01-03.jpg".to_string() },
        }
    );

    let step = engine.on_image_probed(false, "/cache/Bing/2024-01-03.jpg".to_string());
    assert_eq!(
        step,
        quiet(SyncRequest::DownloadImage {
            url: "https://bing.com/c.jpg".to_string(),
            file_name: "2024-01-03.jpg".to_string(),
            alert: info("Bing images", "Processed 2024-01-04", 2, 4),
            completed_steps: 2,
            total_steps: 4,
        })
    );
    downloads += 1;
    let step = engine.on_image_downloaded(800_000);
    assert_eq!(engine.phase(), SyncPhase::CacheListing);
    assert_eq!(
        step,
        SyncStep {
            alerts: vec![info("Bing images", "Processed 2024-01-03", 3, 4)],
            list: bing_list(["/cache/Bing/2024-01-05.jpg", "/cache/Bing/2024-01-04.jpg", "/cache/Bing/2024-01-03.jpg"]),
            request: SyncRequest::ListCache,
        }
    );
    assert_eq!(downloads, 2);

    let listing = vec![
        "2024-01-05.json".to_string(),
        "2024-01-05.jpg".to_string(),
        "2024-01-04.jpg".to_string(),
        "2024-01-03.jpg".to_string(),
    ];
    let step = engine.on_cache_listed(listing);
    assert_eq!(engine.phase(), SyncPhase::Removal);
    assert_eq!(step, quiet(SyncRequest::RemoveFiles { names: vec![] }));

    let step = engine.on_files_removed(Duration::from_millis(2500));
    assert_eq!(engine.phase(), SyncPhase::Finished);
    let last = NotificationAlert {
        title: "Bing images".to_string(),
        body: "Cached 2/3 images".to_string(),
        percent: Completion { done: 1, total: 1 },
        severity: NotificationSeverity::Info,
        status: NotificationStatus {
            downloaded: Some("1.30 MB".to_string()),
            removed: Some(0),
            elapsed: Some("2 s".to_string()),
        },
    };
    assert_eq!(step, SyncStep { alerts: vec![last.clone()], list: None, request: SyncRequest::Done });
    assert_eq!(engine.notification(), &last);
}

#[test]
fn a_second_run_over_a_full_cache_fetches_nothing() {
    let (mut engine, first) = SyncEngine::start(Refresh { service: ImageService::Bing, reset: false }, today());
    let mut requests = vec![first.request];
    requests.push(engine.on_metadata_probed(true).request);
    requests.push(engine.on_metadata(bing_feed(), 1200).request);
    requests.push(engine.on_image_probed(true, "/c/2024-01-05.jpg".to_string()).request);
    requests.push(engine.on_image_probed(true, "/c/2024-01-04.jpg".to_string()).request);
    requests.push(engine.on_image_probed(true, "/c/2024-01-03.jpg".to_string()).request);
    requests.push(engine.on_cache_listed(vec!["2024-01-05.json".to_string(), "2024-01-02.jpg".to_string()]).request);
    let last = engine.on_files_removed(Duration::from_millis(40));
    for request in &requests {
        assert!(!matches!(request, SyncRequest::FetchMetadata { .. } | SyncRequest::DownloadImage { .. }));
    }
    assert_eq!(requests[6], SyncRequest::RemoveFiles { names: vec!["2024-01-02.jpg".to_string()] });
    assert_eq!(last.request, SyncRequest::Done);
    assert_eq!(last.alerts.len(), 1);
    assert_eq!(last.alerts[0].body, "Cache is already updated");
    assert_eq!(last.alerts[0].percent, Completion { done: 1, total: 1 });
    assert_eq!(
        last.alerts[0].status,
        NotificationStatus { downloaded: None, removed: None, elapsed: Some("40 ms".to_string()) }
    );
}

#[test]
fn a_read_item_list_does_not_count_as_downloaded() {
    let (mut engine, _) = SyncEngine::start(Refresh { service: ImageService::Bing, reset: false }, today());
    engine.on_metadata_probed(true);
    let step = engine.on_metadata(DecodedFeed::Bing(BingImages { images: vec![] }), 999);
    assert_eq!(
        step,
        SyncStep {
            alerts: vec![],
            list: Some(ImageList { service: ImageService::Bing, images: vec![] }),
            request: SyncRequest::ListCache,
        }
    );
    engine.on_cache_listed(vec![]);
    let last = engine.on_files_removed(Duration::from_secs(61));
    assert_eq!(last.alerts[0].body, "Cache is already updated");
    assert_eq!(last.alerts[0].status.elapsed, Some("1 m".to_string()));
}

#[test]
fn a_fetched_item_list_counts_as_downloaded() {
    let (mut engine, _) = SyncEngine::start(Refresh { service: ImageService::Nasa, reset: true }, today());
    engine.on_metadata(DecodedFeed::Nasa(NasaFeed { channel: NasaChannel { item: vec![] } }), 4321);
    let step = engine.on_cache_listed(vec!["2024-01-04.xml".to_string(), "2024-01-05.xml".to_string()]);
    assert_eq!(step.request, SyncRequest::RemoveFiles { names: vec![] });
    let last = engine.on_files_removed(Duration::from_secs(2));
    assert_eq!(last.alerts[0].body, "Cached 0/0 images");
    assert_eq!(
        last.alerts[0].status,
        NotificationStatus {
            downloaded: Some("4.32 KB".to_string()),
            removed: Some(0),
            elapsed: Some("2 s".to_string()),
        }
    );
}

fn bing_error() -> NotificationAlert {
    NotificationAlert {
        title: "Bing images".to_string(),
        body: "Failed to parse Bing picture's date.\nFailed to parse Bing picture's date.".to_string(),
        percent: Completion { done: 1, total: 1 },
        severity: NotificationSeverity::Error,
        status: NotificationStatus::default(),
    }
}

#[test]
fn a_first_item_without_a_day_gives_the_run_up_after_the_list_is_shown() {
    let (mut engine, _) = SyncEngine::start(Refresh { service: ImageService::Bing, reset: false }, today());
    engine.on_metadata_probed(true);
    let broken = DecodedFeed::Bing(BingImages {
        images: vec![BingImage { url: "/a.jpg".to_string(), start_date: "soon".to_string(), copyright: "c".to_string() }],
    });
    let step = engine.on_metadata(broken, 10);
    assert_eq!(engine.phase(), SyncPhase::Failed);
    assert_eq!(
        step,
        SyncStep {
            alerts: vec![bing_error()],
            list: Some(ImageList { service: ImageService::Bing, images: vec![image("", "soon", "c")] }),
            request: SyncRequest::Abort,
        }
    );
}

#[test]
fn a_later_item_without_a_day_stops_the_run_after_the_items_before_it() {
    let item = |url: &str, date: &str, text: &str| BingImage {
        url: url.to_string(),
        start_date: date.to_string(),
        copyright: text.to_string(),
    };
    let feed = DecodedFeed::Bing(BingImages {
        images: vec![
            item("/a.jpg", "20240105", "first"),
            item("/b.jpg", "yesterday", "second"),
            item("/c.jpg", "20240103", "third"),
        ],
    });
    let shown = |first: &str| {
        Some(ImageList {
            service: ImageService::Bing,
            images: vec![
                image(first, "2024-01-05", "first"),
                image("", "yesterday", "second"),
                image("", "2024-01-03", "third"),
            ],
        })
    };
    let (mut engine, _) = SyncEngine::start(Refresh { service: ImageService::Bing, reset: false }, today());
    engine.on_metadata_probed(false);
    let step = engine.on_metadata(feed, 700);
    assert_eq!(
        step,
        SyncStep {
            alerts: vec![],
            list: shown(""),
            request: SyncRequest::ProbeImage { file_name: "2024-01-05.jpg".to_string() },
        }
    );
    let step = engine.on_image_probed(false, "/c/2024-01-05.jpg".to_string());
    assert!(matches!(step.request, SyncRequest::DownloadImage { .. }));
    let step = engine.on_image_downloaded(1000);
    assert_eq!(engine.phase(), SyncPhase::Failed);
    assert_eq!(
        step,
        SyncStep {
            alerts: vec![info("Bing images", "Processed 2024-01-05", 1, 4), bing_error()],
            list: shown("/c/2024-01-05.jpg"),
            request: SyncRequest::Abort,
        }
    );
    assert!(engine.handle(SyncEvent::ImageProbed { exists: false, path: String::new() }).is_none());
    assert!(engine.handle(SyncEvent::ImageDownloaded { bytes: 1 }).is_none());
}

#[test]
fn a_nasa_item_without_extension_stops_the_run_after_the_items_before_it() {
    let item = |text: &str, time: &str, url: &str| NasaItem {
        description: text.to_string(),
        pub_date: time.to_string(),
        enclosure: NasaImgUrl { url: url.to_string() },
    };
    let feed = DecodedFeed::Nasa(NasaFeed {
        channel: NasaChannel {
            item: vec![
                item("first", "Fri, 05 Jan 2024 14:27:23 EST", "https://www.nasa.gov/a.jpg"),
                item("second", "Thu, 04 Jan 2024 09:00:00 EST", "https://www.nasa.gov/image"),
                item("third", "Wed, 03 Jan 2024 09:00:00 EST", "https://www.nasa.gov/c.jpg"),
            ],
        },
    });
    let shown = |first: &str| {
        Some(ImageList {
            service: ImageService::Nasa,
            images: vec![
                image(first, "2024-01-05", "first"),
                image("", "2024-01-04", "second"),
                image("", "2024-01-03", "third"),
            ],
        })
    };
    let (mut engine, _) = SyncEngine::start(Refresh { service: ImageService::Nasa, reset: false }, today());
    engine.on_metadata_probed(true);
    let step = engine.on_metadata(feed, 0);
    assert_eq!(step.alerts, vec![]);
    assert_eq!(step.list, shown(""));
    assert_eq!(step.request, SyncRequest::ProbeImage { file_name: "2024-01-05.jpg".to_string() });
    let step = engine.on_image_probed(true, "/c/2024-01-05.jpg".to_string());
    let error = NotificationAlert {
        title: "NASA images".to_string(),
        body: "Failed to find image MIME type from NASA URL.\nFailed to find image MIME type from NASA URL.".to_string(),
        percent: Completion { done: 1, total: 1 },
        severity: NotificationSeverity::Error,
        status: NotificationStatus::default(),
    };
    assert_eq!(
        step,
        SyncStep {
            alerts: vec![info("NASA images", "Processed 2024-01-05", 0, 3), error],
            list: shown("/c/2024-01-05.jpg"),
            request: SyncRequest::Abort,
        }
    );
    assert_eq!(engine.phase(), SyncPhase::Failed);
}

#[test]
fn a_failure_of_the_work_around_gives_the_run_up() {
    let (mut engine, _) = SyncEngine::start(Refresh { service: ImageService::Nasa, reset: false }, today());
    engine.on_metadata_probed(false);
    let step = engine.on_failure("Failed to get list of images", "connection refused");
    assert_eq!(engine.phase(), SyncPhase::Failed);
    assert_eq!(step.request, SyncRequest::Abort);
    assert_eq!(step.alerts.len(), 1);
    assert_eq!(step.alerts[0].title, "NASA images");
    assert_eq!(step.alerts[0].body, "Failed to get list of images\nconnection refused");
    assert_eq!(step.alerts[0].severity, NotificationSeverity::Error);
    assert!(!step.alerts[0].is_pending());
}

#[test]
fn on_items_takes_what_came_of_each_item() {
    let (mut engine, _) = SyncEngine::start(Refresh { service: ImageService::Spotlight, reset: false }, today());
    engine.on_metadata_probed(true);
    let items = vec![Ok(CacheItem {
        label: "x.jpg".to_string(),
        file_name: "x.jpg".to_string(),
        url: "https://img.example/x".to_string(),
        date: None,
    })];
    let step = engine.on_items(vec![image("", "", "a lake")], items, 0);
    assert_eq!(step.request, SyncRequest::ProbeImage { file_name: "x.jpg".to_string() });
    let step = engine.on_image_probed(true, "/c/x.jpg".to_string());
    assert_eq!(step.alerts, vec![info("Windows Spotlight images", "Processed x.jpg", 0, 1)]);
    assert_eq!(
        step.list,
        Some(ImageList { service: ImageService::Spotlight, images: vec![image("/c/x.jpg", "", "a lake")] })
    );
    let step = engine.on_cache_listed(vec!["info.json".to_string(), "x.jpg".to_string(), "y.jpg".to_string()]);
    assert_eq!(step.request, SyncRequest::RemoveFiles { names: vec!["y.jpg".to_string()] });

    let (mut failing, _) = SyncEngine::start(Refresh { service: ImageService::Nasa, reset: false }, today());
    failing.on_metadata_probed(true);
    let step = failing.on_items(vec![image("", "d", "t")], vec![Err(FeedError::NasaExtension)], 0);
    assert_eq!(step.request, SyncRequest::Abort);
    assert_eq!(step.list, Some(ImageList { service: ImageService::Nasa, images: vec![image("", "d", "t")] }));
    assert_eq!(
        step.alerts[0].body,
        "Failed to find image MIME type from NASA URL.\nFailed to find image MIME type from NASA URL."
    );
}

#[test]
fn a_spotlight_batch_goes_through_the_run() {
    let content = |asset: &str, text: &str, id: &str| SpotlightItemContent {
        ad: SpotlightImage {
            landscape_image: SpotlightLandscape { asset: asset.to_string() },
            icon_hover_text: text.to_string(),
            entity_id: id.to_string(),
        },
    };
    let feed = DecodedFeed::Spotlight(vec![content("https://img.example/1", "One\r\nRight-click to learn more", "e1")]);
    assert_eq!(feed.get_service(), ImageService::Spotlight);
    let (mut engine, _) = SyncEngine::start(Refresh { service: ImageService::Spotlight, reset: true }, today());
    let step = engine.on_metadata(feed, 100);
    assert_eq!(
        step.list,
        Some(ImageList { service: ImageService::Spotlight, images: vec![image("", "", "One")] })
    );
    assert_eq!(step.request, SyncRequest::ProbeImage { file_name: "e1.jpg".to_string() });
    let step = engine.on_image_probed(false, "/c/e1.jpg".to_string());
    assert_eq!(
        step.request,
        SyncRequest::DownloadImage {
            url: "https://img.example/1".to_string(),
            file_name: "e1.jpg".to_string(),
            alert: info("Windows Spotlight images", "Fetching data from Windows Spotlight", 0, 1),
            completed_steps: 0,
            total_steps: 2,
        }
    );
    let step = engine.on_image_downloaded(50);
    assert_eq!(step.alerts, vec![info("Windows Spotlight images", "Processed e1.jpg", 1, 2)]);
    assert_eq!(step.request, SyncRequest::ListCache);
}

#[test]
fn handle_goes_on_where_the_run_waits_for_the_event() {
    let (mut engine, _) = SyncEngine::start(Refresh { service: ImageService::Bing, reset: false }, today());
    assert!(engine.accepts(&SyncEvent::MetadataProbed { exists: true }));
    let step = engine.handle(SyncEvent::MetadataProbed { exists: true }).unwrap();
    assert_eq!(step, quiet(SyncRequest::ReadMetadata { file_name: "2024-01-05.json".to_string() }));
    let step = engine.handle(SyncEvent::Metadata { feed: bing_feed(), bytes: 0 }).unwrap();
    assert_eq!(step.request, SyncRequest::ProbeImage { file_name: "2024-01-05.jpg".to_string() });
    let step = engine.handle(SyncEvent::ImageProbed { exists: false, path: "/c/a.jpg".to_string() }).unwrap();
    assert!(matches!(step.request, SyncRequest::DownloadImage { .. }));
    let step = engine.handle(SyncEvent::ImageDownloaded { bytes: 10 }).unwrap();
    assert_eq!(step.list, bing_list(["/c/a.jpg", "", ""]));
    let step = engine
        .handle(SyncEvent::Failed { message: "Failed to read cache folder contents.".to_string(), cause: "denied".to_string() })
        .unwrap();
    assert_eq!(step.request, SyncRequest::Abort);
    assert_eq!(step.alerts[0].body, "Failed to read cache folder contents.\ndenied");
    assert_eq!(engine.phase(), SyncPhase::Failed);
}

#[test]
fn handle_leaves_the_run_where_it_does_not_wait_for_the_event() {
    let (mut engine, _) = SyncEngine::start(Refresh { service: ImageService::Bing, reset: false }, today());
    assert!(!engine.accepts(&SyncEvent::ImageDownloaded { bytes: 1 }));
    assert!(engine.handle(SyncEvent::ImageDownloaded { bytes: 1 }).is_none());
    assert!(engine.handle(SyncEvent::CacheListed { names: vec![] }).is_none());
    assert!(engine.handle(SyncEvent::FilesRemoved { elapsed: Duration::from_secs(1) }).is_none());
    assert!(engine.handle(SyncEvent::ImageProbed { exists: true, path: String::new() }).is_none());
    assert!(engine.handle(SyncEvent::Metadata { feed: bing_feed(), bytes: 0 }).is_none());
    assert_eq!(engine.phase(), SyncPhase::MetadataProbe);
    assert_eq!(engine.notification(), &info("Bing images", "Checking cache", 0, 1));
    engine.handle(SyncEvent::MetadataProbed { exists: true }).unwrap();
    let other = DecodedFeed::Nasa(NasaFeed { channel: NasaChannel { item: vec![] } });
    assert!(engine.handle(SyncEvent::Metadata { feed: other, bytes: 0 }).is_none());
    assert_eq!(engine.phase(), SyncPhase::MetadataRead);
    engine.handle(SyncEvent::Failed { message: "m".to_string(), cause: "c".to_string() }).unwrap();
    assert!(engine.handle(SyncEvent::Failed { message: "m".to_string(), cause: "c".to_string() }).is_none());
    assert!(engine.handle(SyncEvent::MetadataProbed { exists: true }).is_none());
}
