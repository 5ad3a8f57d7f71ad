use hub::bing::parse_bing_date;
use hub::bing::BingImage;
use hub::bing::BingImages;
use hub::date::CalendarDate;
use hub::feed::find_oldest_date;
use hub::feed::resolved_items;
use hub::feed::CacheItem;
use hub::feed::FeedError;
use hub::nasa::parse_nasa_date;
use hub::nasa::NasaChannel;
use hub::nasa::NasaFeed;
use hub::nasa::NasaImgUrl;
use hub::nasa::NasaItem;
use hub::signals::copy_images;
use hub::signals::DailyImage;
use hub::spotlight::spotlight_daily_images;
use hub::spotlight::spotlight_resolve;
use hub::spotlight::SpotlightBatchInfo;
use hub::spotlight::SpotlightImage;
use hub::spotlight::SpotlightImages;
use hub::spotlight::SpotlightItem;
use hub::spotlight::SpotlightItemContent;
use hub::spotlight::SpotlightLandscape;

fn day(year: i32, month: u32, day: u32) -> CalendarDate {
    CalendarDate { year, month, day }
}

fn bing(url: &str, start_date: &str, copyright: &str) -> BingImage {
    BingImage { url: url.to_string(), start_date: start_date.to_string(), copyright: copyright.to_string() }
}

fn nasa(description: &str, pub_date: &str, url: &str) -> NasaItem {
    NasaItem {
        description: description.to_string(),
        pub_date: pub_date.to_string(),
        enclosure: NasaImgUrl { url: url.to_string() },
    }
}

fn spotlight(asset: &str, text: &str, id: &str) -> SpotlightItemContent {
    SpotlightItemContent {
        ad: SpotlightImage {
            landscape_image: SpotlightLandscape { asset: asset.to_string() },
            icon_hover_text: text.to_string(),
            entity_id: id.to_string(),
        },
    }
}

fn image(url: &str, date: &str, description: &str) -> DailyImage {
    DailyImage { url: url.to_string(), date: date.to_string(), description: description.to_string() }
}

#[test]
fn error_messages() {
    assert_eq!(FeedError::BingDate.message(), "Failed to parse Bing picture's date.");
    assert_eq!(FeedError::NasaDate.message(), "Failed to parse NASA picture's date.");
    assert_eq!(FeedError::NasaUrl.message(), "Failed to parse NASA picture's URL.");
    assert_eq!(FeedError::NasaExtension.message(), "Failed to find image MIME type from NASA URL.");
}

#[test]
fn bing_item_is_named_after_its_day() {
    let item = bing("/th?id=OHR.Example_1920x1080.jpg", "20240105", "A place (© someone)");
    assert_eq!(parse_bing_date("20240105"), Some(day(2024, 1, 5)));
    assert_eq!(
        item.resolve(),
        Ok(CacheItem {
            label: "2024-01-05".to_string(),
            file_name: "2024-01-05.jpg".to_string(),
            url: "https://bing.com/th?id=OHR.Example_1920x1080.jpg".to_string(),
            date: Some(day(2024, 1, 5)),
        })
    );
    assert_eq!(item.daily_image(), image("", "2024-01-05", "A place (© someone)"));
}

#[test]
fn bing_item_without_a_day_fails_and_shows_its_own_text() {
    let item = bing("/x.jpg", "2024-01-05", "c");
    assert_eq!(parse_bing_date("2024-01-05"), None);
    assert_eq!(item.resolve(), Err(FeedError::BingDate));
    assert_eq!(item.daily_image(), image("", "2024-01-05", "c"));
}

#[test]
fn bing_same_day_gives_the_same_file() {
    let first = bing("/a.jpg", "20240105", "one").resolve().unwrap();
    let second = bing("/b.jpg", "20240105", "two").resolve().unwrap();
    assert_eq!(first.file_name, second.file_name);
}

#[test]
fn bing_feed_resolves_item_by_item() {
    let feed = BingImages { images: vec![bing("/a.jpg", "20240105", "a"), bing("/b.jpg", "20240104", "b")] };
    let items = feed.resolve();
    assert_eq!(items.len(), 2);
    assert_eq!(items[0].as_ref().unwrap().file_name, "2024-01-05.jpg");
    assert_eq!(items[1].as_ref().unwrap().file_name, "2024-01-04.jpg");
    assert_eq!(feed.daily_images(), vec![image("", "2024-01-05", "a"), image("", "2024-01-04", "b")]);
    let broken = BingImages {
        images: vec![bing("/a.jpg", "20240105", "a"), bing("/b.jpg", "bad", "b"), bing("/c.jpg", "20240103", "c")],
    };
    let outcomes = broken.resolve();
    assert_eq!(outcomes.len(), 3);
    assert_eq!(outcomes[0].as_ref().unwrap().file_name, "2024-01-05.jpg");
    assert_eq!(outcomes[1], Err(FeedError::BingDate));
    assert_eq!(outcomes[2].as_ref().unwrap().file_name, "2024-01-03.jpg");
    assert_eq!(
        broken.daily_images(),
        vec![image("", "2024-01-05", "a"), image("", "bad", "b"), image("", "2024-01-03", "c")]
    );
    assert_eq!(BingImages { images: vec![] }.resolve(), vec![]);
}

#[test]
fn nasa_date_lies_after_the_weekday() {
    assert_eq!(parse_nasa_date("Fri, 05 Jan 2024 14:27:23 EST"), Some(day(2024, 1, 5)));
    assert_eq!(parse_nasa_date("Fri, 05 Jan 2024"), Some(day(2024, 1, 5)));
    assert_eq!(parse_nasa_date("Fri, 05 Jan 202"), None);
    assert_eq!(parse_nasa_date("05 Jan 2024 14:27:23 EST"), None);
    assert_eq!(parse_nasa_date(""), None);
}

#[test]
fn nasa_item_is_named_after_its_day_and_the_extension_of_its_address() {
    let item = nasa("A galaxy", "Fri, 05 Jan 2024 14:27:23 EST", "https://www.nasa.gov/wp-content/uploads/2024/01/galaxy.png?w=1024");
    assert_eq!(item.extension(), Some("png".to_string()));
    assert_eq!(
        item.resolve(),
        Ok(CacheItem {
            label: "2024-01-05".to_string(),
            file_name: "2024-01-05.png".to_string(),
            url: "https://www.nasa.gov/wp-content/uploads/2024/01/galaxy.png?w=1024".to_string(),
            date: Some(day(2024, 1, 5)),
        })
    );
    assert_eq!(item.daily_image(), image("", "2024-01-05", "A galaxy"));
}

#[test]
fn nasa_item_fails_on_date_then_address_then_extension() {
    let no_date = nasa("d", "yesterday", "not a url");
    assert_eq!(no_date.resolve(), Err(FeedError::NasaDate));
    assert_eq!(no_date.daily_image(), image("", "yesterday", "d"));
    let no_url = nasa("d", "Fri, 05 Jan 2024 14:27:23 EST", "not a url");
    assert_eq!(no_url.extension(), None);
    assert_eq!(no_url.resolve(), Err(FeedError::NasaUrl));
    let no_extension = nasa("d", "Fri, 05 Jan 2024 14:27:23 EST", "https://www.nasa.gov/images/galaxy");
    assert_eq!(no_extension.extension(), None);
    assert_eq!(no_extension.resolve(), Err(FeedError::NasaExtension));
    assert_eq!(
        no_extension.resolve_with(Some("jpeg".to_string())).unwrap().file_name,
        "2024-01-05.jpeg"
    );
    assert_eq!(no_url.resolve_with(Some("jpeg".to_string())), Err(FeedError::NasaUrl));
}

#[test]
fn nasa_feed_resolves_item_by_item() {
    let feed = NasaFeed {
        channel: NasaChannel {
            item: vec![
                nasa("a", "Fri, 05 Jan 2024 14:27:23 EST", "https://nasa.gov/a.jpg"),
                nasa("b", "Thu, 04 Jan 2024 09:00:00 EST", "https://nasa.gov/b.png"),
            ],
        },
    };
    let items = feed.resolve();
    assert_eq!(items.len(), 2);
    assert_eq!(items[0].as_ref().unwrap().file_name, "2024-01-05.jpg");
    assert_eq!(items[1].as_ref().unwrap().file_name, "2024-01-04.png");
    assert_eq!(feed.daily_images(), vec![image("", "2024-01-05", "a"), image("", "2024-01-04", "b")]);
    let broken = NasaFeed {
        channel: NasaChannel {
            item: vec![
                nasa("a", "Fri, 05 Jan 2024 14:27:23 EST", "https://nasa.gov/a.jpg"),
                nasa("b", "Thu, 04 Jan 2024 09:00:00 EST", "https://nasa.gov/b"),
            ],
        },
    };
    let outcomes = broken.resolve();
    assert_eq!(outcomes.len(), 2);
    assert_eq!(outcomes[0].as_ref().unwrap().file_name, "2024-01-05.jpg");
    assert_eq!(outcomes[1], Err(FeedError::NasaExtension));
}

#[test]
fn spotlight_document_is_the_text_without_backticks() {
    let item = SpotlightItem { item: "`{\"ad\":{}}`".to_string() };
    assert_eq!(item.document(), "{\"ad\":{}}");
    let feed = SpotlightImages {
        batch_response: SpotlightBatchInfo {
            items: vec![item, SpotlightItem { item: "{}".to_string() }, SpotlightItem { item: "``".to_string() }],
        },
    };
    assert_eq!(feed.documents(), vec!["{\"ad\":{}}".to_string(), "{}".to_string(), "".to_string()]);
}

#[test]
fn spotlight_image_is_named_after_its_identifier() {
    let content = spotlight("https://img.example/a.jpg", "A lake\r\nIn the hills\r\nRight-click to learn more", "abc123");
    assert_eq!(
        content.ad.resolve(),
        CacheItem {
            label: "abc123.jpg".to_string(),
            file_name: "abc123.jpg".to_string(),
            url: "https://img.example/a.jpg".to_string(),
            date: None,
        }
    );
    assert_eq!(content.ad.daily_image(), image("", "", "A lake\nIn the hills"));
}

#[test]
fn spotlight_description_without_the_click_line_keeps_its_text() {
    let content = spotlight("u", "Right-click to learn more", "id");
    assert_eq!(content.ad.daily_image().description, "Right-click to learn more");
    let twice = spotlight("u", "x\r\nRight-click to learn more\r\nRight-click to learn more", "id");
    assert_eq!(twice.ad.daily_image().description, "x");
}

#[test]
fn spotlight_lists_follow_the_batch() {
    let contents = vec![spotlight("u1", "one", "a"), spotlight("u2", "two", "b")];
    let items = spotlight_resolve(&contents);
    assert_eq!(items.len(), 2);
    assert_eq!(items[0].as_ref().unwrap().file_name, "a.jpg");
    assert_eq!(items[1].as_ref().unwrap().url, "u2");
    assert_eq!(spotlight_daily_images(&contents), vec![image("", "", "one"), image("", "", "two")]);
}

#[test]
fn oldest_date_is_the_earliest_day_of_the_items() {
    let item = |date: Option<CalendarDate>| CacheItem {
        label: String::new(),
        file_name: String::new(),
        url: String::new(),
        date,
    };
    assert_eq!(find_oldest_date(&vec![]), None);
    assert_eq!(find_oldest_date(&vec![item(None), item(None)]), None);
    assert_eq!(
        find_oldest_date(&vec![item(Some(day(2024, 1, 5))), item(None), item(Some(day(2023, 12, 31))), item(Some(day(2024, 1, 1)))]),
        Some(day(2023, 12, 31))
    );
}

#[test]
fn copy_images_copies_every_image() {
    let images = vec![image("a", "b", "c"), image("", "", "")];
    assert_eq!(copy_images(&images), images);
}

#[test]
fn daily_image_from_a_spotlight_image() {
    let content = spotlight("https://img.example/a.jpg", "A lake\r\nRight-click to learn more", "abc123");
    assert_eq!(DailyImage::from(content.ad), image("", "", "A lake"));
}

#[test]
fn nasa_same_day_and_extension_give_the_same_file() {
    let first = nasa("one", "Fri, 05 Jan 2024 14:27:23 EST", "https://nasa.gov/a/galaxy.jpg").resolve().unwrap();
    let second = nasa("two", "Fri, 05 Jan 2024 23:59:59 EST", "https://nasa.gov/b/moon.jpg").resolve().unwrap();
    assert_eq!(first.file_name, "2024-01-05.jpg");
    assert_eq!(first.file_name, second.file_name);
}

#[test]
fn spotlight_same_identifier_gives_the_same_file() {
    let first = spotlight("https://img.example/a", "one", "abc").ad.resolve();
    let second = spotlight("https://img.example/b", "two", "abc").ad.resolve();
    assert_eq!(first.file_name, "abc.jpg");
    assert_eq!(first.file_name, second.file_name);
}

#[test]
fn resolved_items_are_the_items_that_have_a_cache_item() {
    let item = |name: &str| CacheItem {
        label: name.to_string(),
        file_name: name.to_string(),
        url: String::new(),
        date: None,
    };
    let outcomes = vec![Ok(item("a")), Err(FeedError::BingDate), Ok(item("b"))];
    assert_eq!(resolved_items(&outcomes), vec![item("a"), item("b")]);
    assert_eq!(resolved_items(&vec![]), vec![]);
    assert_eq!(resolved_items(&vec![Err(FeedError::NasaUrl)]), vec![]);
}
