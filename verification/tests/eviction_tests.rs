use hub::date::CalendarDate;
use hub::eviction::is_item_file;
use hub::eviction::is_stale_by_date;
use hub::eviction::stale_files;
use hub::feed::CacheItem;
use hub::service::ImageService;

fn day(year: i32, month: u32, day: u32) -> CalendarDate {
    CalendarDate { year, month, day }
}

fn dated(date: CalendarDate, extension: &str) -> CacheItem {
    let label = date.iso_string();
    CacheItem { file_name: format!("{label}.{extension}"), label, url: String::new(), date: Some(date) }
}

fn batch(id: &str) -> CacheItem {
    CacheItem { label: format!("{id}.jpg"), file_name: format!("{id}.jpg"), url: String::new(), date: None }
}

fn names(list: &[&str]) -> Vec<String> {
    list.iter().map(|n| n.to_string()).collect()
}

#[test]
fn a_file_older_than_the_oldest_item_is_stale() {
    let oldest = day(2024, 1, 3);
    let today = day(2024, 1, 5);
    assert!(is_stale_by_date("2024-01-02.jpg", &oldest, &today, "json"));
    assert!(is_stale_by_date("2023-12-31.png", &oldest, &today, "json"));
    assert!(!is_stale_by_date("2024-01-03.jpg", &oldest, &today, "json"));
    assert!(!is_stale_by_date("2024-01-05.jpg", &oldest, &today, "json"));
    assert!(!is_stale_by_date("2024-01-09.jpg", &oldest, &today, "json"));
}

#[test]
fn an_item_list_of_another_day_is_stale() {
    let oldest = day(2024, 1, 3);
    let today = day(2024, 1, 5);
    assert!(is_stale_by_date("2024-01-04.json", &oldest, &today, "json"));
    assert!(is_stale_by_date("2024-01-06.json", &oldest, &today, "json"));
    assert!(!is_stale_by_date("2024-01-05.json", &oldest, &today, "json"));
    assert!(!is_stale_by_date("2024-01-04.xml", &oldest, &today, "json"));
    assert!(is_stale_by_date("2024-01-04.xml", &oldest, &today, "xml"));
}

#[test]
fn a_file_not_named_after_a_day_stays() {
    let oldest = day(2024, 1, 3);
    let today = day(2024, 1, 5);
    assert!(!is_stale_by_date("settings.json", &oldest, &today, "json"));
    assert!(!is_stale_by_date("notes", &oldest, &today, "json"));
    assert!(!is_stale_by_date("", &oldest, &today, "json"));
}

#[test]
fn daily_eviction_keeps_the_range_of_the_feed() {
    let items = vec![dated(day(2024, 1, 5), "jpg"), dated(day(2024, 1, 4), "jpg"), dated(day(2024, 1, 3), "jpg")];
    let listing = names(&[
        "2024-01-05.json",
        "2024-01-04.json",
        "2024-01-05.jpg",
        "2024-01-03.jpg",
        "2024-01-02.jpg",
        "2023-12-25.jpg",
        "readme.txt",
    ]);
    assert_eq!(
        stale_files(&ImageService::Bing, &listing, &items, &day(2024, 1, 5)),
        names(&["2024-01-04.json", "2024-01-02.jpg", "2023-12-25.jpg"])
    );
    assert_eq!(
        stale_files(&ImageService::Nasa, &listing, &items, &day(2024, 1, 5)),
        names(&["2024-01-02.jpg", "2023-12-25.jpg"])
    );
}

#[test]
fn daily_eviction_without_items_removes_nothing() {
    let listing = names(&["2020-01-01.jpg", "2020-01-01.json"]);
    assert!(stale_files(&ImageService::Bing, &listing, &vec![], &day(2024, 1, 5)).is_empty());
}

#[test]
fn batch_eviction_keeps_the_listed_items_and_the_item_list() {
    let items = vec![batch("a"), batch("b")];
    let listing = names(&["info.json", "a.jpg", "c.jpg", "b.jpg", "old.json", "b.png"]);
    assert_eq!(
        stale_files(&ImageService::Spotlight, &listing, &items, &day(2024, 1, 5)),
        names(&["c.jpg", "old.json", "b.png"])
    );
    assert_eq!(
        stale_files(&ImageService::Spotlight, &listing, &vec![], &day(2024, 1, 5)),
        names(&["a.jpg", "c.jpg", "b.jpg", "old.json", "b.png"])
    );
}

#[test]
fn is_item_file_goes_by_the_file_name() {
    let items = vec![batch("a"), batch("b")];
    assert!(is_item_file(&items, "a.jpg"));
    assert!(is_item_file(&items, "b.jpg"));
    assert!(!is_item_file(&items, "a"));
    assert!(!is_item_file(&vec![], "a.jpg"));
}
