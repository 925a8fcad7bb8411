use ntucool::assignments::Timestamp;
use ntucool::cache::{course_cache_is_fresh, course_cache_path, CacheEntry, KeyedCache, CACHE_TTL_MS};
use ntucool::client::{PageCollector, PaginatedResponse};
use ntucool::paths::XdgDirs;

fn at(secs: i64) -> Timestamp {
    Timestamp { secs, nanos: 0 }
}

#[test]
fn course_cache_lives_under_the_cache_home() {
    let dirs = XdgDirs {
        config_home: "/home/u/.config".to_string(),
        data_home: "/home/u/.local/share".to_string(),
        cache_home: "/home/u/.cache".to_string(),
    };
    assert_eq!(course_cache_path(&dirs), "/home/u/.cache/ntucool/courses.json");
}

#[test]
fn course_cache_is_good_for_an_hour() {
    assert!(course_cache_is_fresh(at(1000), at(1000)));
    assert!(course_cache_is_fresh(at(1000), at(1000 + 3599)));
    assert!(!course_cache_is_fresh(at(1000), at(1000 + 3600)));
    assert!(course_cache_is_fresh(at(5000), at(1000)));
    assert!(course_cache_is_fresh(Timestamp { secs: 1000, nanos: 0 }, Timestamp { secs: 4600, nanos: 5 }) == false);
}

#[test]
fn entries_expire_after_five_minutes() {
    let e = CacheEntry { data: 1u8, fetched_at_ms: 10_000 };
    assert!(e.is_valid(10_000));
    assert!(e.is_valid(10_000 + CACHE_TTL_MS - 1));
    assert!(!e.is_valid(10_000 + CACHE_TTL_MS));
    assert!(e.is_valid(0));
}

#[test]
fn cache_reads_back_what_was_put_until_it_expires() {
    let mut c: KeyedCache<Vec<String>> = KeyedCache::new();
    assert!(c.get(7, 0).is_none());
    c.put(7, vec!["a".to_string()], 1_000);
    c.put(8, vec!["b".to_string()], 2_000);
    assert_eq!(c.get(7, 1_000), Some(&vec!["a".to_string()]));
    assert_eq!(c.get(8, 250_000), Some(&vec!["b".to_string()]));
    assert!(c.get(7, 1_000 + CACHE_TTL_MS).is_none());
    c.put(7, vec!["c".to_string()], 400_000);
    assert_eq!(c.get(7, 400_001), Some(&vec!["c".to_string()]));
    assert!(c.get(9, 1).is_none());
}

#[test]
fn pages_are_gathered_in_order_until_the_last() {
    let mut p = PageCollector::start(PaginatedResponse { items: vec![1, 2], next_url: Some("u2".to_string()) });
    assert_eq!(p.next_url.as_deref(), Some("u2"));
    p.page_received::<String>(Ok(PaginatedResponse { items: vec![3], next_url: Some("u3".to_string()) }));
    assert_eq!(p.items, vec![1, 2, 3]);
    p.page_received::<String>(Ok(PaginatedResponse { items: vec![4, 5], next_url: None }));
    assert_eq!(p.items, vec![1, 2, 3, 4, 5]);
    assert!(p.next_url.is_none());
}

#[test]
fn a_failed_page_ends_the_listing_with_what_was_gathered() {
    let mut p = PageCollector::start(PaginatedResponse { items: vec!["a"], next_url: Some("u2".to_string()) });
    p.page_received(Err("timeout"));
    assert_eq!(p.items, vec!["a"]);
    assert!(p.next_url.is_none());
}
