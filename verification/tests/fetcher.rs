use std::path::PathBuf;
use wiki_spider::requester::{
    cache_file_name, entry_of, get_from_cache, write_to_cache, ClientProvider, FetchError, Lookup, Requester,
    SimpleRequest, Slot, COOLDOWN_MS, POOL_SIZE,
};
use wiki_spider::spider::Failure;

fn get(url: &str) -> SimpleRequest {
    SimpleRequest::get(url.to_string())
}

#[test]
fn cache_file_name_percent_encodes_the_url() {
    assert_eq!(
        cache_file_name("https://worm.fandom.com/wiki/Worm_Wiki"),
        "https%3A%2F%2Fworm.fandom.com%2Fwiki%2FWorm_Wiki"
    );
    assert_eq!(cache_file_name("AZaz09-._~"), "AZaz09-._~");
    assert_eq!(cache_file_name("a b?c=d&e#f"), "a%20b%3Fc%3Dd%26e%23f");
    assert_eq!(cache_file_name("é"), "%C3%A9");
    assert_eq!(cache_file_name(""), "");
}

#[test]
fn cache_file_names_of_distinct_urls_differ() {
    assert_ne!(cache_file_name("https://a.example/x"), cache_file_name("https://a.example/X"));
    assert_ne!(cache_file_name("a/b"), cache_file_name("a%2Fb"));
}

#[test]
fn cache_round_trip_returns_the_content() {
    for content in ["", "hello", "<html><body>Ünïcödé ✓ 🕷</body></html>", "line\nbreak\ttab\0nul"] {
        let entry = write_to_cache("https://a.example/page", content).unwrap();
        assert_eq!(entry.file_name, cache_file_name("https://a.example/page"));
        let back = get_from_cache(Some(entry.bytes)).unwrap();
        assert_eq!(back.as_deref(), Some(content));
    }
}

#[test]
fn cache_round_trip_of_a_long_page() {
    let content = "spider ".repeat(50_000);
    let entry = write_to_cache("https://a.example/long", &content).unwrap();
    assert!(entry.bytes.len() < content.len());
    assert_eq!(get_from_cache(Some(entry.bytes)).unwrap(), Some(content));
}

#[test]
fn cache_entry_is_compressed_not_copied() {
    let entry = write_to_cache("https://a.example/page", "hello hello hello").unwrap();
    assert_ne!(entry.bytes, "hello hello hello".as_bytes());
    // A zlib stream at the best level starts with 0x78 0xDA.
    assert_eq!(&entry.bytes[..2], &[0x78, 0xDA]);
}

#[test]
fn missing_cache_file_is_a_miss() {
    assert!(matches!(get_from_cache(None), Ok(None)));
}

#[test]
fn undecodable_cache_file_is_a_cache_error() {
    match get_from_cache(Some(b"this is no zlib stream".to_vec())) {
        Err(FetchError::CacheIO { reason }) => assert_eq!(reason, "cache entry is not a compressed text"),
        other => panic!("expected a cache error, got {:?}", other),
    }
    assert!(matches!(get_from_cache(Some(Vec::new())), Err(FetchError::CacheIO { .. })));
}

#[test]
fn compressed_bytes_that_are_not_utf8_are_a_cache_error() {
    // zlib stream of the single byte 0xFF.
    let bytes = vec![0x78, 0x9C, 0xFB, 0x0F, 0x00, 0x01, 0x00, 0x01, 0x00];
    assert!(matches!(get_from_cache(Some(bytes)), Err(FetchError::CacheIO { .. })));
}

#[test]
fn entry_of_reports_a_refused_compression() {
    match entry_of("name".to_string(), None) {
        Err(FetchError::CacheIO { reason }) => assert_eq!(reason, "page could not be compressed"),
        other => panic!("expected a cache error, got {:?}", other),
    }
    let entry = entry_of("name".to_string(), Some(vec![1, 2, 3])).unwrap();
    assert_eq!(entry.file_name, "name");
    assert_eq!(entry.bytes, vec![1, 2, 3]);
}

#[test]
fn fetch_error_kinds() {
    assert_eq!(FetchError::Transport { reason: "x".to_string() }.kind(), Failure::Transport);
    assert_eq!(FetchError::CacheIO { reason: "x".to_string() }.kind(), Failure::CacheIO);
}

#[test]
fn fetch_through_the_network_stores_before_it_returns() {
    let requester = Requester::new(PathBuf::from("page_cache"));
    assert_eq!(requester.cache_dir(), &PathBuf::from("page_cache"));
    let query = requester.execute(get("https://a.example/page?x=1"));
    assert_eq!(query.file_name(), "https%3A%2F%2Fa.example%2Fpage%3Fx%3D1");
    assert_eq!(query.request().url, "https://a.example/page?x=1");
    let exchange = match query.resolve(None) {
        Lookup::Miss(exchange) => exchange,
        other => panic!("expected a miss, got {:?}", other),
    };
    assert_eq!(exchange.request().url, "https://a.example/page?x=1");
    let store = exchange.complete(Ok("<html>page</html>".to_string())).unwrap();
    assert_eq!(store.entry().file_name, "https%3A%2F%2Fa.example%2Fpage%3Fx%3D1");
    let written = store.entry().bytes.clone();
    assert_eq!(store.finish(Ok(())).unwrap(), "<html>page</html>");

    // The second fetch of the URL is answered by the cache.
    let query = requester.execute(get("https://a.example/page?x=1"));
    match query.resolve(Some(written)) {
        Lookup::Hit(page) => assert_eq!(page, "<html>page</html>"),
        other => panic!("expected a hit, got {:?}", other),
    }
}

#[test]
fn corrupt_cache_file_fails_the_fetch() {
    let requester = Requester::new(PathBuf::from("page_cache"));
    let query = requester.execute(get("https://a.example/page"));
    match query.resolve(Some(vec![0, 1, 2, 3])) {
        Lookup::Corrupt(FetchError::CacheIO { .. }) => {}
        other => panic!("expected a corrupt entry, got {:?}", other),
    }
}

#[test]
fn failed_exchange_is_a_transport_error() {
    let requester = Requester::new(PathBuf::from("page_cache"));
    let query = requester.execute(get("https://a.example/page"));
    let exchange = match query.resolve(None) {
        Lookup::Miss(exchange) => exchange,
        other => panic!("expected a miss, got {:?}", other),
    };
    match exchange.complete(Err("connection refused".to_string())) {
        Err(FetchError::Transport { reason }) => assert_eq!(reason, "connection refused"),
        other => panic!("expected a transport error, got {:?}", other),
    }
}

#[test]
fn failed_cache_write_is_a_cache_error() {
    let requester = Requester::new(PathBuf::from("page_cache"));
    let query = requester.execute(get("https://a.example/page"));
    let exchange = match query.resolve(None) {
        Lookup::Miss(exchange) => exchange,
        other => panic!("expected a miss, got {:?}", other),
    };
    let store = exchange.complete(Ok("page".to_string())).unwrap();
    match store.finish(Err("disk full".to_string())) {
        Err(FetchError::CacheIO { reason }) => assert_eq!(reason, "disk full"),
        other => panic!("expected a cache error, got {:?}", other),
    }
}

#[test]
fn pool_lends_each_handle_once() {
    let mut pool = ClientProvider::new(2, 1000);
    assert_eq!(pool.available(0), 2);
    assert_eq!(pool.wake_at(), None);
    assert_eq!(pool.get_client(0), Some(0));
    assert_eq!(pool.available(0), 1);
    assert_eq!(pool.get_client(0), Some(1));
    assert_eq!(pool.available(0), 0);
    assert_eq!(pool.get_client(0), None);
    assert_eq!(pool.get_client(u64::MAX), None);
    assert_eq!(pool.wake_at(), None);
}

#[test]
fn returned_handle_cools_down_before_it_is_lent_again() {
    let mut pool = ClientProvider::new(1, 1000);
    assert_eq!(pool.get_client(5), Some(0));
    assert!(pool.return_client(0, 10));
    assert_eq!(pool.wake_at(), Some(1010));
    assert_eq!(pool.available(10), 0);
    assert_eq!(pool.get_client(10), None);
    assert_eq!(pool.get_client(1009), None);
    assert_eq!(pool.available(1010), 1);
    assert_eq!(pool.get_client(1010), Some(0));
    assert_eq!(pool.wake_at(), None);
}

#[test]
fn pool_lends_the_first_ready_handle_and_wakes_at_the_earliest() {
    let mut pool = ClientProvider::new(3, 100);
    assert_eq!(pool.get_client(0), Some(0));
    assert_eq!(pool.get_client(0), Some(1));
    assert_eq!(pool.get_client(0), Some(2));
    assert!(pool.return_client(2, 10));
    assert!(pool.return_client(0, 30));
    assert_eq!(pool.wake_at(), Some(110));
    assert_eq!(pool.get_client(109), None);
    assert_eq!(pool.get_client(110), Some(2));
    assert_eq!(pool.wake_at(), Some(130));
    assert_eq!(pool.get_client(200), Some(0));
    assert_eq!(pool.get_client(200), None);
}

#[test]
fn pool_refuses_what_it_did_not_lend() {
    let mut pool = ClientProvider::new(2, 100);
    assert!(!pool.return_client(0, 0));
    assert!(!pool.return_client(7, 0));
    assert_eq!(pool.get_client(0), Some(0));
    assert!(pool.return_client(0, 0));
    assert!(!pool.return_client(0, 0));
    assert_eq!(pool.available(0), 1);
    assert_eq!(pool.available(100), 2);
}

#[test]
fn cooldown_saturates_at_the_end_of_the_clock() {
    let mut pool = ClientProvider::new(1, 1000);
    assert_eq!(pool.get_client(0), Some(0));
    assert!(pool.return_client(0, u64::MAX - 1));
    assert_eq!(pool.wake_at(), Some(u64::MAX));
    assert_eq!(pool.get_client(u64::MAX - 1), None);
    assert_eq!(pool.get_client(u64::MAX), Some(0));
}

#[test]
fn empty_pool_never_lends() {
    let mut pool = ClientProvider::new(0, 1000);
    assert_eq!(pool.available(0), 0);
    assert_eq!(pool.get_client(0), None);
    assert_eq!(pool.wake_at(), None);
}

#[test]
fn requester_has_one_handle_with_a_cooldown_of_a_second() {
    assert_eq!(POOL_SIZE, 1);
    assert_eq!(COOLDOWN_MS, 1000);
    let mut requester = Requester::new(PathBuf::from("cache"));
    assert_eq!(requester.wake_at(), None);
    assert_eq!(requester.get_client(0), Some(0));
    assert_eq!(requester.get_client(0), None);
    assert!(requester.return_client(0, 500));
    assert_eq!(requester.wake_at(), Some(1500));
    assert_eq!(requester.get_client(1499), None);
    assert_eq!(requester.get_client(1500), Some(0));
}

#[test]
fn slot_readiness() {
    assert!(Slot::Idle.is_ready(0));
    assert!(!Slot::Lent.is_ready(u64::MAX));
    assert!(!Slot::Cooling { ready_at: 10 }.is_ready(9));
    assert!(Slot::Cooling { ready_at: 10 }.is_ready(10));
}
