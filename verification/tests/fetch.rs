use apt_cmd::fetch::{staging_name, EventKind, FetchEvent, FetchRequest, PackageFetcher};
use apt_cmd::request::{Request, RequestChecksum};
use std::sync::Arc;

#[test]
fn package_fetcher_settings() {
    let fetcher = PackageFetcher::new();
    assert_eq!(fetcher.concurrent, 1);
    assert_eq!(fetcher.connections_per_file, 1);
    assert_eq!(fetcher.retries, 3);
    assert_eq!(fetcher.delay_between_requests, None);
    let fetcher = fetcher.connections_per_file(4).concurrent(8).retries(5).delay_between_requests(100);
    assert_eq!(fetcher.concurrent, 8);
    assert_eq!(fetcher.connections_per_file, 4);
    assert_eq!(fetcher.retries, 5);
    assert_eq!(fetcher.delay_between_requests, Some(100));
    assert_eq!(PackageFetcher::default().concurrent, 0);
}

#[test]
fn fetch_event_holds_its_request() {
    let request = Arc::new(Request {
        uri: "http://x/a.deb".to_string(),
        name: "a.deb".to_string(),
        size: 1,
        checksum: RequestChecksum::Md5(String::new()),
    });
    let event = FetchEvent::new(request.clone(), EventKind::Fetched);
    assert!(Arc::ptr_eq(&event.package, &request));
    assert!(matches!(event.kind, EventKind::Fetched));
    let record = FetchRequest { package: (*request).clone(), attempt: 0 };
    assert_eq!(record.package.name, "a.deb");
}

#[test]
fn package_fetcher_makes_workers_with_its_retries() {
    let request = Request {
        uri: "http://x/a.deb".to_string(),
        name: "a.deb".to_string(),
        size: 1,
        checksum: RequestChecksum::Md5(String::new()),
    };
    let worker = PackageFetcher::new().retries(7).worker(request);
    assert_eq!(worker.retries, 7);
    assert!(!worker.throttled);
    assert_eq!(worker.request.attempt, 0);
    assert_eq!(worker.request.package.uri, "http://x/a.deb");
}

#[test]
fn staging_file_is_named_after_the_package() {
    assert_eq!(staging_name("a.deb"), "a.deb.partial");
    assert_eq!(staging_name(""), ".partial");
}
