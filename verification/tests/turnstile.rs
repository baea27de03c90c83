use apt_cmd::fetch::PackageFetcher;
use apt_cmd::turnstile::Turnstile;

#[test]
fn concurrent_arrivals_start_the_delay_apart() {
    let mut turnstile = Turnstile::new(250);
    assert_eq!(turnstile.pass(1000), Some(1250));
    assert_eq!(turnstile.pass(1000), Some(1500));
    assert_eq!(turnstile.pass(1001), Some(1750));
    assert_eq!(turnstile.free_at, 1750);
}

#[test]
fn late_arrival_waits_the_delay_only() {
    let mut turnstile = Turnstile::new(250);
    assert_eq!(turnstile.pass(0), Some(250));
    assert_eq!(turnstile.pass(10_000), Some(10_250));
    assert_eq!(turnstile.pass(10_100), Some(10_500));
}

#[test]
fn starts_are_spaced_for_any_arrivals() {
    let delay = 30;
    let arrivals = [5u64, 5, 5, 6, 40, 41, 200, 200, 1000, 1001, 1002];
    let mut turnstile = Turnstile::new(delay);
    let starts: Vec<u64> = arrivals.iter().map(|now| turnstile.pass(*now).unwrap()).collect();
    for i in 0..starts.len() {
        assert!(starts[i] >= arrivals[i] + delay);
        for j in i + 1..starts.len() {
            assert!(starts[j] - starts[i] >= delay);
        }
    }
}

#[test]
fn start_that_does_not_fit_is_refused() {
    let mut turnstile = Turnstile::new(10);
    assert_eq!(turnstile.pass(u64::MAX - 10), Some(u64::MAX));
    assert_eq!(turnstile.pass(0), None);
    assert_eq!(turnstile.free_at, u64::MAX);
    let mut other = Turnstile::new(10);
    assert_eq!(other.pass(u64::MAX - 9), None);
    assert_eq!(other.free_at, 0);
    assert_eq!(other.pass(7), Some(17));
}

#[test]
fn zero_delay_spaces_nothing() {
    let mut turnstile = Turnstile::new(0);
    assert_eq!(turnstile.pass(5), Some(5));
    assert_eq!(turnstile.pass(5), Some(5));
    assert_eq!(turnstile.pass(3), Some(5));
}

#[test]
fn fetcher_has_a_turnstile_only_with_a_delay() {
    assert!(PackageFetcher::new().turnstile().is_none());
    let turnstile = PackageFetcher::new().delay_between_requests(40).turnstile().unwrap();
    assert_eq!(turnstile.delay, 40);
    assert_eq!(turnstile.free_at, 0);
}
