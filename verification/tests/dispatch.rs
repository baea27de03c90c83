use apt_cmd::dispatch::{Admission, Dispatcher, Notice};
use apt_cmd::fetch::PackageFetcher;

#[test]
fn dispatcher_never_runs_more_than_the_limit() {
    for limit in 1..5usize {
        let mut dispatcher = Dispatcher::new(limit);
        let mut pending = 3 * limit + 1;
        let mut most = 0;
        let mut ended = 0;
        loop {
            match dispatcher.next() {
                Admission::Admit => {
                    if pending == 0 {
                        dispatcher.record(Notice::Exhausted);
                    } else {
                        pending -= 1;
                        dispatcher.record(Notice::Started);
                    }
                }
                Admission::Wait => {
                    dispatcher.record(Notice::Ended);
                    ended += 1;
                }
                Admission::Finish => break,
            }
            assert!(dispatcher.active() <= limit);
            most = most.max(dispatcher.active());
        }
        assert_eq!(most, limit);
        assert_eq!(ended, 3 * limit + 1);
        assert_eq!(dispatcher.active(), 0);
    }
}

#[test]
fn dispatcher_admits_while_a_slot_is_free() {
    let mut dispatcher = Dispatcher::new(2);
    assert_eq!(dispatcher.next(), Admission::Admit);
    dispatcher.record(Notice::Started);
    assert_eq!(dispatcher.next(), Admission::Admit);
    dispatcher.record(Notice::Started);
    assert_eq!(dispatcher.next(), Admission::Wait);
    dispatcher.record(Notice::Started);
    assert_eq!(dispatcher.active(), 2);
    dispatcher.record(Notice::Ended);
    assert_eq!(dispatcher.next(), Admission::Admit);
    dispatcher.record(Notice::Exhausted);
    assert_eq!(dispatcher.next(), Admission::Wait);
    dispatcher.record(Notice::Started);
    assert_eq!(dispatcher.active(), 1);
    dispatcher.record(Notice::Ended);
    assert_eq!(dispatcher.next(), Admission::Finish);
    dispatcher.record(Notice::Ended);
    assert_eq!(dispatcher.active(), 0);
    assert_eq!(dispatcher.next(), Admission::Finish);
}

#[test]
fn dispatcher_without_slots_admits_nothing() {
    let mut dispatcher = PackageFetcher::default().dispatcher();
    assert_eq!(dispatcher.next(), Admission::Wait);
    dispatcher.record(Notice::Started);
    assert_eq!(dispatcher.active(), 0);
    dispatcher.record(Notice::Exhausted);
    assert_eq!(dispatcher.next(), Admission::Finish);
}

#[test]
fn dispatcher_of_an_empty_input_finishes() {
    let mut dispatcher = PackageFetcher::new().concurrent(8).dispatcher();
    assert_eq!(dispatcher.limit, 8);
    assert_eq!(dispatcher.next(), Admission::Admit);
    dispatcher.record(Notice::Exhausted);
    assert_eq!(dispatcher.next(), Admission::Finish);
}
