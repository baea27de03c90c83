use apt_cmd::dispatch::Admission;
use apt_cmd::fetch::{EventKind, PackageFetcher};
use apt_cmd::request::{Request, RequestChecksum};
use apt_cmd::session::Session;
use apt_cmd::worker::{Action, Outcome, Phase};

fn request(n: usize) -> Request {
    Request {
        uri: format!("http://x/{}.deb", n),
        name: format!("{}.deb", n),
        size: 1,
        checksum: RequestChecksum::Md5(String::new()),
    }
}

fn networking(session: &Session) -> usize {
    session
        .slots
        .iter()
        .flatten()
        .filter(|worker| worker.phase == Phase::Response || worker.phase == Phase::Copy)
        .count()
}

#[test]
fn session_never_has_more_workers_on_the_network_than_the_limit() {
    for limit in 1..4usize {
        let fetcher = PackageFetcher::new().concurrent(limit).retries(1);
        let mut session = Session::new(&fetcher);
        let total = 4 * limit + 1;
        let mut pending = total;
        let mut validated = 0;
        let mut most = 0;
        let mut round = 0;
        loop {
            match session.next() {
                Admission::Admit => {
                    if pending == 0 {
                        session.close_input();
                    } else {
                        pending -= 1;
                        let (slot, step) = session.start(request(pending)).unwrap();
                        assert!(slot < limit);
                        assert!(matches!(step.event, Some(EventKind::Fetching)));
                        assert_eq!(step.action, Action::Request);
                    }
                }
                Admission::Wait => {
                    round += 1;
                    let busy: Vec<usize> =
                        (0..session.slots.len()).filter(|slot| session.slots[*slot].is_some()).collect();
                    let slot = busy[round % busy.len()];
                    let outcome = match session.slots[slot].as_ref().unwrap().phase {
                        Phase::Response => Outcome::Response(if round % 5 == 0 { 500 } else { 200 }),
                        Phase::Staging => Outcome::StagingCreated,
                        Phase::Copy => Outcome::BodyCopied,
                        Phase::Verify => Outcome::ChecksumOk,
                        _ => Outcome::Installed,
                    };
                    let step = session.report(slot, outcome).unwrap();
                    if matches!(step.event, Some(EventKind::Validated) | Some(EventKind::Error(_))) {
                        validated += 1;
                        assert!(session.slots[slot].is_none());
                    }
                }
                Admission::Finish => break,
            }
            assert!(networking(&session) <= limit);
            assert!(session.slots.len() <= limit);
            assert_eq!(session.running(), session.slots.iter().flatten().count());
            most = most.max(session.running());
        }
        assert_eq!(most, limit);
        assert_eq!(validated, total);
        assert_eq!(session.running(), 0);
    }
}

#[test]
fn session_refuses_a_request_without_a_free_slot() {
    let mut session = Session::new(&PackageFetcher::new());
    assert!(session.start(request(0)).is_some());
    assert_eq!(session.next(), Admission::Wait);
    assert!(session.start(request(1)).is_none());
    assert_eq!(session.running(), 1);
    assert!(session.report(1, Outcome::Response(200)).is_none());
    assert!(session.report(0, Outcome::Response(200)).is_some());
    session.close_input();
    assert!(session.start(request(2)).is_none());
    assert_eq!(session.next(), Admission::Wait);
}

#[test]
fn session_reuses_the_slot_of_a_finished_worker() {
    let mut session = Session::new(&PackageFetcher::new().concurrent(2).retries(0));
    let (first, _) = session.start(request(0)).unwrap();
    let (second, _) = session.start(request(1)).unwrap();
    assert_eq!((first, second), (0, 1));
    let step = session.report(0, Outcome::Response(404)).unwrap();
    assert!(matches!(step.event, Some(EventKind::Error(_))));
    assert!(session.report(0, Outcome::Response(200)).is_none());
    assert_eq!(session.running(), 1);
    let (third, _) = session.start(request(2)).unwrap();
    assert_eq!(third, 0);
    assert_eq!(session.slots[0].as_ref().unwrap().request.package.name, "2.deb");
    assert_eq!(session.slots.len(), 2);
}
