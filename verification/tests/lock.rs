use apt_cmd::lock::{apt_lock_found, AptLockEvent, LockWatch, DPKG_LOCK, LISTS_LOCK};

fn strings(list: &[&str]) -> Vec<String> {
    list.iter().map(|s| s.to_string()).collect()
}

#[test]
fn lock_is_found_among_open_files() {
    let paths = strings(&[DPKG_LOCK, LISTS_LOCK]);
    assert!(apt_lock_found(&strings(&["/dev/null", "/var/lib/dpkg/lock"]), &paths));
    assert!(apt_lock_found(&strings(&["/var/lib/apt/lists/lock"]), &paths));
    assert!(!apt_lock_found(&strings(&["/dev/null", "/var/lib/dpkg/lock-frontend"]), &paths));
    assert!(!apt_lock_found(&[], &paths));
    assert!(!apt_lock_found(&strings(&["/var/lib/dpkg/lock"]), &[]));
}

#[test]
fn watch_of_a_free_lock_reports_unlocked_at_once() {
    let mut watch = LockWatch::new();
    let step = watch.observe(false);
    assert_eq!(step.event, Some(AptLockEvent::Unlocked));
    assert!(!step.poll_again);
    let later = watch.observe(true);
    assert_eq!(later.event, None);
    assert!(!later.poll_again);
}

#[test]
fn watch_of_a_held_lock_reports_locked_then_unlocked() {
    let mut watch = LockWatch::new();
    let mut events = Vec::new();
    for found in [true, true, true, false, true, false] {
        let step = watch.observe(found);
        events.extend(step.event);
        if !step.poll_again {
            break;
        }
    }
    assert_eq!(events, vec![AptLockEvent::Locked, AptLockEvent::Unlocked]);
    assert_eq!(apt_cmd::lock::POLL_SECONDS, 3);
}
