use apt_cmd::upgrade::AptUpgradeEvent;

#[test]
fn apt_upgrade_event_progress() {
    assert_eq!(
        AptUpgradeEvent::Progress { percent: 1 },
        "Progress: [  1%]".parse::<AptUpgradeEvent>().unwrap()
    );

    assert_eq!(
        AptUpgradeEvent::Progress { percent: 25 },
        "Progress: [ 25%] ".parse::<AptUpgradeEvent>().unwrap()
    );

    assert_eq!(
        AptUpgradeEvent::Progress { percent: 100 },
        "Progress: [100%]".parse::<AptUpgradeEvent>().unwrap()
    );
}

fn pairs(list: &[(&str, &str)]) -> Vec<(String, String)> {
    list.iter().map(|(key, value)| (key.to_string(), value.to_string())).collect()
}

#[test]
fn upgrade_progress_needs_a_percent_sign() {
    assert_eq!(Err(()), "Progress: [ 25]".parse::<AptUpgradeEvent>());
    assert_eq!(Err(()), "Progress: [%]".parse::<AptUpgradeEvent>());
    assert_eq!(Err(()), "Progress: [256%]".parse::<AptUpgradeEvent>());
    assert_eq!(Err(()), "Progress: [ 2 5%]".parse::<AptUpgradeEvent>());
    assert_eq!(Err(()), "Progress: [".parse::<AptUpgradeEvent>());
    assert_eq!(Err(()), "progress: [ 25%]".parse::<AptUpgradeEvent>());
    assert_eq!(Ok(AptUpgradeEvent::Progress { percent: 255 }), "Progress: [255%%]".parse::<AptUpgradeEvent>());
    assert_eq!(Ok(AptUpgradeEvent::Progress { percent: 7 }), "Progress: [\t+7% done".parse::<AptUpgradeEvent>());
}

#[test]
fn upgrade_processing_and_setting_up() {
    assert_eq!(
        Ok(AptUpgradeEvent::Processing { package: "man-db".to_string() }),
        AptUpgradeEvent::parse("Processing triggers for man-db (2.9.4-2) ...")
    );
    assert_eq!(
        Ok(AptUpgradeEvent::SettingUp { package: "libc6:amd64".to_string() }),
        AptUpgradeEvent::parse("Setting up libc6:amd64 (2.34-0ubuntu3) ...")
    );
    assert_eq!(Err(()), AptUpgradeEvent::parse("Setting up "));
    assert_eq!(Err(()), AptUpgradeEvent::parse("Processing triggers for   "));
    assert_eq!(Err(()), AptUpgradeEvent::parse("Setting up"));
    assert_eq!(Err(()), AptUpgradeEvent::parse(""));
    assert_eq!(Err(()), AptUpgradeEvent::parse("Preparing to unpack .../libc6.deb ..."));
}

#[test]
fn upgrade_unpacking() {
    assert_eq!(
        Ok(AptUpgradeEvent::Unpacking {
            package: "libc6:amd64".to_string(),
            version: "2.34-0ubuntu3".to_string(),
            over: "2.34-0ubuntu2".to_string(),
        }),
        AptUpgradeEvent::parse("Unpacking libc6:amd64 (2.34-0ubuntu3) over (2.34-0ubuntu2) ...")
    );
    assert_eq!(
        Ok(AptUpgradeEvent::Unpacking { package: "a".to_string(), version: "1".to_string(), over: "2".to_string() }),
        AptUpgradeEvent::parse("Unpacking a x1y skipped [2]")
    );
    assert_eq!(Err(()), AptUpgradeEvent::parse("Unpacking a (1) over"));
    assert_eq!(Err(()), AptUpgradeEvent::parse("Unpacking a () over (2)"));
    assert_eq!(Err(()), AptUpgradeEvent::parse("Unpacking a (1) over ()"));
    assert_eq!(Err(()), AptUpgradeEvent::parse("Unpacking a \u{e9}1) over (2)"));
}

#[test]
fn upgrade_event_description() {
    assert_eq!(
        AptUpgradeEvent::Processing { package: "man-db".to_string() }.to_string(),
        "processing triggers for man-db"
    );
    assert_eq!(AptUpgradeEvent::Progress { percent: 1 }.to_string(), "progress: [  1%]");
    assert_eq!(AptUpgradeEvent::Progress { percent: 0 }.to_string(), "progress: [  0%]");
    assert_eq!(AptUpgradeEvent::Progress { percent: 25 }.to_string(), "progress: [ 25%]");
    assert_eq!(AptUpgradeEvent::Progress { percent: 100 }.to_string(), "progress: [100%]");
    assert_eq!(AptUpgradeEvent::Progress { percent: 255 }.to_string(), "progress: [255%]");
    assert_eq!(AptUpgradeEvent::SettingUp { package: "vim".to_string() }.to_string(), "setting up vim");
    assert_eq!(
        AptUpgradeEvent::Unpacking { package: "vim".to_string(), version: "2".to_string(), over: "1".to_string() }
            .to_string(),
        "unpacking vim (2) over (1)"
    );
    assert_eq!(
        AptUpgradeEvent::WaitingOnLock.to_string(),
        "waiting on a process holding the apt lock files"
    );
}

#[test]
fn upgrade_event_into_dbus_map() {
    assert_eq!(
        AptUpgradeEvent::Processing { package: "man-db".to_string() }.into_dbus_map(),
        vec![("processing_package", "man-db".to_string())]
    );
    assert_eq!(
        AptUpgradeEvent::Progress { percent: 100 }.into_dbus_map(),
        vec![("percent", "100".to_string())]
    );
    assert_eq!(AptUpgradeEvent::Progress { percent: 0 }.into_dbus_map(), vec![("percent", "0".to_string())]);
    assert_eq!(
        AptUpgradeEvent::SettingUp { package: "vim".to_string() }.into_dbus_map(),
        vec![("setting_up", "vim".to_string())]
    );
    assert_eq!(
        AptUpgradeEvent::Unpacking { package: "vim".to_string(), version: "2".to_string(), over: "1".to_string() }
            .into_dbus_map(),
        vec![("unpacking", "vim".to_string()), ("version", "2".to_string()), ("over", "1".to_string())]
    );
    assert_eq!(AptUpgradeEvent::WaitingOnLock.into_dbus_map(), vec![("waiting", String::new())]);
}

#[test]
fn upgrade_event_from_dbus_map() {
    assert_eq!(Err(()), AptUpgradeEvent::from_dbus_map(&[]));
    assert_eq!(Ok(AptUpgradeEvent::WaitingOnLock), AptUpgradeEvent::from_dbus_map(&pairs(&[("waiting", "x")])));
    assert_eq!(
        Ok(AptUpgradeEvent::Processing { package: "man-db".to_string() }),
        AptUpgradeEvent::from_dbus_map(&pairs(&[("processing_package", "man-db"), ("other", "1")]))
    );
    assert_eq!(
        Ok(AptUpgradeEvent::Progress { percent: 42 }),
        AptUpgradeEvent::from_dbus_map(&pairs(&[("percent", "42")]))
    );
    assert_eq!(Err(()), AptUpgradeEvent::from_dbus_map(&pairs(&[("percent", "256")])));
    assert_eq!(Err(()), AptUpgradeEvent::from_dbus_map(&pairs(&[("percent", " 42")])));
    assert_eq!(
        Ok(AptUpgradeEvent::SettingUp { package: "vim".to_string() }),
        AptUpgradeEvent::from_dbus_map(&pairs(&[("setting_up", "vim")]))
    );
    let unpacking =
        AptUpgradeEvent::Unpacking { package: "vim".to_string(), version: "2".to_string(), over: "1".to_string() };
    assert_eq!(
        Ok(unpacking.clone()),
        AptUpgradeEvent::from_dbus_map(&pairs(&[("over", "1"), ("unpacking", "vim"), ("version", "2")]))
    );
    assert_eq!(
        Ok(unpacking),
        AptUpgradeEvent::from_dbus_map(&pairs(&[("version", "2"), ("over", "1"), ("unpacking", "vim"), ("x", "y")]))
    );
    assert_eq!(Err(()), AptUpgradeEvent::from_dbus_map(&pairs(&[("version", "2"), ("over", "1")])));
    assert_eq!(
        Err(()),
        AptUpgradeEvent::from_dbus_map(&pairs(&[("version", "2"), ("over", "1"), ("over", "3")]))
    );
    assert_eq!(
        Err(()),
        AptUpgradeEvent::from_dbus_map(&pairs(&[("version", "2"), ("over", "1"), ("package", "vim")]))
    );
    assert_eq!(Err(()), AptUpgradeEvent::from_dbus_map(&pairs(&[("unknown", "2")])));
}

#[test]
fn upgrade_event_survives_the_dbus_map() {
    let events = vec![
        AptUpgradeEvent::Processing { package: "man-db".to_string() },
        AptUpgradeEvent::Progress { percent: 0 },
        AptUpgradeEvent::Progress { percent: 99 },
        AptUpgradeEvent::Progress { percent: 255 },
        AptUpgradeEvent::SettingUp { package: "vim".to_string() },
        AptUpgradeEvent::Unpacking { package: "vim".to_string(), version: "2".to_string(), over: "1".to_string() },
    ];
    for event in events {
        let map: Vec<(String, String)> =
            event.clone().into_dbus_map().into_iter().map(|(key, value)| (key.to_string(), value)).collect();
        assert_eq!(Ok(event), AptUpgradeEvent::from_dbus_map(&map));
    }
    let waiting: Vec<(String, String)> = AptUpgradeEvent::WaitingOnLock
        .into_dbus_map()
        .into_iter()
        .map(|(key, value)| (key.to_string(), value))
        .collect();
    assert_eq!(Ok(AptUpgradeEvent::WaitingOnLock), AptUpgradeEvent::from_dbus_map(&waiting));
}

#[test]
fn upgrade_match_field() {
    let mut over = None;
    let mut version = None;
    let mut package = None;
    assert_eq!(Ok(()), apt_cmd::upgrade::match_field(&mut over, &mut version, &mut package, "over", "1".to_string()));
    assert_eq!(Ok(()), apt_cmd::upgrade::match_field(&mut over, &mut version, &mut package, "version", "2".to_string()));
    assert_eq!(Err(()), apt_cmd::upgrade::match_field(&mut over, &mut version, &mut package, "package", "x".to_string()));
    assert_eq!((over.clone(), version.clone(), package.clone()), (Some("1".to_string()), Some("2".to_string()), None));
    assert_eq!(Ok(()), apt_cmd::upgrade::match_field(&mut over, &mut version, &mut package, "unpacking", "vim".to_string()));
    assert_eq!(Ok(()), apt_cmd::upgrade::match_field(&mut over, &mut version, &mut package, "over", "3".to_string()));
    assert_eq!((over, version, package), (Some("3".to_string()), Some("2".to_string()), Some("vim".to_string())));
}
