#[test]
fn parse_security_update() {
    assert_eq!(
        Some("libcaca0:i386"),
        apt_cmd::apt::parse_security_update("Inst libcaca0:i386 [0.99.beta19-2.2ubuntu2] (0.99.beta19-2.2ubuntu2.1 Ubuntu:21.10/impish-security, Ubuntu:21.10/impish-updates [amd64])")
    );

    assert_eq!(
        None,
        apt_cmd::apt::parse_security_update("Conf libcaca0:i386 [0.99.beta19-2.2ubuntu2] (0.99.beta19-2.2ubuntu2.1 Ubuntu:21.10/impish-security, Ubuntu:21.10/impish-updates [amd64])")
    );
}

#[test]
fn security_update_needs_the_security_pocket() {
    assert_eq!(None, apt_cmd::apt::parse_security_update("Inst vim [1.0] (1.1 Ubuntu:21.10/impish-updates [amd64])"));
    assert_eq!(None, apt_cmd::apt::parse_security_update("Inst-security"));
    assert_eq!(Some("b-security"), apt_cmd::apt::parse_security_update("Inst\tb-security"));
}

use apt_cmd::apt_cache::{Policy, VersionSources};

fn entry(version: &str, sources: &[&str]) -> VersionSources {
    VersionSources { version: version.to_string(), sources: sources.iter().map(|s| s.to_string()).collect() }
}

fn policy(package: &str, table: Vec<VersionSources>) -> Policy {
    Policy { package: package.to_string(), installed: String::new(), candidate: String::new(), version_table: table }
}

const STATUS: &str = "100 /var/lib/dpkg/status";
const ARCHIVE: &str = "500 http://archive.ubuntu.com/ubuntu impish/main amd64 Packages";

#[test]
fn orphaned_version_has_the_status_file_as_only_source() {
    assert!(apt_cmd::apt::is_orphaned_version(&[STATUS.to_string()]));
    assert!(!apt_cmd::apt::is_orphaned_version(&[ARCHIVE.to_string()]));
    assert!(!apt_cmd::apt::is_orphaned_version(&[STATUS.to_string(), ARCHIVE.to_string()]));
    assert!(!apt_cmd::apt::is_orphaned_version(&[]));
    assert!(!apt_cmd::apt::is_orphaned_version(&["/var/lib/dpkg/statu".to_string()]));
}

#[test]
fn orphaned_and_repository_versions() {
    let table = vec![
        entry("1.1 500", &[ARCHIVE]),
        entry("1.0 100", &[STATUS]),
        entry("0.9 500", &[ARCHIVE, STATUS]),
        entry("0.8 100", &[STATUS]),
    ];
    assert_eq!(apt_cmd::apt::orphaned_version(&table), Some("1.0 100"));
    assert_eq!(apt_cmd::apt::repository_versions(&table), vec!["1.1 500", "0.9 500"]);
    assert_eq!(apt_cmd::apt::orphaned_version(&table[..1]), None);
    assert_eq!(apt_cmd::apt::repository_versions(&table[1..2]), Vec::<&str>::new());
    assert_eq!(apt_cmd::apt::orphaned_version(&[]), None);
}

#[test]
fn greatest_repository_version_by_debian_order() {
    let table = vec![
        entry("1.0~rc1", &[ARCHIVE]),
        entry("2:0.1", &[STATUS]),
        entry("1.0", &[ARCHIVE]),
        entry("1.0-1", &[ARCHIVE]),
        entry("0.99", &[ARCHIVE]),
    ];
    assert!(apt_cmd::apt::has_ascii_versions(&table));
    assert_eq!(apt_cmd::apt::greatest_repository_version(&table), Some("1.0-1"));
    assert_eq!(apt_cmd::apt::greatest_repository_version(&table[..2]), Some("1.0~rc1"));
    assert_eq!(apt_cmd::apt::greatest_repository_version(&table[1..2]), None);
    assert!(!apt_cmd::apt::has_ascii_versions(&[entry("1.\u{e9}", &[ARCHIVE])]));
}

#[test]
fn downgradable_packages_are_newer_than_their_repository() {
    let policies = vec![
        policy("newer", vec![entry("2.0", &[STATUS]), entry("1.0", &[ARCHIVE]), entry("1.5", &[ARCHIVE])]),
        policy("same", vec![entry("1.0", &[ARCHIVE, STATUS])]),
        policy("older", vec![entry("1.0", &[STATUS]), entry("1.5", &[ARCHIVE])]),
        policy("local", vec![entry("1.0", &[STATUS])]),
        policy("epoch", vec![entry("1:0.1", &[STATUS]), entry("9.9", &[ARCHIVE])]),
    ];
    assert_eq!(
        apt_cmd::apt::downgradable_packages(&policies),
        vec![("newer".to_string(), "1.5".to_string()), ("epoch".to_string(), "9.9".to_string())]
    );
    assert_eq!(apt_cmd::apt::downgrade_target(&policies[0]), Some("1.5"));
    assert_eq!(apt_cmd::apt::downgrade_target(&policies[2]), None);
}

#[test]
fn remoteless_packages_have_no_repository() {
    let policies = vec![
        policy("remote", vec![entry("2.0", &[STATUS]), entry("1.0", &[ARCHIVE])]),
        policy("local", vec![entry("1.0", &[STATUS])]),
        policy("unknown", vec![]),
        policy("both", vec![entry("1.0", &[ARCHIVE, STATUS])]),
    ];
    assert_eq!(
        apt_cmd::apt::remoteless_packages(&policies),
        vec!["local".to_string(), "unknown".to_string()]
    );
    assert!(apt_cmd::apt::has_no_repository(&policies[1]));
    assert!(!apt_cmd::apt::has_no_repository(&policies[0]));
}

#[test]
fn upgradable_package_is_what_stands_before_the_slash() {
    assert_eq!(apt_cmd::apt::upgradable_package("vim/impish-updates 2:8.2 amd64 [upgradable from: 2:8.1]"), "vim");
    assert_eq!(apt_cmd::apt::upgradable_package("no slash here"), "no slash here");
    assert_eq!(apt_cmd::apt::upgradable_package("/leading"), "");
    assert_eq!(apt_cmd::apt::upgradable_package(""), "");
}

#[test]
fn version_order_decides_what_is_kept() {
    assert_eq!(apt_cmd::apt::greater_of(3, 7, -1), 7);
    assert_eq!(apt_cmd::apt::greater_of(3, 7, 0), 3);
    assert_eq!(apt_cmd::apt::greater_of(3, 7, 1), 3);
    assert!(apt_cmd::apt::is_downgrade(1));
    assert!(!apt_cmd::apt::is_downgrade(0));
    assert!(!apt_cmd::apt::is_downgrade(-1));
}

#[test]
fn downgradable_packages_need_ascii_versions() {
    let good = vec![policy("newer", vec![entry("2.0", &[STATUS]), entry("1.0", &[ARCHIVE])])];
    assert_eq!(
        apt_cmd::apt::try_downgradable_packages(&good),
        Some(vec![("newer".to_string(), "1.0".to_string())])
    );
    let bad = vec![good[0].clone(), policy("odd", vec![entry("1.\u{e9}", &[ARCHIVE])])];
    assert_eq!(apt_cmd::apt::try_downgradable_packages(&bad), None);
    assert_eq!(apt_cmd::apt::try_downgradable_packages(&[]), Some(Vec::new()));
}
