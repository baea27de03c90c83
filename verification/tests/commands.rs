use apt_cmd::apt_get::{read_uris, AptGet, BadPPA};
use apt_cmd::apt_mark::{scrape_package, AptMark};
use apt_cmd::dpkg::{parse_installed, Dpkg, DpkgQuery};
use apt_cmd::request::RequestError;

fn strings(list: &[&str]) -> Vec<String> {
    list.iter().map(|s| s.to_string()).collect()
}

#[test]
fn apt_get_command_lines() {
    let base = AptGet::new();
    assert_eq!(base.command.program, "apt-get");
    assert!(base.command.args.is_empty());
    assert_eq!(base.command.envs, vec![("LANG".to_string(), "C".to_string())]);
    let upgrade = AptGet::new().noninteractive().allow_downgrades().force().force_confdef().force_confold().upgrade();
    assert_eq!(
        upgrade.command.args,
        vec![
            "--allow-downgrades",
            "-y",
            "-o",
            "Dpkg::Options::=--force-confdef",
            "-o",
            "Dpkg::Options::=--force-confold",
            "full-upgrade"
        ]
    );
    assert_eq!(
        upgrade.command.envs,
        vec![("LANG".to_string(), "C".to_string()), ("DEBIAN_FRONTEND".to_string(), "noninteractive".to_string())]
    );
    assert_eq!(AptGet::new().install(&strings(&["vim", "emacs"])).command.args, vec!["install", "vim", "emacs"]);
    assert_eq!(AptGet::new().remove(&strings(&["vim"])).command.args, vec!["remove", "vim"]);
    assert_eq!(AptGet::new().fetch_uris(&strings(&["full-upgrade"])).command.args, vec!["--print-uris", "full-upgrade"]);
    assert_eq!(AptGet::new().stream_upgrade().command.args, vec!["--show-progress", "full-upgrade"]);
    assert_eq!(AptGet::new().simulate().update().command.args, vec!["-s", "update"]);
    assert_eq!(AptGet::new().stream_update().command.args, vec!["update"]);
    assert_eq!(AptGet::new().fix_broken().command.args, vec!["install", "-f"]);
    assert_eq!(AptGet::new().autoremove().mark_auto().command.args, vec!["autoremove", "--mark-auto"]);
    assert_eq!(AptGet::new().dpkg_option("--x").command.args, vec!["-o", "Dpkg::Options::=--x"]);
}

#[test]
fn apt_get_force_options() {
    let forced = AptGet::new()
        .force_breaks()
        .force_conflicts()
        .force_depends()
        .force_depends_version()
        .force_overwrite();
    assert_eq!(
        forced.command.args,
        vec![
            "-o",
            "Dpkg::Options::=--force-breaks",
            "-o",
            "Dpkg::Options::=--force-conflicts",
            "-o",
            "Dpkg::Options::=--force-depends",
            "-o",
            "Dpkg::Options::=--force-depends-version",
            "-o",
            "Dpkg::Options::=--force-overwrite"
        ]
    );
}

#[test]
fn bad_ppa_of_an_error_line() {
    let ppa = BadPPA::parse("Err:5 http://ppa.launchpad.net/x/ubuntu impish Release").unwrap();
    assert_eq!(ppa.url, "http://ppa.launchpad.net/x/ubuntu");
    assert_eq!(ppa.pocket, "impish");
    assert!(BadPPA::parse("Hit:5 http://ppa.launchpad.net/x/ubuntu impish Release").is_none());
    assert!(BadPPA::parse("Err:5 http://ppa.launchpad.net/x/ubuntu").is_none());
    assert!(BadPPA::parse("Err").is_none());
    assert!(BadPPA::parse(" Err:5 a b").is_none());
}

#[test]
fn uris_of_the_quoted_lines() {
    let output = strings(&[
        "Reading package lists...",
        "'http://x/a.deb' a.deb 10 SHA256:aa",
        "",
        "'http://x/b.deb' b.deb 20 MD5Sum:bb",
        "'http://x/a.deb' again.deb 30 SHA1:cc",
        " 'http://x/c.deb' c.deb 20 MD5Sum:bb",
    ]);
    let requests = read_uris(&output).unwrap();
    assert_eq!(requests.len(), 2);
    assert_eq!(requests[0].uri, "http://x/a.deb");
    assert_eq!(requests[0].name, "a.deb");
    assert_eq!(requests[0].size, 10);
    assert_eq!(requests[1].uri, "http://x/b.deb");
    assert!(read_uris(&[]).unwrap().is_empty());
}

#[test]
fn uris_stop_at_the_first_bad_line() {
    let output = strings(&[
        "'http://x/a.deb' a.deb 10 SHA256:aa",
        "'http://x/b.deb' b.deb",
        "'http://x/c.deb' c.deb x SHA256:aa",
    ]);
    assert!(matches!(
        read_uris(&output),
        Err(RequestError::SizeNotFound(line)) if line == "'http://x/b.deb' b.deb"
    ));
}

#[test]
fn apt_mark_command_lines() {
    assert_eq!(AptMark::new().hold(&strings(&["vim"])).command.args, vec!["hold", "vim"]);
    assert_eq!(AptMark::new().unhold(&strings(&["vim", "emacs"])).command.args, vec!["unhold", "vim", "emacs"]);
    assert_eq!(AptMark::held().command.args, vec!["showhold"]);
    assert_eq!(AptMark::auto_installed().command.args, vec!["showauto"]);
    assert_eq!(AptMark::manually_installed().command.args, vec!["showmanual"]);
    assert_eq!(AptMark::held().command.program, "apt-mark");
    assert_eq!(AptMark::held().command.envs, vec![("LANG".to_string(), "C".to_string())]);
}

#[test]
fn apt_mark_installed_joins_both_lists() {
    assert_eq!(AptMark::installed(strings(&["a", "b"]), &strings(&["c"])), vec!["a", "b", "c"]);
    assert_eq!(AptMark::installed(Vec::new(), &[]), Vec::<String>::new());
}

#[test]
fn apt_mark_line_without_its_end() {
    assert_eq!(scrape_package("vim\n"), "vim");
    assert_eq!(scrape_package("vim \r\n"), "vim");
    assert_eq!(scrape_package("  vim"), "  vim");
    assert_eq!(scrape_package("\n"), "");
    assert_eq!(scrape_package(""), "");
}

#[test]
fn dpkg_command_lines() {
    let dpkg = Dpkg::new().force_confdef().force_confold().configure_all();
    assert_eq!(dpkg.command.program, "dpkg");
    assert_eq!(dpkg.command.args, vec!["--force-confdef", "--force-confold", "--configure", "-a"]);
    let query = DpkgQuery::new().show_installed(&strings(&["vim"]));
    assert_eq!(query.command.program, "dpkg-query");
    assert_eq!(query.command.args, vec!["--show", "--showformat=${Package} ${db:Status-Status}\n", "vim"]);
}

#[test]
fn dpkg_query_installed_lines() {
    assert_eq!(parse_installed("vim installed"), Some("vim"));
    assert_eq!(parse_installed("vim installed more"), Some("vim"));
    assert_eq!(parse_installed("vim not-installed"), None);
    assert_eq!(parse_installed("vim config-files"), None);
    assert_eq!(parse_installed("vim  installed"), None);
    assert_eq!(parse_installed("vim"), None);
    assert_eq!(parse_installed(" installed"), Some(""));
    assert_eq!(parse_installed(""), None);
}
