use apt_cmd::apt_cache::{policies, stream_packages, AptCache, PolicyParser, PreDependsIter};

fn lines(text: &str) -> Vec<String> {
    text.lines().map(|line| line.to_string()).collect()
}

const POLICY: &str = "firefox:
  Installed: 95.0+build1
  Candidate: 96.0+build2
  Version table:
     96.0+build2 500
        500 http://archive.ubuntu.com/ubuntu impish-updates/main amd64 Packages
        500 http://security.ubuntu.com/ubuntu impish-security/main amd64 Packages
 *** 95.0+build1 100
        100 /var/lib/dpkg/status
     93.0+build1 500
        500 http://archive.ubuntu.com/ubuntu impish/main amd64 Packages
gnome-shell:
  Installed: (none)
  Candidate: 40.5
  Version table:
     40.5 500
        500 http://archive.ubuntu.com/ubuntu impish/main amd64 Packages";

#[test]
fn policies_of_two_packages() {
    let found = policies(&lines(POLICY));
    assert_eq!(found.len(), 2);
    assert_eq!(found[0].package, "firefox");
    assert_eq!(found[0].installed, "95.0+build1");
    assert_eq!(found[0].candidate, "96.0+build2");
    assert_eq!(found[0].version_table.len(), 3);
    assert_eq!(found[0].version_table[0].version, "96.0+build2 500");
    assert_eq!(
        found[0].version_table[0].sources,
        vec![
            "500 http://archive.ubuntu.com/ubuntu impish-updates/main amd64 Packages",
            "500 http://security.ubuntu.com/ubuntu impish-security/main amd64 Packages"
        ]
    );
    assert_eq!(found[0].version_table[1].version, "95.0+build1 100");
    assert_eq!(found[0].version_table[1].sources, vec!["100 /var/lib/dpkg/status"]);
    assert_eq!(found[0].version_table[2].version, "93.0+build1 500");
    assert_eq!(found[1].package, "gnome-shell");
    assert_eq!(found[1].installed, "(none)");
    assert_eq!(found[1].candidate, "40.5");
    assert_eq!(found[1].version_table.len(), 1);
    assert_eq!(found[1].version_table[0].version, "40.5 500");
}

#[test]
fn policies_of_no_output() {
    let found = policies(&[]);
    assert_eq!(found.len(), 1);
    assert_eq!(found[0].package, "");
    assert_eq!(found[0].installed, "");
    assert!(found[0].version_table.is_empty());
}

#[test]
fn policy_sources_of_one_version_are_gathered() {
    let found = policies(&lines(
        "a:\n  Version table:\n     1.0 500\n        one\n     2.0 500\n        two\n     1.0 500\n        three\n        four",
    ));
    assert_eq!(found.len(), 1);
    assert_eq!(found[0].version_table.len(), 2);
    assert_eq!(found[0].version_table[0].version, "1.0 500");
    assert_eq!(found[0].version_table[0].sources, vec!["one", "three", "four"]);
    assert_eq!(found[0].version_table[1].version, "2.0 500");
    assert_eq!(found[0].version_table[1].sources, vec!["two"]);
}

#[test]
fn policy_source_before_a_version_is_unknown() {
    let found = policies(&lines("a:\n  Version table:\n        orphan source"));
    assert_eq!(found[0].version_table[0].version, "unknown");
    assert_eq!(found[0].version_table[0].sources, vec!["orphan source"]);
}

#[test]
fn policy_parser_line_by_line() {
    let mut parser = PolicyParser::new();
    assert!(parser.feed("").is_none());
    assert!(parser.feed("vim:").is_none());
    assert_eq!(parser.policy.package, "vim");
    assert!(parser.feed("  Installed: 8.2").is_none());
    assert!(parser.feed("  Installed:").is_none());
    assert_eq!(parser.policy.installed, "8.2");
    assert!(parser.feed("  Candidate: 8.3 extra").is_none());
    assert_eq!(parser.policy.candidate, "8.3");
    assert!(parser.feed("  Other: 1").is_none());
    assert!(!parser.in_table);
    assert!(parser.feed("  Version table:").is_none());
    assert!(parser.in_table);
    assert_eq!(parser.current_version, "unknown");
    assert!(parser.feed(" *** 8.2 100").is_none());
    assert_eq!(parser.current_version, "8.2 100");
    assert!(parser.feed("        100 /var/lib/dpkg/status  ").is_none());
    let done = parser.feed("emacs").unwrap();
    assert_eq!(done.package, "vim");
    assert_eq!(done.version_table.len(), 1);
    assert!(!parser.in_table);
    assert_eq!(parser.policy.package, "emacs");
    assert_eq!(parser.policy.installed, "8.2");
    assert!(parser.policy.version_table.is_empty());
    let last = parser.finish();
    assert_eq!(last.package, "emacs");
}

const DEPENDS: &str = "libfoo
  Depends: libc6
  PreDepends: dpkg
libbar
  PreDepends: dpkg-dev
  Depends: dpkg
libbaz
 |PreDepends: dpkg
  PreDepends: dpkg
  PreDepends: dpkg
libqux
  PreDepends: dpkg
";

#[test]
fn predepends_iter_reports_when_the_next_package_starts() {
    let mut iter = PreDependsIter::new(DEPENDS, "dpkg").unwrap();
    assert_eq!(iter.next(), Some("libfoo".to_string()));
    assert_eq!(iter.next(), Some("libbaz".to_string()));
    assert_eq!(iter.next(), None);
    assert_eq!(iter.next(), None);
}

#[test]
fn predepends_of_collects_them() {
    assert_eq!(AptCache::predepends_of(DEPENDS, "dpkg").unwrap(), vec!["libfoo", "libbaz"]);
    assert_eq!(AptCache::predepends_of(DEPENDS, "dpkg-dev").unwrap(), vec!["libbar"]);
    assert_eq!(AptCache::predepends_of(DEPENDS, "libc6").unwrap(), Vec::<String>::new());
    assert_eq!(AptCache::predepends_of(" a \r\n  PreDepends: x\r\nb\n", "x").unwrap(), vec!["a"]);
    assert_eq!(AptCache::predepends_of("a\n  PreDepends: x\r", "x").unwrap(), Vec::<String>::new());
}

#[test]
fn predepends_needs_a_first_line() {
    let error = PreDependsIter::new("", "dpkg").err().unwrap();
    assert_eq!(error.kind(), std::io::ErrorKind::NotFound);
    assert!(AptCache::predepends_of("", "dpkg").is_err());
    assert!(PreDependsIter::new("\n", "dpkg").is_ok());
}

#[test]
fn rdepends_output_without_its_heading() {
    assert_eq!(
        stream_packages(&lines("dpkg\nReverse Depends:\n  libfoo\n |libbar\n\tlibbaz \n")),
        vec!["libfoo", "|libbar", "libbaz "]
    );
    assert_eq!(stream_packages(&lines("dpkg\nReverse Depends:")), Vec::<String>::new());
    assert_eq!(stream_packages(&lines("dpkg")), Vec::<String>::new());
    assert_eq!(stream_packages(&[]), Vec::<String>::new());
}

#[test]
fn apt_cache_command_lines() {
    let packages = vec!["vim".to_string(), "emacs".to_string()];
    let depends = AptCache::new().depends(&packages);
    assert_eq!(depends.command.program, "apt-cache");
    assert_eq!(depends.command.args, vec!["depends", "vim", "emacs"]);
    assert_eq!(depends.command.envs, vec![("LANG".to_string(), "C".to_string())]);
    assert_eq!(AptCache::new().rdepends(&packages[..1]).command.args, vec!["rdepends", "vim"]);
    let policy = AptCache::new().policy(&packages);
    assert_eq!(policy.command.args, vec!["policy", "vim", "emacs"]);
    assert_eq!(
        policy.command.envs,
        vec![("LANG".to_string(), "C".to_string()), ("LANG".to_string(), "C".to_string())]
    );
}
