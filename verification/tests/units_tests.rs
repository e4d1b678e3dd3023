use cgroup_sentinel::units::UnitEntry;
use cgroup_sentinel::units::filter_unit_names;
use cgroup_sentinel::units::is_monitored_name;
use cgroup_sentinel::units::unit_id_of;

#[test]
fn prefix_marks_monitored_units() {
    assert!(is_monitored_name("docker-abc.scope"));
    assert!(is_monitored_name("docker-"));
    assert!(!is_monitored_name("docker"));
    assert!(!is_monitored_name("user-1000.slice"));
    assert!(!is_monitored_name(""));
}

#[test]
fn unit_id_strips_prefix_and_suffix() {
    assert_eq!(unit_id_of("docker-abc.scope"), "abc");
    assert_eq!(unit_id_of("docker-abc"), "abc");
    assert_eq!(unit_id_of("foo.scope"), "foo");
    assert_eq!(unit_id_of("plain"), "plain");
    assert_eq!(unit_id_of("docker-.scope"), "");
}

fn entry(name: &str, is_dir: bool) -> UnitEntry {
    UnitEntry { name: name.to_string(), is_dir }
}

#[test]
fn only_matching_directories_are_kept() {
    let entries = vec![
        entry("docker-a.scope", true),
        entry("docker-b.scope", false),
        entry("user-1000.slice", true),
        entry("docker-c.scope", true),
    ];
    let names = filter_unit_names(&entries);
    assert_eq!(names, vec!["docker-a.scope".to_string(), "docker-c.scope".to_string()]);
}

#[test]
fn no_matches_is_not_an_error() {
    let entries = vec![entry("init.scope", true), entry("system.slice", true)];
    assert_eq!(filter_unit_names(&entries), Vec::<String>::new());
}
