use cgroup_sentinel::baseline::UnitReading;
use cgroup_sentinel::baseline::build_baselines;

fn reading(name: &str, content: Option<&[u8]>) -> UnitReading {
    UnitReading { unit_name: name.to_string(), content: content.map(|c| c.to_vec()) }
}

#[test]
fn unreadable_unit_is_excluded() {
    // a unit whose resource could not be read at startup gets no baseline
    let readings = vec![
        reading("docker-abc.scope", Some(b"100\n101\n")),
        reading("docker-gone.scope", None),
    ];
    let baselines = build_baselines(&readings);
    assert_eq!(baselines.len(), 1);
    assert_eq!(baselines[0].unit_name, "docker-abc.scope");
    assert_eq!(baselines[0].baseline.to_sorted_vec(), vec![100, 101]);
}

#[test]
fn empty_resource_gives_empty_baseline() {
    let baselines = build_baselines(&vec![reading("docker-a.scope", Some(b""))]);
    assert_eq!(baselines.len(), 1);
    assert_eq!(baselines[0].baseline.len(), 0);
}

#[test]
fn malformed_baseline_lines_are_dropped() {
    let baselines = build_baselines(&vec![reading("docker-a.scope", Some(b"12\nnope\n9\n"))]);
    assert_eq!(baselines[0].baseline.to_sorted_vec(), vec![9, 12]);
}

#[test]
fn order_of_readable_units_is_kept() {
    let readings = vec![
        reading("docker-b.scope", Some(b"2\n")),
        reading("docker-c.scope", None),
        reading("docker-a.scope", Some(b"1\n")),
    ];
    let baselines = build_baselines(&readings);
    let names: Vec<&str> = baselines.iter().map(|b| b.unit_name.as_str()).collect();
    assert_eq!(names, vec!["docker-b.scope", "docker-a.scope"]);
}
