use cgroup_sentinel::parse::parse_line;
use cgroup_sentinel::parse::parse_proc_list;

fn sorted_ids(content: &[u8]) -> Vec<i32> {
    parse_proc_list(&content.to_vec()).to_sorted_vec()
}

#[test]
fn parses_simple_list() {
    assert_eq!(sorted_ids(b"100\n101\n"), vec![100, 101]);
}

#[test]
fn parses_without_trailing_newline() {
    assert_eq!(sorted_ids(b"33"), vec![33]);
}

#[test]
fn result_is_ascending_with_duplicates_folded() {
    assert_eq!(sorted_ids(b"205\n100\n100\n7\n"), vec![7, 100, 205]);
}

#[test]
fn malformed_lines_are_dropped() {
    assert_eq!(sorted_ids(b"abc\n12x\n\n42\n 7\n"), vec![42]);
}

#[test]
fn signed_values_parse() {
    assert_eq!(sorted_ids(b"+7\n-5\n"), vec![-5, 7]);
}

#[test]
fn out_of_range_lines_are_dropped() {
    assert_eq!(sorted_ids(b"99999999999999999999\n2147483648\n"), Vec::<i32>::new());
}

#[test]
fn boundary_values_parse() {
    assert_eq!(sorted_ids(b"2147483647\n-2147483648\n"), vec![-2147483648, 2147483647]);
}

#[test]
fn empty_content_is_empty_set() {
    assert_eq!(sorted_ids(b""), Vec::<i32>::new());
}

#[test]
fn single_line_values() {
    assert_eq!(parse_line(&b"0".to_vec()), Some(0));
    assert_eq!(parse_line(&b"007".to_vec()), Some(7));
    assert_eq!(parse_line(&b"-0".to_vec()), Some(0));
    assert_eq!(parse_line(&b"+".to_vec()), None);
    assert_eq!(parse_line(&b"-".to_vec()), None);
    assert_eq!(parse_line(&b"".to_vec()), None);
    assert_eq!(parse_line(&b"1 2".to_vec()), None);
    assert_eq!(parse_line(&b"2147483648".to_vec()), None);
    assert_eq!(parse_line(&b"-2147483649".to_vec()), None);
}
