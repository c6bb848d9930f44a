use ryzenmon::topology::{first_seen_packages, parse_package_id, topology_count};

fn parse(text: &str) -> i64 {
    parse_package_id(&text.as_bytes().to_vec())
}

#[test]
fn topology_counts_readable_prefix() {
    // indices 0..n-1 readable and index n not: the count is n
    assert_eq!(topology_count(&vec![true, true, true, false, true]), 3);
    assert_eq!(topology_count(&vec![true, false]), 1);
}

#[test]
fn topology_zero_when_first_index_unreadable() {
    assert_eq!(topology_count(&vec![false, true, true]), 0);
    assert_eq!(topology_count(&Vec::new()), 0);
}

#[test]
fn topology_counts_all_when_everything_readable() {
    assert_eq!(topology_count(&vec![true; 64]), 64);
}

#[test]
fn parse_plain_identifier() {
    assert_eq!(parse("0"), 0);
    assert_eq!(parse("3"), 3);
    assert_eq!(parse("12"), 12);
}

#[test]
fn parse_trims_whitespace() {
    assert_eq!(parse(" 3\n"), 3);
    assert_eq!(parse("\t 10 \r\n"), 10);
}

#[test]
fn parse_accepts_signs() {
    assert_eq!(parse("+7"), 7);
    assert_eq!(parse("-5"), -5);
}

#[test]
fn parse_rejects_malformed_text() {
    assert_eq!(parse(""), -1);
    assert_eq!(parse("   \n"), -1);
    assert_eq!(parse("abc"), -1);
    assert_eq!(parse("1 2"), -1);
    assert_eq!(parse("12x"), -1);
    assert_eq!(parse("+"), -1);
    assert_eq!(parse("-"), -1);
}

#[test]
fn parse_holds_the_32_bit_range() {
    assert_eq!(parse("2147483647"), 2147483647);
    assert_eq!(parse("2147483648"), -1);
    assert_eq!(parse("-2147483648"), -2147483648);
    assert_eq!(parse("-2147483649"), -1);
    assert_eq!(parse("99999999999999999999"), -1);
}

#[test]
fn first_seen_keeps_the_earliest_core_per_package() {
    let m = first_seen_packages(&vec![0, 0, 1, 1, 0]);
    assert_eq!(m.len(), 16);
    assert_eq!(m[0], 0);
    assert_eq!(m[1], 2);
    assert_eq!(m[2], -1);
}

#[test]
fn first_seen_ignores_out_of_range_identifiers() {
    let m = first_seen_packages(&vec![-1, 99, 5, -1, 5]);
    assert_eq!(m[5], 2);
    for p in 0..16 {
        if p != 5 {
            assert_eq!(m[p], -1);
        }
    }
}
