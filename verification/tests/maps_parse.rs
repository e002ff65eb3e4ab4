use bbcov::maps::parse_base_addr;

fn parse(s: &str) -> Option<u64> {
    parse_base_addr(&s.as_bytes().to_vec())
}

#[test]
fn first_mapping_start_is_the_load_base() {
    let maps = "7f0000000000-7f0000001000 r-xp 00000000 08:01 131 /usr/bin/target\n\
                7f0000001000-7f0000002000 rw-p 00001000 08:01 131 /usr/bin/target\n";
    assert_eq!(parse(maps), Some(0x7f00_0000_0000));
}

#[test]
fn short_address_parses() {
    assert_eq!(parse("400000-401000 r-xp\n"), Some(0x40_0000));
}

#[test]
fn upper_case_digits_parse() {
    assert_eq!(parse("7F2A-7f3a rest\n"), Some(0x7F2A));
}

#[test]
fn empty_input_is_rejected() {
    assert_eq!(parse(""), None);
}

#[test]
fn empty_field_is_rejected() {
    assert_eq!(parse("-7f0000001000 r-xp\n"), None);
}

#[test]
fn non_hex_field_is_rejected() {
    assert_eq!(parse("zf000-zf100\n"), None);
    assert_eq!(parse("no dash here\n"), None);
}

#[test]
fn largest_address_parses() {
    assert_eq!(parse("ffffffffffffffff-0\n"), Some(u64::MAX));
}

#[test]
fn overflowing_field_is_rejected() {
    assert_eq!(parse("10000000000000000-0\n"), None);
}

#[test]
fn field_may_end_at_end_of_line() {
    assert_eq!(parse("1234\n5678-"), Some(0x1234));
}

#[test]
fn field_may_end_at_end_of_input() {
    assert_eq!(parse("abc"), Some(0xabc));
}
