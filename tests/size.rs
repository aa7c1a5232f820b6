use constellation::parse_binary_size;

#[test]
fn plain_number() {
    assert_eq!(parse_binary_size("123"), Ok(123));
    assert_eq!(parse_binary_size("0"), Ok(0));
}

#[test]
fn binary_units() {
    assert_eq!(parse_binary_size("4KiB"), Ok(4096));
    assert_eq!(parse_binary_size("1MiB"), Ok(1048576));
    assert_eq!(parse_binary_size("20MiB"), Ok(20 * 1024 * 1024));
    assert_eq!(parse_binary_size("7GiB"), Ok(7 * 1024 * 1024 * 1024));
    assert_eq!(parse_binary_size("2TiB"), Ok(2 * 1024u64.pow(4)));
    assert_eq!(parse_binary_size("3PiB"), Ok(3 * 1024u64.pow(5)));
    assert_eq!(parse_binary_size("15EiB"), Ok(15 * 1024u64.pow(6)));
    assert_eq!(parse_binary_size("9B"), Ok(9));
}

#[test]
fn fraction_with_unit_is_rejected() {
    assert_eq!(parse_binary_size("1.5KiB"), Err(()));
    assert_eq!(parse_binary_size("0.25GiB"), Err(()));
}

#[test]
fn any_fraction_with_unit_is_rejected() {
    assert_eq!(parse_binary_size("1.0KiB"), Err(()));
    assert_eq!(parse_binary_size("2.KiB"), Err(()));
    assert_eq!(parse_binary_size("2.00B"), Err(()));
}

#[test]
fn fraction_without_unit_is_ignored() {
    assert_eq!(parse_binary_size("1.5"), Ok(1));
    assert_eq!(parse_binary_size("7."), Ok(7));
}

#[test]
fn unknown_unit_is_rejected() {
    assert_eq!(parse_binary_size("3XB"), Err(()));
    assert_eq!(parse_binary_size("3kib"), Err(()));
    assert_eq!(parse_binary_size("3 KiB"), Err(()));
    assert_eq!(parse_binary_size("3KiBs"), Err(()));
}

#[test]
fn missing_number_is_rejected() {
    assert_eq!(parse_binary_size(""), Err(()));
    assert_eq!(parse_binary_size("KiB"), Err(()));
    assert_eq!(parse_binary_size(".5"), Err(()));
}

#[test]
fn largest_size() {
    assert_eq!(parse_binary_size("18446744073709551615"), Ok(u64::MAX));
    assert_eq!(parse_binary_size("18446744073709551616"), Err(()));
    assert_eq!(parse_binary_size("16EiB"), Err(()));
    assert_eq!(parse_binary_size("99999999999999999999999KiB"), Err(()));
}
