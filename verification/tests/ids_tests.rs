use tapd_cli::ids::to_long_ids;

#[test]
fn short_id_becomes_long_on_cloud() {
    assert_eq!(to_long_ids("123", "52921131", true), "1152921131000000123");
}

#[test]
fn short_id_becomes_long_off_cloud() {
    assert_eq!(to_long_ids("123", "52921131", false), "1052921131000000123");
}

#[test]
fn long_id_is_kept() {
    assert_eq!(to_long_ids("1152921131000000123", "52921131", true), "1152921131000000123");
    assert_eq!(to_long_ids("1234567890", "1", true), "1234567890");
}

#[test]
fn nine_digits_is_still_short() {
    assert_eq!(to_long_ids("123456789", "7", true), "117123456789");
}

#[test]
fn comma_separated_ids_are_trimmed_and_converted() {
    assert_eq!(to_long_ids("1, 2 ,abc", "9", true), "119000000001,119000000002,abc");
}

#[test]
fn empty_pieces_become_zero_ids() {
    assert_eq!(to_long_ids("1,,2", "9", true), "119000000001,119000000000,119000000002");
    assert_eq!(to_long_ids("", "9", false), "109000000000");
}

#[test]
fn whitespace_is_trimmed_without_commas() {
    assert_eq!(to_long_ids("\t 42\u{3000}", "5", true), "115000000042");
    assert_eq!(to_long_ids(" a b ", "5", true), "a b");
}

#[test]
fn non_ascii_digits_are_not_short_ids() {
    assert_eq!(to_long_ids("１２", "5", true), "１２");
}

#[test]
fn normalising_twice_is_normalising_once() {
    for input in ["1", "1,2,abc", " 7 ,  ", "123456789", "x"] {
        let once = to_long_ids(input, "42", true);
        assert_eq!(to_long_ids(&once, "42", true), once);
    }
}
