use tinyvox::cli::parse_id;
use tinyvox::dictionary::EntryId;

#[test]
fn identifiers_parse_like_u64() {
    assert_eq!(parse_id("42"), Ok(EntryId(42)));
    assert_eq!(parse_id("+7"), Ok(EntryId(7)));
    assert_eq!(parse_id("007"), Ok(EntryId(7)));
    assert_eq!(parse_id("18446744073709551615"), Ok(EntryId(u64::MAX)));
}

#[test]
fn bad_identifiers_are_reported() {
    for value in ["", "+", "-1", "12a", " 1", "18446744073709551616", "99999999999999999999999"] {
        assert_eq!(parse_id(value), Err(format!("invalid entry id: {value}")));
        assert_eq!(parse_id(value).is_ok(), value.parse::<u64>().is_ok());
    }
}
