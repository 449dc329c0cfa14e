use first_rank::text::eq_ignoring_case;

#[test]
fn channel_filter_ignores_case() {
    assert!(eq_ignoring_case("Foo", "foo"));
    assert!(eq_ignoring_case("foo", "Foo"));
    assert!(eq_ignoring_case("#RaceChat", "#racechat"));
    assert!(eq_ignoring_case("", ""));
}

#[test]
fn different_channels_do_not_match() {
    assert!(!eq_ignoring_case("Foo", "bar"));
    assert!(!eq_ignoring_case("foo", "foo "));
    assert!(!eq_ignoring_case("foo", ""));
}

#[test]
fn case_folding_is_unicodes() {
    assert!(eq_ignoring_case("ÉCURIE", "écurie"));
    assert!(!eq_ignoring_case("ecurie", "écurie"));
}
