use realworld_core::pagination::Pagination;

#[test]
fn default_state() {
    let p = Pagination::default();
    assert_eq!(p.get_tag(), "");
    assert!(!p.get_my_feed());
    assert!(!p.get_favourites());
    assert_eq!(p.get_page(), 0);
    assert_eq!(p.get_amount(), 10);
}

#[test]
fn serialize_default_is_canonical() {
    let p = Pagination::default();
    assert_eq!(
        p.serialize(),
        "/?tag=&my_feed=false&page=0&amount=10&favourites=false"
    );
}

#[test]
fn parse_empty_yields_default() {
    assert!(Pagination::parse("") == Pagination::default());
}

#[test]
fn parse_garbage_yields_default() {
    assert!(Pagination::parse("garbage=1") == Pagination::default());
}

#[test]
fn parse_scenario_query_string() {
    let p = Pagination::parse("/?tag=rust&my_feed=false&page=2&amount=20&favourites=false");
    assert_eq!(p.get_tag(), "rust");
    assert!(!p.get_my_feed());
    assert_eq!(p.get_page(), 2);
    assert_eq!(p.get_amount(), 20);
    assert!(!p.get_favourites());
}

#[test]
fn scenario_reserializes_byte_for_byte() {
    let raw = "/?tag=rust&my_feed=false&page=2&amount=20&favourites=false";
    assert_eq!(Pagination::parse(raw).serialize(), raw);
}

#[test]
fn roundtrip_of_mutated_state() {
    let s = Pagination::default()
        .set_tag("rust")
        .set_my_feed(true)
        .set_amount(20)
        .set_favourites(true)
        .next_page()
        .next_page();
    assert!(Pagination::parse(&s.serialize()) == s);
}

#[test]
fn filter_change_then_reset_clears_page() {
    let deep = Pagination::parse("page=7");
    assert_eq!(deep.get_page(), 7);
    assert_eq!(deep.clone().set_tag("x").reset_page().get_page(), 0);
    assert_eq!(deep.clone().set_my_feed(true).reset_page().get_page(), 0);
    assert_eq!(deep.clone().set_favourites(true).reset_page().get_page(), 0);
    assert_eq!(deep.clone().set_amount(50).reset_page().get_page(), 0);
}

#[test]
fn previous_page_saturates_at_zero() {
    let p = Pagination::default();
    assert_eq!(p.previous_page().get_page(), 0);
}

#[test]
fn next_page_increments() {
    let p = Pagination::parse("page=3");
    assert_eq!(p.next_page().get_page(), 4);
}

#[test]
fn setters_leave_other_fields_untouched() {
    let p = Pagination::parse("/?tag=go&my_feed=true&page=5&amount=25&favourites=true");
    let q = p.set_tag("rust");
    assert_eq!(q.get_tag(), "rust");
    assert!(q.get_my_feed());
    assert_eq!(q.get_page(), 5);
    assert_eq!(q.get_amount(), 25);
    assert!(q.get_favourites());
}

#[test]
fn parse_is_tolerant_of_malformed_values() {
    let p = Pagination::parse("/?tag=ok&my_feed=TRUE&page=abc&amount=-0&favourites=yes");
    assert_eq!(p.get_tag(), "ok");
    assert!(!p.get_my_feed());
    assert_eq!(p.get_page(), 0);
    // a page size of zero is not a valid state: the default applies
    assert_eq!(p.get_amount(), 10);
    assert!(!p.get_favourites());
}

#[test]
fn parse_ignores_unknown_keys_and_keeps_known() {
    let p = Pagination::parse("foo=1&page=2&bar=zzz");
    assert_eq!(p.get_page(), 2);
    assert_eq!(p.get_amount(), 10);
}

#[test]
fn parse_normalizes_out_of_domain_numbers() {
    // pages are never negative and the page size is always positive
    assert_eq!(Pagination::parse("page=-5").get_page(), 0);
    assert_eq!(Pagination::parse("amount=0").get_amount(), 10);
    assert_eq!(Pagination::parse("amount=-3").get_amount(), 10);
    assert_eq!(
        Pagination::parse("page=9223372036854775807").get_page(),
        i64::MAX
    );
    // one past i64::MAX does not parse and falls back to the default
    assert_eq!(Pagination::parse("page=9223372036854775808").get_page(), 0);
}

#[test]
fn parse_takes_last_occurrence_of_a_repeated_key() {
    let p = Pagination::parse("page=1&page=9");
    assert_eq!(p.get_page(), 9);
}

#[test]
fn page_amount_choice_falls_back_to_ten() {
    assert_eq!(realworld_core::pagination::page_amount_choice("20"), 20);
    assert_eq!(realworld_core::pagination::page_amount_choice(""), 10);
    assert_eq!(realworld_core::pagination::page_amount_choice("lots"), 10);
    assert_eq!(realworld_core::pagination::page_amount_choice("0"), 10);
    assert_eq!(realworld_core::pagination::page_amount_choice("-5"), 10);
}

#[test]
fn parse_keeps_equals_signs_inside_tag_values() {
    let p = Pagination::parse("/?tag=a=b&page=1");
    assert_eq!(p.get_tag(), "a=b");
    assert_eq!(p.get_page(), 1);
}
