use api_categories::{
    decode_cursor, decode_record, encode_cursor, encode_input, is_blank, paginate,
    parse_category_id, reference_of, CacheKey, Category, CategoryChanged, CategoryMutation,
    CategorySubscription, CoreError, MutationType, Page, Params, Payload, RecordId, StoreRecord,
    ValidationError, MAX_PAGE_SIZE,
};

fn uuid_text(v: u128) -> String {
    reference_of(v).key
}

const SAMPLE: u128 = 0xa1a2a3a4b1b2c1c2d1d2d3d4d5d6d7d8;
const SAMPLE_TEXT: &str = "a1a2a3a4-b1b2-c1c2-d1d2-d3d4d5d6d7d8";

fn record_id(key: &str) -> RecordId {
    RecordId { table: "category".to_string(), key: key.to_string() }
}

fn record(key: &str, subs: Vec<&str>, parent: Option<&str>) -> StoreRecord {
    StoreRecord {
        id: record_id(key),
        name: "Something".to_string(),
        sub_categories: subs.into_iter().map(record_id).collect(),
        image_url: None,
        parent_id: parent.map(record_id),
    }
}

fn numbers(n: u32) -> Vec<u32> {
    (0..n).collect()
}

fn params(after: Option<&str>, before: Option<&str>, first: Option<i32>, last: Option<i32>) -> Params {
    Params::new(after.map(String::from), before.map(String::from), first, last)
}

fn cursors(page: &Page<u32>) -> Vec<&str> {
    page.cursors.iter().map(|c| c.as_str()).collect()
}

#[test]
fn uuid_text_is_lowercase_hyphenated() {
    assert_eq!(uuid_text(SAMPLE), SAMPLE_TEXT);
    assert_eq!(uuid_text(0), "00000000-0000-0000-0000-000000000000");
}

#[test]
fn uuid_text_parses_back() {
    for v in [0u128, 1, SAMPLE, u128::MAX, 0x0190_1234_5678_7abc_8def_0123_4567_89ab] {
        assert_eq!(parse_category_id(&uuid_text(v)), Ok(v));
    }
}

#[test]
fn every_uuid_form_is_accepted() {
    assert_eq!(parse_category_id("a1a2a3a4b1b2c1c2d1d2d3d4d5d6d7d8"), Ok(SAMPLE));
    assert_eq!(parse_category_id("A1A2A3A4-B1B2-C1C2-D1D2-D3D4D5D6D7D8"), Ok(SAMPLE));
    assert_eq!(parse_category_id("{a1a2a3a4-b1b2-c1c2-d1d2-d3d4d5d6d7d8}"), Ok(SAMPLE));
    assert_eq!(parse_category_id("urn:uuid:a1a2a3a4-b1b2-c1c2-d1d2-d3d4d5d6d7d8"), Ok(SAMPLE));
}

#[test]
fn blank_identifiers_are_rejected() {
    let empty = Err(CoreError::Validation(ValidationError::EmptyIdentifier));
    assert_eq!(parse_category_id(""), empty);
    assert_eq!(parse_category_id("  "), empty);
    assert_eq!(parse_category_id("\t\n\u{3000}"), empty);
    assert!(is_blank(" \r\n"));
    assert!(!is_blank(" x "));
}

#[test]
fn malformed_identifiers_are_rejected() {
    let invalid = Err(CoreError::Validation(ValidationError::InvalidIdentifier));
    assert_eq!(parse_category_id("justanid"), invalid);
    assert_eq!(parse_category_id("a1a2a3a4-b1b2-c1c2-d1d2-d3d4d5d6d7dz"), invalid);
    assert_eq!(parse_category_id("a1a2a3a4_b1b2-c1c2-d1d2-d3d4d5d6d7d8"), invalid);
    assert_eq!(parse_category_id(" a1a2a3a4-b1b2-c1c2-d1d2-d3d4d5d6d7d8"), invalid);
}

#[test]
fn cache_key_texts() {
    assert_eq!(CacheKey::AllCategories.to_key_string(), "categories:all");
    assert_eq!(CacheKey::SubCategories { parent: None }.to_key_string(), "categories:parent=");
    assert_eq!(
        CacheKey::SubCategories { parent: Some(SAMPLE) }.to_key_string(),
        format!("categories:parent={SAMPLE_TEXT}")
    );
    assert_eq!(CacheKey::Category { id: SAMPLE }.to_key_string(), format!("categories:id={SAMPLE_TEXT}"));
}

#[test]
fn decode_strips_escapes_and_table() {
    let escaped = format!("\u{27E8}{SAMPLE_TEXT}\u{27E9}");
    let child = format!("{}:category", uuid_text(7));
    let rec = record(&escaped, vec![&child], Some(&uuid_text(9)));
    let c = decode_record(&rec).expect("decodes");
    assert_eq!(c.id, SAMPLE);
    assert_eq!(c.name, "Something");
    assert_eq!(c.sub_categories, vec![7]);
    assert_eq!(c.parent_id, Some(9));
    assert_eq!(c.image_url, None);
}

#[test]
fn decode_reports_first_malformed_key() {
    let good = uuid_text(1);
    let rec = record(&good, vec![&good, "first-bad", "second-bad"], Some("third-bad"));
    assert_eq!(decode_record(&rec), Err(CoreError::MalformedId("first-bad".to_string())));
    let rec = record("\u{27E8}justanid\u{27E9}", vec![], None);
    assert_eq!(decode_record(&rec), Err(CoreError::MalformedId("justanid".to_string())));
    let rec = record(&good, vec![], Some("nope"));
    assert_eq!(decode_record(&rec), Err(CoreError::MalformedId("nope".to_string())));
}

#[test]
fn encode_uses_store_addresses() {
    let c = Category {
        id: 0,
        name: "Shoes".to_string(),
        sub_categories: vec![SAMPLE],
        image_url: Some("https://example.com/shoes.png".to_string()),
        parent_id: Some(SAMPLE),
    };
    let input = encode_input(&c);
    assert_eq!(input.name, "Shoes");
    assert_eq!(input.sub_categories, vec![record_id(SAMPLE_TEXT)]);
    assert_eq!(input.parent_id, Some(record_id(SAMPLE_TEXT)));
    assert_eq!(input.image_url.as_deref(), Some("https://example.com/shoes.png"));
    assert_eq!(reference_of(SAMPLE), record_id(SAMPLE_TEXT));
}

#[test]
fn cursors_are_decimal_positions() {
    assert_eq!(encode_cursor(0), "0");
    assert_eq!(encode_cursor(1234), "1234");
    assert_eq!(decode_cursor("0", 5), Some(0));
    assert_eq!(decode_cursor("4", 5), Some(4));
    assert_eq!(decode_cursor("5", 5), None);
    assert_eq!(decode_cursor("05", 50), None);
    assert_eq!(decode_cursor("", 5), None);
    assert_eq!(decode_cursor("x", 5), None);
    assert_eq!(decode_cursor("99999999999999999999999999", 5), None);
}

#[test]
fn first_two_of_five() {
    let page = paginate(numbers(5), params(None, None, Some(2), None), MAX_PAGE_SIZE).unwrap();
    assert_eq!(page.items, vec![0, 1]);
    assert_eq!(cursors(&page), vec!["0", "1"]);
    assert!(page.has_next_page);
    assert!(!page.has_previous_page);
}

#[test]
fn last_two_of_five() {
    let page = paginate(numbers(5), params(None, None, None, Some(2)), MAX_PAGE_SIZE).unwrap();
    assert_eq!(page.items, vec![3, 4]);
    assert_eq!(cursors(&page), vec!["3", "4"]);
    assert!(!page.has_next_page);
    assert!(page.has_previous_page);
}

#[test]
fn pages_between_cursors() {
    let page = paginate(numbers(5), params(Some("1"), None, Some(2), None), MAX_PAGE_SIZE).unwrap();
    assert_eq!(page.items, vec![2, 3]);
    assert_eq!(cursors(&page), vec!["2", "3"]);
    assert!(page.has_next_page && page.has_previous_page);

    let page = paginate(numbers(5), params(None, Some("3"), None, Some(5)), MAX_PAGE_SIZE).unwrap();
    assert_eq!(page.items, vec![0, 1, 2]);
    assert!(page.has_next_page && !page.has_previous_page);

    let page = paginate(numbers(5), params(Some("3"), Some("1"), Some(2), None), MAX_PAGE_SIZE).unwrap();
    assert!(page.items.is_empty());

    let page = paginate(numbers(5), params(Some("3"), None, Some(10), None), MAX_PAGE_SIZE).unwrap();
    assert_eq!(page.items, vec![4]);
    assert!(!page.has_next_page);
}

#[test]
fn default_page_is_capped() {
    let page = paginate(numbers(150), params(None, None, None, None), MAX_PAGE_SIZE).unwrap();
    assert_eq!(page.items.len(), 100);
    assert_eq!(page.cursors[99], "99");
    assert!(page.has_next_page);
    let page = paginate(Vec::<u32>::new(), params(None, None, Some(3), None), MAX_PAGE_SIZE).unwrap();
    assert!(page.items.is_empty() && !page.has_next_page && !page.has_previous_page);
}

#[test]
fn invalid_pagination_is_rejected() {
    let v = |e| Err::<Page<u32>, CoreError>(CoreError::Validation(e));
    let check = |p: Params, e| {
        let r = paginate(numbers(5), p, MAX_PAGE_SIZE);
        assert_eq!(r.map(|page| page.items), v(e).map(|page| page.items));
    };
    check(params(None, None, Some(0), None), ValidationError::PageSizeOutOfRange);
    check(params(None, None, Some(101), None), ValidationError::PageSizeOutOfRange);
    check(params(None, None, None, Some(-1)), ValidationError::PageSizeOutOfRange);
    check(params(None, None, Some(1), Some(1)), ValidationError::FirstAndLast);
    check(params(Some("x"), None, Some(1), None), ValidationError::InvalidCursor);
    check(params(None, Some("5"), Some(1), None), ValidationError::InvalidCursor);
    check(params(Some("01"), None, None, None), ValidationError::InvalidCursor);
}

#[test]
fn subscriptions_filter_by_kind() {
    let created = CategoryChanged { mutation_type: MutationType::Created, id: 1 };
    let deleted = CategoryChanged { mutation_type: MutationType::Deleted, id: 1 };
    let all = CategorySubscription::categories(None);
    let only_created = CategorySubscription::categories(Some(MutationType::Created));
    assert!(all.accepts(&created) && all.accepts(&deleted));
    assert!(only_created.accepts(&created));
    assert!(!only_created.accepts(&deleted));
}

#[test]
fn notifications_follow_successful_writes() {
    let c = Category { id: 5, name: "x".to_string(), sub_categories: vec![], image_url: None, parent_id: None };
    assert_eq!(
        CategoryMutation::changed(MutationType::Updated, &Ok(Payload::One(Some(c)))),
        Some(CategoryChanged { mutation_type: MutationType::Updated, id: 5 })
    );
    assert_eq!(CategoryMutation::changed(MutationType::Deleted, &Ok(Payload::One(None))), None);
    assert_eq!(CategoryMutation::changed(MutationType::Created, &Err(CoreError::NothingCreated)), None);
}
