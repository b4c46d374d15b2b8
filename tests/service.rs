use std::collections::{BTreeMap, HashMap};

use api_categories::{
    parent_ids_of, reference_of, with_parent_names, CacheKey, Category, CategoryMutation, CategoryQuery, CategoryService, Command,
    CoreError, Event, Operation, Params, Payload, Phase, RecordId, ServiceConfig, StoreRecord,
    ValidationError,
};

fn uuid_text(v: u128) -> String {
    reference_of(v).key
}

/// The backends in memory: records by id, cache entries by key text, and the
/// search index's documents once it exists.
#[derive(Default)]
struct Backends {
    store: BTreeMap<u128, StoreRecord>,
    cache: HashMap<String, Payload>,
    index: Option<Vec<Category>>,
    index_refuses: bool,
    store_calls: usize,
    commands: Vec<String>,
}

fn stored(id: u128, input: api_categories::RecordInput) -> StoreRecord {
    StoreRecord {
        id: RecordId { table: "category".to_string(), key: format!("\u{27E8}{}\u{27E9}", uuid_text(id)) },
        name: input.name,
        sub_categories: input.sub_categories,
        image_url: input.image_url,
        parent_id: input.parent_id,
    }
}

impl Backends {
    fn perform(&mut self, cmd: Command) -> Result<Event, Result<Payload, CoreError>> {
        let event = match cmd {
            Command::Reply { outcome } => return Err(outcome),
            Command::CacheGet { key } => {
                self.commands.push("cache-get".into());
                Event::Cached(self.cache.get(&key.to_key_string()).cloned())
            }
            Command::CacheSet { key, value, .. } => {
                self.commands.push("cache-set".into());
                self.cache.insert(key.to_key_string(), value);
                Event::Done
            }
            Command::CacheDelete { keys } => {
                self.commands.push("cache-delete".into());
                for k in keys {
                    self.cache.remove(&k.to_key_string());
                }
                Event::Done
            }
            Command::StoreSelect { id } => {
                self.store_calls += 1;
                Event::Record(Ok(self.store.get(&id).cloned()))
            }
            Command::StoreSelectAll => {
                self.store_calls += 1;
                Event::Records(Ok(self.store.values().cloned().collect()))
            }
            Command::StoreSelectChildren { parent } => {
                self.store_calls += 1;
                let parent = parent.map(uuid_text);
                Event::Records(Ok(self
                    .store
                    .values()
                    .filter(|r| r.parent_id.as_ref().map(|p| p.key.clone()) == parent)
                    .cloned()
                    .collect()))
            }
            Command::StoreCreate { id, input } => {
                self.store_calls += 1;
                let rec = stored(id, input);
                self.store.insert(id, rec.clone());
                Event::Record(Ok(Some(rec)))
            }
            Command::StoreUpdate { id, input } => {
                self.store_calls += 1;
                if self.store.contains_key(&id) {
                    let rec = stored(id, input);
                    self.store.insert(id, rec.clone());
                    Event::Record(Ok(Some(rec)))
                } else {
                    Event::Record(Ok(None))
                }
            }
            Command::StoreDelete { id } => {
                self.store_calls += 1;
                Event::Record(Ok(self.store.remove(&id)))
            }
            Command::IndexDocuments { documents, .. } => {
                self.commands.push("index".into());
                self.index = Some(documents);
                Event::Done
            }
            Command::OpenIndex => {
                self.commands.push("open-index".into());
                Event::IndexOpened(self.index.is_some() && !self.index_refuses)
            }
            Command::SearchIndex { query } => {
                let docs = self.index.clone().unwrap_or_default();
                Event::Hits(Ok(docs.into_iter().filter(|c| c.name.contains(query.as_str())).collect()))
            }
        };
        Ok(event)
    }

    fn drive(&mut self, svc: &CategoryService, first: (Phase, Command)) -> Result<Payload, CoreError> {
        let (mut phase, mut cmd) = first;
        loop {
            match self.perform(cmd) {
                Err(outcome) => return outcome,
                Ok(event) => {
                    let (p, c) = svc.resume(phase, event);
                    phase = p;
                    cmd = c;
                }
            }
        }
    }

    fn run(&mut self, svc: &CategoryService, op: Operation) -> Result<Payload, CoreError> {
        let first = svc.start(op);
        self.drive(svc, first)
    }
}

fn cached() -> CategoryService {
    CategoryService::new(ServiceConfig { cache_ttl: Some(300), search: false })
}

fn uncached() -> CategoryService {
    CategoryService::new(ServiceConfig { cache_ttl: None, search: false })
}

fn with_search() -> CategoryService {
    CategoryService::new(ServiceConfig { cache_ttl: Some(300), search: true })
}

fn category(name: &str, parent_id: Option<u128>) -> Category {
    Category { id: 0, name: name.to_string(), sub_categories: vec![], image_url: None, parent_id }
}

fn one(r: Result<Payload, CoreError>) -> Option<Category> {
    match r {
        Ok(Payload::One(c)) => c,
        other => panic!("expected one category, got {other:?}"),
    }
}

fn many(r: Result<Payload, CoreError>) -> Vec<Category> {
    match r {
        Ok(Payload::Many(v)) => v,
        other => panic!("expected a listing, got {other:?}"),
    }
}

fn create(be: &mut Backends, svc: &CategoryService, c: Category) -> Category {
    one(be.run(svc, Operation::Create { category: c })).expect("created")
}

fn id_text(c: &Category) -> String {
    uuid_text(c.id)
}

#[test]
fn create_category() {
    for svc in [cached(), uncached()] {
        let mut be = Backends::default();
        let base_count = many(be.run(&svc, Operation::ReadAll)).len();
        let input = category("TestCategoryInput", None);
        let made = create(&mut be, &svc, input.clone());
        assert_eq!(many(be.run(&svc, Operation::ReadAll)).len(), base_count + 1);
        assert_eq!(made.name, input.name);
        assert_eq!(made.sub_categories, input.sub_categories);
        assert_eq!(made.parent_id, input.parent_id);
    }
}

#[test]
fn create_get_by_id() {
    for svc in [cached(), uncached()] {
        let mut be = Backends::default();
        let made = create(&mut be, &svc, category("TestCategoryInput", None));
        let got = one(be.run(&svc, Operation::ReadById { id: id_text(&made) }));
        assert_eq!(got, Some(made));
    }
}

#[test]
fn update_no_id() {
    let svc = cached();
    let mut be = Backends::default();
    let update = category("FooBar", None);
    let r = be.run(&svc, Operation::Update { id: String::new(), data: update });
    assert_eq!(r, Err(CoreError::Validation(ValidationError::EmptyIdentifier)));
    assert_eq!(be.store_calls, 0);
}

#[test]
fn update_category() {
    let svc = cached();
    let mut be = Backends::default();
    let made = create(&mut be, &svc, category("TestCategoryInput", None));
    let mut update = made.clone();
    update.name = "FooBar".to_string();
    let updated = one(be.run(&svc, Operation::Update { id: id_text(&made), data: update.clone() }))
        .expect("category to exist in db");
    assert_eq!(updated.id, made.id);
    assert_eq!(updated.name, update.name);
    assert_eq!(updated.sub_categories, update.sub_categories);
    let missing = be.run(&svc, Operation::Update { id: uuid_text(42), data: update });
    assert_eq!(missing, Ok(Payload::One(None)));
}

#[test]
fn delete_category() {
    for svc in [cached(), uncached()] {
        let mut be = Backends::default();
        let base_count = many(be.run(&svc, Operation::ReadAll)).len();
        let made = create(&mut be, &svc, category("TestCategoryInput", None));
        let deleted = one(be.run(&svc, Operation::Delete { id: id_text(&made) })).expect("category to be deleted");
        assert_eq!(made, deleted);
        assert!(!be.cache.contains_key(&CacheKey::AllCategories.to_key_string()));
        assert_eq!(many(be.run(&svc, Operation::ReadAll)).len(), base_count);
        assert_eq!(one(be.run(&svc, Operation::ReadById { id: id_text(&made) })), None);
        assert_eq!(be.run(&svc, Operation::Delete { id: id_text(&made) }), Ok(Payload::One(None)));
    }
}

#[test]
fn query_by_unavailable_id() {
    let svc = cached();
    let mut be = Backends::default();
    let invalid = Err(CoreError::Validation(ValidationError::InvalidIdentifier));
    let empty = Err(CoreError::Validation(ValidationError::EmptyIdentifier));
    assert_eq!(be.run(&svc, Operation::ReadById { id: "justanid".into() }), invalid);
    assert_eq!(be.run(&svc, Operation::ReadById { id: "".into() }), empty);
    assert_eq!(be.run(&svc, Operation::ReadById { id: "  ".into() }), empty);
    assert_eq!(be.store_calls, 0);
    assert!(be.commands.is_empty());
    assert_eq!(be.run(&svc, Operation::ReadById { id: uuid_text(77) }), Ok(Payload::One(None)));
}

#[test]
fn query_all() {
    let svc = cached();
    let mut be = Backends::default();
    create(&mut be, &svc, category("a", None));
    create(&mut be, &svc, category("b", None));
    assert_eq!(many(be.run(&svc, Operation::ReadAll)).len(), 2);
}

#[test]
fn query_sub_categories() {
    for svc in [cached(), uncached()] {
        let mut be = Backends::default();
        let a = create(&mut be, &svc, category("A", None));
        let b = create(&mut be, &svc, category("B", Some(a.id)));
        let children = many(be.run(&svc, Operation::ReadChildren { parent: Some(id_text(&a)) }));
        assert_eq!(children, vec![b.clone()]);
        let roots = many(be.run(&svc, Operation::ReadChildren { parent: None }));
        assert_eq!(roots, vec![a]);
        assert!(many(be.run(&svc, Operation::ReadChildren { parent: Some(id_text(&b)) })).is_empty());
        assert_eq!(
            be.run(&svc, Operation::ReadChildren { parent: Some("justanid".into()) }),
            Err(CoreError::Validation(ValidationError::InvalidIdentifier))
        );
    }
}

#[test]
fn gql_search() {
    let svc = cached();
    let mut be = Backends::default();
    let r = be.run(&svc, Operation::Search { query: "Some Text".into() });
    assert_eq!(r, Err(CoreError::SearchNotConfigured));
    assert!(be.commands.is_empty());
}

#[test]
fn missing_parent_leaves_store_unchanged() {
    let svc = cached();
    let mut be = Backends::default();
    let a = create(&mut be, &svc, category("A", None));
    let before = be.store.clone();
    let r = be.run(&svc, Operation::Create { category: category("orphan", Some(99)) });
    assert_eq!(r, Err(CoreError::ParentNotFound(99)));
    let r = be.run(&svc, Operation::Update { id: id_text(&a), data: category("A2", Some(99)) });
    assert_eq!(r, Err(CoreError::ParentNotFound(99)));
    assert_eq!(be.store, before);
}

#[test]
fn reads_are_served_from_cache() {
    let svc = cached();
    let mut be = Backends::default();
    let made = create(&mut be, &svc, category("A", None));
    let calls = be.store_calls;
    let first = one(be.run(&svc, Operation::ReadById { id: id_text(&made) }));
    assert_eq!(be.store_calls, calls + 1);
    let second = one(be.run(&svc, Operation::ReadById { id: id_text(&made) }));
    assert_eq!(be.store_calls, calls + 1);
    assert_eq!(first, second);
    many(be.run(&svc, Operation::ReadAll));
    many(be.run(&svc, Operation::ReadAll));
    assert_eq!(be.store_calls, calls + 2);
}

#[test]
fn writes_invalidate_affected_keys() {
    let svc = cached();
    let mut be = Backends::default();
    let a = create(&mut be, &svc, category("A", None));
    let b = create(&mut be, &svc, category("B", Some(a.id)));
    many(be.run(&svc, Operation::ReadAll));
    many(be.run(&svc, Operation::ReadChildren { parent: Some(id_text(&a)) }));
    one(be.run(&svc, Operation::ReadById { id: id_text(&b) }));
    assert_eq!(be.cache.len(), 3);
    let mut renamed = b.clone();
    renamed.name = "B2".into();
    one(be.run(&svc, Operation::Update { id: id_text(&b), data: renamed }));
    assert!(be.cache.is_empty());
    let children = many(be.run(&svc, Operation::ReadChildren { parent: Some(id_text(&a)) }));
    assert_eq!(children[0].name, "B2");
}

#[test]
fn invalidating_twice_changes_nothing_more() {
    let mut be = Backends::default();
    be.cache.insert(CacheKey::AllCategories.to_key_string(), Payload::Many(vec![]));
    be.cache.insert(CacheKey::Category { id: 1 }.to_key_string(), Payload::One(None));
    let keys = vec![CacheKey::AllCategories, CacheKey::SubCategories { parent: None }];
    be.perform(Command::CacheDelete { keys: keys.clone() }).unwrap();
    let once: Vec<String> = be.cache.keys().cloned().collect();
    be.perform(Command::CacheDelete { keys }).unwrap();
    let twice: Vec<String> = be.cache.keys().cloned().collect();
    assert_eq!(once, twice);
    assert_eq!(twice, vec![CacheKey::Category { id: 1 }.to_key_string()]);
}

#[test]
fn malformed_record_is_a_store_failure() {
    let svc = uncached();
    let mut be = Backends::default();
    let rec = StoreRecord {
        id: RecordId { table: "category".into(), key: "\u{27E8}not-a-uuid\u{27E9}".into() },
        name: "x".into(),
        sub_categories: vec![],
        image_url: None,
        parent_id: None,
    };
    be.store.insert(5, rec);
    assert_eq!(be.run(&svc, Operation::ReadAll), Err(CoreError::MalformedId("not-a-uuid".into())));
    assert_eq!(
        be.run(&svc, Operation::ReadById { id: uuid_text(5) }),
        Err(CoreError::MalformedId("not-a-uuid".into()))
    );
}

#[test]
fn store_failure_is_reported() {
    let svc = cached();
    let first = svc.start(Operation::ReadAll);
    let (phase, cmd) = first;
    assert!(matches!(cmd, Command::CacheGet { key: CacheKey::AllCategories }));
    let (phase, cmd) = svc.resume(phase, Event::Cached(None));
    assert!(matches!(cmd, Command::StoreSelectAll));
    let (_, cmd) = svc.resume(phase, Event::Records(Err("connection reset".into())));
    match cmd {
        Command::Reply { outcome } => assert_eq!(outcome, Err(CoreError::Store("connection reset".into()))),
        _ => panic!("expected a reply"),
    }
}

#[test]
fn create_without_record_fails() {
    let svc = uncached();
    let (phase, cmd) = svc.begin(Operation::Create { category: category("x", None) }, 3);
    assert!(matches!(cmd, Command::StoreCreate { id: 3, .. }));
    let (_, cmd) = svc.resume(phase, Event::Record(Ok(None)));
    match cmd {
        Command::Reply { outcome } => assert_eq!(outcome, Err(CoreError::NothingCreated)),
        _ => panic!("expected a reply"),
    }
}

#[test]
fn unexpected_event_is_refused() {
    let svc = cached();
    let (phase, _) = svc.start(Operation::ReadAll);
    let (_, cmd) = svc.resume(phase, Event::IndexOpened(true));
    match cmd {
        Command::Reply { outcome } => assert_eq!(outcome, Err(CoreError::UnexpectedEvent)),
        _ => panic!("expected a reply"),
    }
}

#[test]
fn search_provisions_the_index() {
    let svc = with_search();
    let mut be = Backends::default();
    create(&mut be, &svc, category("Garden tools", None));
    create(&mut be, &svc, category("Kitchen", None));
    let hits = many(be.run(&svc, Operation::Search { query: "Garden".into() }));
    assert_eq!(hits.len(), 1);
    assert_eq!(hits[0].name, "Garden tools");
    assert_eq!(be.commands.iter().filter(|c| *c == "open-index").count(), 2);
}

#[test]
fn search_gives_up_after_three_attempts() {
    let svc = with_search();
    let mut be = Backends { index_refuses: true, ..Backends::default() };
    let r = be.run(&svc, Operation::Search { query: "x".into() });
    assert_eq!(r, Err(CoreError::SearchUnavailable));
    assert_eq!(be.commands.iter().filter(|c| *c == "open-index").count(), 3);
}

#[test]
fn full_listing_is_indexed() {
    let svc = with_search();
    let mut be = Backends::default();
    create(&mut be, &svc, category("A", None));
    many(be.run(&svc, Operation::ReadAll));
    assert_eq!(be.index.as_ref().map(|d| d.len()), Some(1));
}

#[test]
fn query_and_mutation_roots() {
    let query = CategoryQuery::new(cached());
    let mutation = CategoryMutation::new(cached());
    let mut be = Backends::default();
    let made = one(be.drive(&mutation.service, mutation.create_category(category("A", None))));
    let made = made.expect("created");
    for n in 0..4 {
        be.drive(&mutation.service, mutation.create_category(category(&format!("child {n}"), Some(made.id))))
            .unwrap();
    }
    let listing = many(be.drive(&query.service, query.sub_categories(Some(id_text(&made)))));
    let page = CategoryQuery::connection(listing, Params::new(None, None, Some(2), None)).unwrap();
    assert_eq!(page.items.len(), 2);
    assert!(page.has_next_page);
    let got = one(be.drive(&query.service, query.category_by_id(id_text(&made))));
    assert_eq!(got, Some(made.clone()));
    let gone = one(be.drive(&mutation.service, mutation.delete_category(id_text(&made))));
    assert_eq!(gone, Some(made));
    assert_eq!(many(be.drive(&query.service, query.categories())).len(), 4);
}

#[test]
fn query_by_available_id() {
    let svc = uncached();
    let mut be = Backends::default();
    let made = create(&mut be, &svc, category("A", None));
    assert!(one(be.run(&svc, Operation::ReadById { id: id_text(&made) })).is_some());
}

#[test]
fn query_gql_query() {
    let query = CategoryQuery::new(cached());
    let mut be = Backends::default();
    for n in 0..3 {
        create(&mut be, &query.service, category(&format!("c{n}"), None));
    }
    let listing = many(be.drive(&query.service, query.categories()));
    let page = CategoryQuery::connection(listing, Params::new(None, None, Some(2), None)).unwrap();
    assert_eq!(page.cursors, vec!["0".to_string(), "1".to_string()]);
    assert!(page.has_next_page && !page.has_previous_page);
}

#[test]
fn gql_query_sub_categories_ok() {
    let query = CategoryQuery::new(cached());
    let mut be = Backends::default();
    let listing = many(be.drive(&query.service, query.sub_categories(None)));
    let page = CategoryQuery::connection(listing, Params::new(None, None, Some(2), None)).unwrap();
    assert!(page.items.is_empty() && !page.has_next_page);
}

#[test]
fn search_hits_get_parent_names() {
    let parent = Category { id: 1, name: "Home".into(), sub_categories: vec![], image_url: None, parent_id: None };
    let other = Category { id: 2, name: "Garden".into(), sub_categories: vec![], image_url: None, parent_id: None };
    let hits = vec![
        category("Chairs", Some(1)),
        category("Lost", Some(9)),
        category("Root", None),
        category("Rakes", Some(2)),
    ];
    assert_eq!(parent_ids_of(&hits), vec![1, 9, 2]);
    let paired = with_parent_names(&hits, &vec![parent, other]);
    let names: Vec<Option<&str>> = paired.iter().map(|(_, n)| n.as_deref()).collect();
    assert_eq!(names, vec![Some("Home"), None, None, Some("Garden")]);
    assert_eq!(paired[3].0, hits[3]);
}

#[test]
fn search_backend_failure_is_reported() {
    let svc = with_search();
    let (phase, cmd) = svc.start(Operation::Search { query: "x".into() });
    assert!(matches!(cmd, Command::OpenIndex));
    let (phase, cmd) = svc.resume(phase, Event::IndexOpened(true));
    assert!(matches!(cmd, Command::SearchIndex { .. }));
    let (_, cmd) = svc.resume(phase, Event::Hits(Err("index offline".into())));
    match cmd {
        Command::Reply { outcome } => assert_eq!(outcome, Err(CoreError::SearchFailed("index offline".into()))),
        _ => panic!("expected a reply"),
    }
}
