//! The category service: the decisions of every read and write, as a state
//! machine. A driver performs each `Command` against the store, the cache and
//! the search index, and hands back what came of it as an `Event`, until the
//! machine answers with `Command::Reply`.
use vstd::prelude::*;

use crate::cache_keys::CacheKey;
use crate::codec::{
    categories_view, decode_record, decoded, duplicate_all, encode_input, input_of,
    record_malformed, Category, CategoryView, RecordInput, RecordInputView, StoreRecord, StoreRecordView,
};
use crate::error::{CoreError, ValidationError};
use crate::id::{category_id_of, new_uuid_v7, parse_category_id};

verus! {

/// How many times a search tries to open the index.
pub const INDEX_ATTEMPTS: u8 = 3;

/// Which backends are wired: a cache with the TTL of its entries, and a search index.
#[derive(Debug, Clone, Copy, PartialEq, Eq, Structural)]
pub struct ServiceConfig {
    pub cache_ttl: Option<u64>,
    pub search: bool,
}

/// A request from the API layer.
pub enum Operation {
    Create { category: Category },
    ReadById { id: String },
    ReadAll,
    /// The children of `parent`; `None` asks for the roots.
    ReadChildren { parent: Option<String> },
    Update { id: String, data: Category },
    Delete { id: String },
    Search { query: String },
}

/// A result, as the cache holds it and as the machine answers it.
#[derive(Debug, Clone, PartialEq, Eq)]
pub enum Payload {
    One(Option<Category>),
    Many(Vec<Category>),
}

pub enum PayloadView {
    One(Option<CategoryView>),
    Many(Seq<CategoryView>),
}

pub open spec fn opt_category(o: Option<Category>) -> Option<CategoryView> {
    match o {
        Some(c) => Some(c@),
        None => None,
    }
}

impl View for Payload {
    type V = PayloadView;

    open spec fn view(&self) -> PayloadView {
        match self {
            Payload::One(o) => PayloadView::One(opt_category(*o)),
            Payload::Many(v) => PayloadView::Many(categories_view(v@)),
        }
    }
}

pub enum CoreErrorView {
    Validation(ValidationError),
    ParentNotFound(u128),
    Store(Seq<char>),
    NothingCreated,
    MalformedId(Seq<char>),
    SearchNotConfigured,
    SearchUnavailable,
    SearchFailed(Seq<char>),
    UnexpectedEvent,
}

impl View for CoreError {
    type V = CoreErrorView;

    open spec fn view(&self) -> CoreErrorView {
        match self {
            CoreError::Validation(e) => CoreErrorView::Validation(*e),
            CoreError::ParentNotFound(p) => CoreErrorView::ParentNotFound(*p),
            CoreError::Store(m) => CoreErrorView::Store(m@),
            CoreError::NothingCreated => CoreErrorView::NothingCreated,
            CoreError::MalformedId(k) => CoreErrorView::MalformedId(k@),
            CoreError::SearchNotConfigured => CoreErrorView::SearchNotConfigured,
            CoreError::SearchUnavailable => CoreErrorView::SearchUnavailable,
            CoreError::SearchFailed(m) => CoreErrorView::SearchFailed(m@),
            CoreError::UnexpectedEvent => CoreErrorView::UnexpectedEvent,
        }
    }
}

pub open spec fn outcome_view(o: Result<Payload, CoreError>) -> Result<PayloadView, CoreErrorView> {
    match o {
        Ok(p) => Ok(p@),
        Err(e) => Err(e@),
    }
}

/// What a backend made of a command.
pub enum Event {
    /// The cache's answer to `CacheGet`: `None` on a miss or a cache failure.
    Cached(Option<Payload>),
    /// A cache write, a cache deletion or an indexing job has been dealt with,
    /// successfully or not.
    Done,
    /// The store's answer to a command on one record.
    Record(Result<Option<StoreRecord>, String>),
    /// The store's answer to a listing.
    Records(Result<Vec<StoreRecord>, String>),
    /// Whether the search index could be opened.
    IndexOpened(bool),
    /// The search index's answer to a query.
    Hits(Result<Vec<Category>, String>),
}

pub enum EventView {
    Cached(Option<PayloadView>),
    Done,
    Record(Result<Option<StoreRecordView>, Seq<char>>),
    Records(Result<Seq<StoreRecordView>, Seq<char>>),
    IndexOpened(bool),
    Hits(Result<Seq<CategoryView>, Seq<char>>),
}

impl View for Event {
    type V = EventView;

    open spec fn view(&self) -> EventView {
        match self {
            Event::Cached(o) => EventView::Cached(match o {
                Some(p) => Some(p@),
                None => None,
            }),
            Event::Done => EventView::Done,
            Event::Record(r) => EventView::Record(match r {
                Ok(Some(rec)) => Ok(Some(rec@)),
                Ok(None) => Ok(None),
                Err(m) => Err(m@),
            }),
            Event::Records(r) => EventView::Records(match r {
                Ok(recs) => Ok(records_view(recs@)),
                Err(m) => Err(m@),
            }),
            Event::IndexOpened(b) => EventView::IndexOpened(*b),
            Event::Hits(r) => EventView::Hits(match r {
                Ok(xs) => Ok(categories_view(xs@)),
                Err(m) => Err(m@),
            }),
        }
    }
}

/// A full listing, the children of a parent, or a full listing made to
/// provision the search index before another attempt to open it.
#[derive(Debug, Clone, PartialEq, Eq)]
pub enum Listing {
    All,
    Children { parent: Option<u128> },
    Refresh { query: String, attempt: u8 },
}

#[derive(Debug, Clone, Copy, PartialEq, Eq, Structural)]
pub enum WriteKind {
    Create,
    Update,
    Delete,
}

/// A write that waits for its parent to be found.
pub enum PendingWrite {
    Create { id: u128, input: RecordInput },
    Update { id: u128, input: RecordInput },
}

pub enum PendingWriteView {
    Create { id: u128, input: RecordInputView },
    Update { id: u128, input: RecordInputView },
}

impl View for PendingWrite {
    type V = PendingWriteView;

    open spec fn view(&self) -> PendingWriteView {
        match self {
            PendingWrite::Create { id, input } => PendingWriteView::Create { id: *id, input: input@ },
            PendingWrite::Update { id, input } => PendingWriteView::Update { id: *id, input: input@ },
        }
    }
}

/// Where an operation stands: what it waits for.
pub enum Phase {
    AwaitCachedOne { id: u128 },
    AwaitRecord { id: u128 },
    AwaitCachedMany { listing: Listing },
    AwaitRecords { listing: Listing },
    AfterListCached { listing: Listing, found: Vec<Category> },
    CheckParent { parent: u128, write: PendingWrite },
    AwaitWrite { kind: WriteKind },
    Finish { outcome: Result<Payload, CoreError> },
    Reopen { query: String, attempt: u8 },
    AwaitIndex { query: String, attempt: u8 },
    AwaitHits,
    Finished,
}

pub enum PhaseView {
    AwaitCachedOne { id: u128 },
    AwaitRecord { id: u128 },
    AwaitCachedMany { listing: Listing },
    AwaitRecords { listing: Listing },
    AfterListCached { listing: Listing, found: Seq<CategoryView> },
    CheckParent { parent: u128, write: PendingWriteView },
    AwaitWrite { kind: WriteKind },
    Finish { outcome: Result<PayloadView, CoreErrorView> },
    Reopen { query: String, attempt: u8 },
    AwaitIndex { query: String, attempt: u8 },
    AwaitHits,
    Finished,
}

impl View for Phase {
    type V = PhaseView;

    open spec fn view(&self) -> PhaseView {
        match self {
            Phase::AwaitCachedOne { id } => PhaseView::AwaitCachedOne { id: *id },
            Phase::AwaitRecord { id } => PhaseView::AwaitRecord { id: *id },
            Phase::AwaitCachedMany { listing } => PhaseView::AwaitCachedMany { listing: *listing },
            Phase::AwaitRecords { listing } => PhaseView::AwaitRecords { listing: *listing },
            Phase::AfterListCached { listing, found } => PhaseView::AfterListCached {
                listing: *listing,
                found: categories_view(found@),
            },
            Phase::CheckParent { parent, write } => PhaseView::CheckParent {
                parent: *parent,
                write: write@,
            },
            Phase::AwaitWrite { kind } => PhaseView::AwaitWrite { kind: *kind },
            Phase::Finish { outcome } => PhaseView::Finish { outcome: outcome_view(*outcome) },
            Phase::Reopen { query, attempt } => PhaseView::Reopen { query: *query, attempt: *attempt },
            Phase::AwaitIndex { query, attempt } => PhaseView::AwaitIndex {
                query: *query,
                attempt: *attempt,
            },
            Phase::AwaitHits => PhaseView::AwaitHits,
            Phase::Finished => PhaseView::Finished,
        }
    }
}

/// What the driver is to do next.
pub enum Command {
    CacheGet { key: CacheKey },
    CacheSet { key: CacheKey, value: Payload, ttl: u64 },
    /// Delete these keys in one batch.
    CacheDelete { keys: Vec<CacheKey> },
    StoreSelect { id: u128 },
    StoreSelectAll,
    /// The records whose parent is `parent`; `None`: those without a parent.
    StoreSelectChildren { parent: Option<u128> },
    StoreCreate { id: u128, input: RecordInput },
    StoreUpdate { id: u128, input: RecordInput },
    StoreDelete { id: u128 },
    /// Push these documents to the search index; `wait`: until the job completes.
    IndexDocuments { documents: Vec<Category>, wait: bool },
    OpenIndex,
    SearchIndex { query: String },
    /// The operation is over: hand this to the caller.
    Reply { outcome: Result<Payload, CoreError> },
}

pub enum CommandView {
    CacheGet { key: CacheKey },
    CacheSet { key: CacheKey, value: PayloadView, ttl: u64 },
    CacheDelete { keys: Seq<CacheKey> },
    StoreSelect { id: u128 },
    StoreSelectAll,
    StoreSelectChildren { parent: Option<u128> },
    StoreCreate { id: u128, input: RecordInputView },
    StoreUpdate { id: u128, input: RecordInputView },
    StoreDelete { id: u128 },
    IndexDocuments { documents: Seq<CategoryView>, wait: bool },
    OpenIndex,
    SearchIndex { query: String },
    Reply { outcome: Result<PayloadView, CoreErrorView> },
}

impl View for Command {
    type V = CommandView;

    open spec fn view(&self) -> CommandView {
        match self {
            Command::CacheGet { key } => CommandView::CacheGet { key: *key },
            Command::CacheSet { key, value, ttl } => CommandView::CacheSet {
                key: *key,
                value: value@,
                ttl: *ttl,
            },
            Command::CacheDelete { keys } => CommandView::CacheDelete { keys: keys@ },
            Command::StoreSelect { id } => CommandView::StoreSelect { id: *id },
            Command::StoreSelectAll => CommandView::StoreSelectAll,
            Command::StoreSelectChildren { parent } => CommandView::StoreSelectChildren {
                parent: *parent,
            },
            Command::StoreCreate { id, input } => CommandView::StoreCreate { id: *id, input: input@ },
            Command::StoreUpdate { id, input } => CommandView::StoreUpdate { id: *id, input: input@ },
            Command::StoreDelete { id } => CommandView::StoreDelete { id: *id },
            Command::IndexDocuments { documents, wait } => CommandView::IndexDocuments {
                documents: categories_view(documents@),
                wait: *wait,
            },
            Command::OpenIndex => CommandView::OpenIndex,
            Command::SearchIndex { query } => CommandView::SearchIndex { query: *query },
            Command::Reply { outcome } => CommandView::Reply { outcome: outcome_view(*outcome) },
        }
    }
}

pub open spec fn reply(o: Result<PayloadView, CoreErrorView>) -> (PhaseView, CommandView) {
    (PhaseView::Finished, CommandView::Reply { outcome: o })
}

pub open spec fn fail(e: CoreErrorView) -> (PhaseView, CommandView) {
    reply(Err(e))
}

pub open spec fn listing_key(l: Listing) -> CacheKey {
    match l {
        Listing::Children { parent } => CacheKey::SubCategories { parent },
        _ => CacheKey::AllCategories,
    }
}

pub open spec fn listing_query(l: Listing) -> CommandView {
    match l {
        Listing::Children { parent } => CommandView::StoreSelectChildren { parent },
        _ => CommandView::StoreSelectAll,
    }
}

/// A listing starts at the cache when there is one, else at the store.
pub open spec fn begin_listing(cfg: ServiceConfig, l: Listing) -> (PhaseView, CommandView) {
    if cfg.cache_ttl is Some {
        (PhaseView::AwaitCachedMany { listing: l }, CommandView::CacheGet { key: listing_key(l) })
    } else {
        (PhaseView::AwaitRecords { listing: l }, listing_query(l))
    }
}

/// A write whose parent, if any, has been found.
pub open spec fn issue_write(w: PendingWriteView) -> (PhaseView, CommandView) {
    match w {
        PendingWriteView::Create { id, input } => (
            PhaseView::AwaitWrite { kind: WriteKind::Create },
            CommandView::StoreCreate { id, input },
        ),
        PendingWriteView::Update { id, input } => (
            PhaseView::AwaitWrite { kind: WriteKind::Update },
            CommandView::StoreUpdate { id, input },
        ),
    }
}

/// A write starts with a look for the parent it names.
pub open spec fn begin_write(parent: Option<u128>, w: PendingWriteView) -> (PhaseView, CommandView) {
    match parent {
        Some(p) => (PhaseView::CheckParent { parent: p, write: w }, CommandView::StoreSelect { id: p }),
        None => issue_write(w),
    }
}

/// The first step of an operation; `fresh` is the identifier a create assigns.
pub open spec fn begin_spec(cfg: ServiceConfig, op: Operation, fresh: u128) -> (PhaseView, CommandView) {
    match op {
        Operation::Create { category } => begin_write(
            category.parent_id,
            PendingWriteView::Create { id: fresh, input: input_of(category@) },
        ),
        Operation::ReadById { id } => match category_id_of(id@) {
            Err(e) => fail(e@),
            Ok(v) => if cfg.cache_ttl is Some {
                (PhaseView::AwaitCachedOne { id: v }, CommandView::CacheGet { key: CacheKey::Category { id: v } })
            } else {
                (PhaseView::AwaitRecord { id: v }, CommandView::StoreSelect { id: v })
            },
        },
        Operation::ReadAll => begin_listing(cfg, Listing::All),
        Operation::ReadChildren { parent } => match parent {
            None => begin_listing(cfg, Listing::Children { parent: None }),
            Some(t) => match category_id_of(t@) {
                Err(e) => fail(e@),
                Ok(p) => begin_listing(cfg, Listing::Children { parent: Some(p) }),
            },
        },
        Operation::Update { id, data } => match category_id_of(id@) {
            Err(e) => fail(e@),
            Ok(v) => begin_write(data.parent_id, PendingWriteView::Update { id: v, input: input_of(data@) }),
        },
        Operation::Delete { id } => match category_id_of(id@) {
            Err(e) => fail(e@),
            Ok(v) => (PhaseView::AwaitWrite { kind: WriteKind::Delete }, CommandView::StoreDelete { id: v }),
        },
        Operation::Search { query } => if cfg.search {
            (PhaseView::AwaitIndex { query, attempt: 1 }, CommandView::OpenIndex)
        } else {
            fail(CoreErrorView::SearchNotConfigured)
        },
    }
}

/// The key text of the first record of `s` that does not decode.
pub open spec fn first_bad_record(s: Seq<StoreRecordView>) -> Option<Seq<char>>
    decreases s.len(),
{
    if s.len() == 0 {
        None
    } else if record_malformed(s[0]) is Some {
        record_malformed(s[0])
    } else {
        first_bad_record(s.drop_first())
    }
}

pub open spec fn records_view(s: Seq<StoreRecord>) -> Seq<StoreRecordView> {
    s.map_values(|r: StoreRecord| r@)
}

pub open spec fn decoded_all(s: Seq<StoreRecordView>) -> Seq<CategoryView> {
    s.map_values(|r: StoreRecordView| decoded(r))
}

/// After a single read from the store: cache the result, then answer it.
pub open spec fn settle_one(cfg: ServiceConfig, id: u128, o: Option<CategoryView>) -> (PhaseView, CommandView) {
    match cfg.cache_ttl {
        Some(ttl) => (
            PhaseView::Finish { outcome: Ok(PayloadView::One(o)) },
            CommandView::CacheSet { key: CacheKey::Category { id }, value: PayloadView::One(o), ttl },
        ),
        None => reply(Ok(PayloadView::One(o))),
    }
}

/// After a listing is cached (or where nothing is cached).
pub open spec fn after_listed(cfg: ServiceConfig, l: Listing, xs: Seq<CategoryView>) -> (PhaseView, CommandView) {
    match l {
        Listing::All => if cfg.search {
            (
                PhaseView::Finish { outcome: Ok(PayloadView::Many(xs)) },
                CommandView::IndexDocuments { documents: xs, wait: false },
            )
        } else {
            reply(Ok(PayloadView::Many(xs)))
        },
        Listing::Children { .. } => reply(Ok(PayloadView::Many(xs))),
        Listing::Refresh { query, attempt } => (
            PhaseView::Reopen { query, attempt },
            CommandView::IndexDocuments { documents: xs, wait: true },
        ),
    }
}

/// After a listing came from the store.
pub open spec fn listed(cfg: ServiceConfig, l: Listing, xs: Seq<CategoryView>) -> (PhaseView, CommandView) {
    match cfg.cache_ttl {
        Some(ttl) => (
            PhaseView::AfterListCached { listing: l, found: xs },
            CommandView::CacheSet { key: listing_key(l), value: PayloadView::Many(xs), ttl },
        ),
        None => after_listed(cfg, l, xs),
    }
}

/// The keys that a write makes stale: the full listing, the listing of the
/// entity's parent, and, for an update or a delete, the entity itself.
pub open spec fn invalidated_keys(kind: WriteKind, c: CategoryView) -> Seq<CacheKey> {
    match kind {
        WriteKind::Create => seq![CacheKey::AllCategories, CacheKey::SubCategories { parent: c.parent_id }],
        _ => seq![
            CacheKey::AllCategories,
            CacheKey::SubCategories { parent: c.parent_id },
            CacheKey::Category { id: c.id },
        ],
    }
}

/// After the store carried out a write.
pub open spec fn written(cfg: ServiceConfig, kind: WriteKind, c: CategoryView) -> (PhaseView, CommandView) {
    if cfg.cache_ttl is Some {
        (
            PhaseView::Finish { outcome: Ok(PayloadView::One(Some(c))) },
            CommandView::CacheDelete { keys: invalidated_keys(kind, c) },
        )
    } else {
        reply(Ok(PayloadView::One(Some(c))))
    }
}

pub open spec fn unexpected() -> (PhaseView, CommandView) {
    fail(CoreErrorView::UnexpectedEvent)
}

/// The step that an event causes.
pub open spec fn next(cfg: ServiceConfig, phase: PhaseView, event: EventView) -> (PhaseView, CommandView) {
    match phase {
        PhaseView::AwaitCachedOne { id } => match event {
            EventView::Cached(Some(PayloadView::One(x))) => reply(Ok(PayloadView::One(x))),
            EventView::Cached(_) => (PhaseView::AwaitRecord { id }, CommandView::StoreSelect { id }),
            _ => unexpected(),
        },
        PhaseView::AwaitRecord { id } => match event {
            EventView::Record(Err(m)) => fail(CoreErrorView::Store(m)),
            EventView::Record(Ok(None)) => settle_one(cfg, id, None),
            EventView::Record(Ok(Some(rec))) => match record_malformed(rec) {
                Some(k) => fail(CoreErrorView::MalformedId(k)),
                None => settle_one(cfg, id, Some(decoded(rec))),
            },
            _ => unexpected(),
        },
        PhaseView::AwaitCachedMany { listing } => match event {
            EventView::Cached(Some(PayloadView::Many(xs))) => match listing {
                Listing::Refresh { query, attempt } => (
                    PhaseView::AwaitIndex { query, attempt: (attempt + 1) as u8 },
                    CommandView::OpenIndex,
                ),
                _ => reply(Ok(PayloadView::Many(xs))),
            },
            EventView::Cached(_) => (PhaseView::AwaitRecords { listing }, listing_query(listing)),
            _ => unexpected(),
        },
        PhaseView::AwaitRecords { listing } => match event {
            EventView::Records(Err(m)) => fail(CoreErrorView::Store(m)),
            EventView::Records(Ok(recs)) => match first_bad_record(recs) {
                Some(k) => fail(CoreErrorView::MalformedId(k)),
                None => listed(cfg, listing, decoded_all(recs)),
            },
            _ => unexpected(),
        },
        PhaseView::AfterListCached { listing, found } => match event {
            EventView::Done => after_listed(cfg, listing, found),
            _ => unexpected(),
        },
        PhaseView::CheckParent { parent, write } => match event {
            EventView::Record(Err(m)) => fail(CoreErrorView::Store(m)),
            EventView::Record(Ok(None)) => fail(CoreErrorView::ParentNotFound(parent)),
            EventView::Record(Ok(Some(_))) => issue_write(write),
            _ => unexpected(),
        },
        PhaseView::AwaitWrite { kind } => match event {
            EventView::Record(Err(m)) => fail(CoreErrorView::Store(m)),
            EventView::Record(Ok(None)) => match kind {
                WriteKind::Create => fail(CoreErrorView::NothingCreated),
                _ => reply(Ok(PayloadView::One(None))),
            },
            EventView::Record(Ok(Some(rec))) => match record_malformed(rec) {
                Some(k) => fail(CoreErrorView::MalformedId(k)),
                None => written(cfg, kind, decoded(rec)),
            },
            _ => unexpected(),
        },
        PhaseView::Finish { outcome } => match event {
            EventView::Done => reply(outcome),
            _ => unexpected(),
        },
        PhaseView::Reopen { query, attempt } => match event {
            EventView::Done => (
                PhaseView::AwaitIndex { query, attempt: (attempt + 1) as u8 },
                CommandView::OpenIndex,
            ),
            _ => unexpected(),
        },
        PhaseView::AwaitIndex { query, attempt } => match event {
            EventView::IndexOpened(true) => (PhaseView::AwaitHits, CommandView::SearchIndex { query }),
            EventView::IndexOpened(false) => if attempt < INDEX_ATTEMPTS {
                begin_listing(cfg, Listing::Refresh { query, attempt })
            } else {
                fail(CoreErrorView::SearchUnavailable)
            },
            _ => unexpected(),
        },
        PhaseView::AwaitHits => match event {
            EventView::Hits(Err(m)) => fail(CoreErrorView::SearchFailed(m)),
            EventView::Hits(Ok(xs)) => reply(Ok(PayloadView::Many(xs))),
            _ => unexpected(),
        },
        PhaseView::Finished => unexpected(),
    }
}

/// A phase is well formed when its search attempt counter is within bounds.
pub open spec fn phase_ok(p: PhaseView) -> bool {
    match p {
        PhaseView::AwaitCachedMany { listing: Listing::Refresh { attempt, .. } } => attempt < INDEX_ATTEMPTS,
        PhaseView::AwaitRecords { listing: Listing::Refresh { attempt, .. } } => attempt < INDEX_ATTEMPTS,
        PhaseView::AfterListCached { listing: Listing::Refresh { attempt, .. }, .. } => attempt < INDEX_ATTEMPTS,
        PhaseView::Reopen { attempt, .. } => attempt < INDEX_ATTEMPTS,
        PhaseView::AwaitIndex { attempt, .. } => attempt <= INDEX_ATTEMPTS,
        _ => true,
    }
}

/// Decodes every record, failing on the first that does not decode.
pub fn decode_records(recs: &Vec<StoreRecord>) -> (r: Result<Vec<Category>, CoreError>)
    ensures
        match first_bad_record(records_view(recs@)) {
            Some(k) => r matches Err(CoreError::MalformedId(m)) && m@ == k,
            None => r matches Ok(v) && categories_view(v@) == decoded_all(records_view(recs@)),
        },
{
    let ghost sv = records_view(recs@);
    let mut out: Vec<Category> = Vec::new();
    let mut i: usize = 0;
    proof {
        assert(sv.subrange(0, sv.len() as int) =~= sv);
    }
    while i < recs.len()
        invariant
            sv == records_view(recs@),
            i <= recs.len(),
            first_bad_record(sv) == first_bad_record(sv.subrange(i as int, sv.len() as int)),
            out@.len() == i,
            forall|j: int| 0 <= j < i ==> record_malformed(sv[j]) is None,
            forall|j: int| 0 <= j < i ==> (#[trigger] out@[j])@ == decoded(sv[j]),
        decreases recs.len() - i,
    {
        proof {
            assert(sv.subrange(i as int, sv.len() as int).drop_first() =~= sv.subrange(
                i + 1,
                sv.len() as int,
            ));
        }
        match decode_record(&recs[i]) {
            Ok(c) => {
                out.push(c);
            },
            Err(e) => {
                return Err(e);
            },
        }
        i = i + 1;
    }
    proof {
        assert(categories_view(out@) =~= decoded_all(sv));
    }
    Ok(out)
}

fn reply_with(o: Result<Payload, CoreError>) -> (r: (Phase, Command))
    ensures
        (r.0@, r.1@) == reply(outcome_view(o)),
        phase_ok(r.0@),
{
    (Phase::Finished, Command::Reply { outcome: o })
}

fn unexpected_event() -> (r: (Phase, Command))
    ensures
        (r.0@, r.1@) == unexpected(),
        phase_ok(r.0@),
{
    reply_with(Err(CoreError::UnexpectedEvent))
}

fn listing_key_of(l: &Listing) -> (k: CacheKey)
    ensures
        k == listing_key(*l),
{
    match l {
        Listing::Children { parent } => CacheKey::SubCategories { parent: *parent },
        _ => CacheKey::AllCategories,
    }
}

fn listing_query_of(l: &Listing) -> (c: Command)
    ensures
        c@ == listing_query(*l),
{
    match l {
        Listing::Children { parent } => Command::StoreSelectChildren { parent: *parent },
        _ => Command::StoreSelectAll,
    }
}

fn issue_write_exec(w: PendingWrite) -> (r: (Phase, Command))
    ensures
        (r.0@, r.1@) == issue_write(w@),
        phase_ok(r.0@),
{
    match w {
        PendingWrite::Create { id, input } => (
            Phase::AwaitWrite { kind: WriteKind::Create },
            Command::StoreCreate { id, input },
        ),
        PendingWrite::Update { id, input } => (
            Phase::AwaitWrite { kind: WriteKind::Update },
            Command::StoreUpdate { id, input },
        ),
    }
}

fn begin_write_exec(parent: Option<u128>, w: PendingWrite) -> (r: (Phase, Command))
    ensures
        (r.0@, r.1@) == begin_write(parent, w@),
        phase_ok(r.0@),
{
    match parent {
        Some(p) => (Phase::CheckParent { parent: p, write: w }, Command::StoreSelect { id: p }),
        None => issue_write_exec(w),
    }
}

fn invalidated_keys_of(kind: WriteKind, c: &Category) -> (r: Vec<CacheKey>)
    ensures
        r@ == invalidated_keys(kind, c@),
{
    let mut keys: Vec<CacheKey> = Vec::new();
    keys.push(CacheKey::AllCategories);
    keys.push(CacheKey::SubCategories { parent: c.parent_id });
    match kind {
        WriteKind::Create => {},
        _ => {
            keys.push(CacheKey::Category { id: c.id });
        },
    }
    proof {
        assert(keys@ =~= invalidated_keys(kind, c@));
    }
    keys
}

/// The decision logic of the category data-access layer.
pub struct CategoryService {
    pub config: ServiceConfig,
}

impl CategoryService {
    pub fn new(config: ServiceConfig) -> (r: Self)
        ensures
            r.config == config,
    {
        CategoryService { config }
    }

    fn begin_listing_exec(&self, l: Listing) -> (r: (Phase, Command))
        requires
            phase_ok(PhaseView::AwaitRecords { listing: l }),
        ensures
            (r.0@, r.1@) == begin_listing(self.config, l),
            phase_ok(r.0@),
    {
        if self.config.cache_ttl.is_some() {
            let key = listing_key_of(&l);
            (Phase::AwaitCachedMany { listing: l }, Command::CacheGet { key })
        } else {
            let query = listing_query_of(&l);
            (Phase::AwaitRecords { listing: l }, query)
        }
    }

    /// The first step of `op`, where a create assigns the identifier `fresh`.
    /// An identifier that is blank or no UUID is rejected here, before any
    /// command reaches a backend.
    pub fn begin(&self, op: Operation, fresh: u128) -> (r: (Phase, Command))
        ensures
            (r.0@, r.1@) == begin_spec(self.config, op, fresh),
            phase_ok(r.0@),
    {
        match op {
            Operation::Create { category } => {
                let input = encode_input(&category);
                begin_write_exec(category.parent_id, PendingWrite::Create { id: fresh, input })
            },
            Operation::ReadById { id } => match parse_category_id(id.as_str()) {
                Err(e) => reply_with(Err(e)),
                Ok(v) => if self.config.cache_ttl.is_some() {
                    (Phase::AwaitCachedOne { id: v }, Command::CacheGet { key: CacheKey::Category { id: v } })
                } else {
                    (Phase::AwaitRecord { id: v }, Command::StoreSelect { id: v })
                },
            },
            Operation::ReadAll => self.begin_listing_exec(Listing::All),
            Operation::ReadChildren { parent } => match parent {
                None => self.begin_listing_exec(Listing::Children { parent: None }),
                Some(t) => match parse_category_id(t.as_str()) {
                    Err(e) => reply_with(Err(e)),
                    Ok(p) => self.begin_listing_exec(Listing::Children { parent: Some(p) }),
                },
            },
            Operation::Update { id, data } => match parse_category_id(id.as_str()) {
                Err(e) => reply_with(Err(e)),
                Ok(v) => {
                    let input = encode_input(&data);
                    begin_write_exec(data.parent_id, PendingWrite::Update { id: v, input })
                },
            },
            Operation::Delete { id } => match parse_category_id(id.as_str()) {
                Err(e) => reply_with(Err(e)),
                Ok(v) => (Phase::AwaitWrite { kind: WriteKind::Delete }, Command::StoreDelete { id: v }),
            },
            Operation::Search { query } => if self.config.search {
                (Phase::AwaitIndex { query, attempt: 1 }, Command::OpenIndex)
            } else {
                reply_with(Err(CoreError::SearchNotConfigured))
            },
        }
    }

    /// The first step of `op`; a create draws a fresh time-ordered identifier.
    pub fn start(&self, op: Operation) -> (r: (Phase, Command))
        ensures
            exists|fresh: u128| (r.0@, r.1@) == begin_spec(self.config, op, fresh),
            phase_ok(r.0@),
    {
        let fresh = new_uuid_v7();
        self.begin(op, fresh)
    }

    fn settle_one_exec(&self, id: u128, o: Option<Category>) -> (r: (Phase, Command))
        ensures
            (r.0@, r.1@) == settle_one(self.config, id, opt_category(o)),
            phase_ok(r.0@),
    {
        match self.config.cache_ttl {
            Some(ttl) => {
                let copy = match &o {
                    Some(c) => Some(c.duplicate()),
                    None => None,
                };
                (
                    Phase::Finish { outcome: Ok(Payload::One(o)) },
                    Command::CacheSet { key: CacheKey::Category { id }, value: Payload::One(copy), ttl },
                )
            },
            None => reply_with(Ok(Payload::One(o))),
        }
    }
    fn after_listed_exec(&self, l: Listing, xs: Vec<Category>) -> (r: (Phase, Command))
        requires
            phase_ok(PhaseView::AwaitRecords { listing: l }),
        ensures
            (r.0@, r.1@) == after_listed(self.config, l, categories_view(xs@)),
            phase_ok(r.0@),
    {
        match l {
            Listing::All => if self.config.search {
                let documents = duplicate_all(&xs);
                (Phase::Finish { outcome: Ok(Payload::Many(xs)) }, Command::IndexDocuments { documents, wait: false })
            } else {
                reply_with(Ok(Payload::Many(xs)))
            },
            Listing::Children { .. } => reply_with(Ok(Payload::Many(xs))),
            Listing::Refresh { query, attempt } => (
                Phase::Reopen { query, attempt },
                Command::IndexDocuments { documents: xs, wait: true },
            ),
        }
    }

    fn listed_exec(&self, l: Listing, xs: Vec<Category>) -> (r: (Phase, Command))
        requires
            phase_ok(PhaseView::AwaitRecords { listing: l }),
        ensures
            (r.0@, r.1@) == listed(self.config, l, categories_view(xs@)),
            phase_ok(r.0@),
    {
        match self.config.cache_ttl {
            Some(ttl) => {
                let key = listing_key_of(&l);
                let value = Payload::Many(duplicate_all(&xs));
                (Phase::AfterListCached { listing: l, found: xs }, Command::CacheSet { key, value, ttl })
            },
            None => self.after_listed_exec(l, xs),
        }
    }

    fn written_exec(&self, kind: WriteKind, c: Category) -> (r: (Phase, Command))
        ensures
            (r.0@, r.1@) == written(self.config, kind, c@),
            phase_ok(r.0@),
    {
        if self.config.cache_ttl.is_some() {
            let keys = invalidated_keys_of(kind, &c);
            (Phase::Finish { outcome: Ok(Payload::One(Some(c))) }, Command::CacheDelete { keys })
        } else {
            reply_with(Ok(Payload::One(Some(c))))
        }
    }

    fn on_record(&self, id: u128, event: Event) -> (r: (Phase, Command))
        ensures
            (r.0@, r.1@) == next(self.config, PhaseView::AwaitRecord { id }, event@),
            phase_ok(r.0@),
    {
        match event {
            Event::Record(Err(m)) => reply_with(Err(CoreError::Store(m))),
            Event::Record(Ok(None)) => self.settle_one_exec(id, None),
            Event::Record(Ok(Some(rec))) => match decode_record(&rec) {
                Err(e) => reply_with(Err(e)),
                Ok(c) => self.settle_one_exec(id, Some(c)),
            },
            _ => unexpected_event(),
        }
    }

    fn on_cached_many(&self, listing: Listing, event: Event) -> (r: (Phase, Command))
        requires
            phase_ok(PhaseView::AwaitCachedMany { listing }),
        ensures
            (r.0@, r.1@) == next(self.config, PhaseView::AwaitCachedMany { listing }, event@),
            phase_ok(r.0@),
    {
        match event {
            Event::Cached(Some(Payload::Many(xs))) => match listing {
                Listing::Refresh { query, attempt } => (
                    Phase::AwaitIndex { query, attempt: attempt + 1 },
                    Command::OpenIndex,
                ),
                _ => reply_with(Ok(Payload::Many(xs))),
            },
            Event::Cached(_) => {
                let query = listing_query_of(&listing);
                (Phase::AwaitRecords { listing }, query)
            },
            _ => unexpected_event(),
        }
    }

    fn on_records(&self, listing: Listing, event: Event) -> (r: (Phase, Command))
        requires
            phase_ok(PhaseView::AwaitRecords { listing }),
        ensures
            (r.0@, r.1@) == next(self.config, PhaseView::AwaitRecords { listing }, event@),
            phase_ok(r.0@),
    {
        match event {
            Event::Records(Err(m)) => reply_with(Err(CoreError::Store(m))),
            Event::Records(Ok(recs)) => match decode_records(&recs) {
                Err(e) => reply_with(Err(e)),
                Ok(xs) => self.listed_exec(listing, xs),
            },
            _ => unexpected_event(),
        }
    }

    fn on_parent(&self, parent: u128, write: PendingWrite, event: Event) -> (r: (Phase, Command))
        ensures
            (r.0@, r.1@) == next(self.config, PhaseView::CheckParent { parent, write: write@ }, event@),
            phase_ok(r.0@),
    {
        match event {
            Event::Record(Err(m)) => reply_with(Err(CoreError::Store(m))),
            Event::Record(Ok(None)) => reply_with(Err(CoreError::ParentNotFound(parent))),
            Event::Record(Ok(Some(_))) => issue_write_exec(write),
            _ => unexpected_event(),
        }
    }

    fn on_written(&self, kind: WriteKind, event: Event) -> (r: (Phase, Command))
        ensures
            (r.0@, r.1@) == next(self.config, PhaseView::AwaitWrite { kind }, event@),
            phase_ok(r.0@),
    {
        match event {
            Event::Record(Err(m)) => reply_with(Err(CoreError::Store(m))),
            Event::Record(Ok(None)) => match kind {
                WriteKind::Create => reply_with(Err(CoreError::NothingCreated)),
                _ => reply_with(Ok(Payload::One(None))),
            },
            Event::Record(Ok(Some(rec))) => match decode_record(&rec) {
                Err(e) => reply_with(Err(e)),
                Ok(c) => self.written_exec(kind, c),
            },
            _ => unexpected_event(),
        }
    }

    fn on_index(&self, query: String, attempt: u8, event: Event) -> (r: (Phase, Command))
        requires
            attempt <= INDEX_ATTEMPTS,
        ensures
            (r.0@, r.1@) == next(self.config, PhaseView::AwaitIndex { query, attempt }, event@),
            phase_ok(r.0@),
    {
        match event {
            Event::IndexOpened(true) => (Phase::AwaitHits, Command::SearchIndex { query }),
            Event::IndexOpened(false) => if attempt < INDEX_ATTEMPTS {
                self.begin_listing_exec(Listing::Refresh { query, attempt })
            } else {
                reply_with(Err(CoreError::SearchUnavailable))
            },
            _ => unexpected_event(),
        }
    }

    /// The step that `event`, the answer to the last command, causes in `phase`.
    pub fn resume(&self, phase: Phase, event: Event) -> (r: (Phase, Command))
        requires
            phase_ok(phase@),
        ensures
            (r.0@, r.1@) == next(self.config, phase@, event@),
            phase_ok(r.0@),
    {
        match phase {
            Phase::AwaitCachedOne { id } => match event {
                Event::Cached(Some(Payload::One(x))) => reply_with(Ok(Payload::One(x))),
                Event::Cached(_) => (Phase::AwaitRecord { id }, Command::StoreSelect { id }),
                _ => unexpected_event(),
            },
            Phase::AwaitRecord { id } => self.on_record(id, event),
            Phase::AwaitCachedMany { listing } => self.on_cached_many(listing, event),
            Phase::AwaitRecords { listing } => self.on_records(listing, event),
            Phase::AfterListCached { listing, found } => match event {
                Event::Done => self.after_listed_exec(listing, found),
                _ => unexpected_event(),
            },
            Phase::CheckParent { parent, write } => self.on_parent(parent, write, event),
            Phase::AwaitWrite { kind } => self.on_written(kind, event),
            Phase::Finish { outcome } => match event {
                Event::Done => reply_with(outcome),
                _ => unexpected_event(),
            },
            Phase::Reopen { query, attempt } => match event {
                Event::Done => (Phase::AwaitIndex { query, attempt: attempt + 1 }, Command::OpenIndex),
                _ => unexpected_event(),
            },
            Phase::AwaitIndex { query, attempt } => self.on_index(query, attempt, event),
            Phase::AwaitHits => match event {
                Event::Hits(Err(m)) => reply_with(Err(CoreError::SearchFailed(m))),
                Event::Hits(Ok(xs)) => reply_with(Ok(Payload::Many(xs))),
                _ => unexpected_event(),
            },
            Phase::Finished => unexpected_event(),
        }
    }
}

} // verus!
