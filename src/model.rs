//! A model of the backends, and the laws that the service keeps when the store
//! behaves as a map of records and the cache as a map of results.
use vstd::prelude::*;

use crate::cache_keys::CacheKey;
use crate::codec::{
    input_of, lemma_codec_round_trip, reference, stored, Category, CategoryView, StoreRecordView,
};
use crate::error::ValidationError;
use crate::id::{blank, is_space, lemma_uuid_text_chars, lemma_uuid_text_round_trip, uuid_text};
use crate::service::{
    begin_spec, invalidated_keys, next, CommandView, CoreErrorView, EventView, Operation,
    PayloadView, PhaseView, ServiceConfig, WriteKind,
};

verus! {

/// The state of the backends: the store's records by identifier, the cache's
/// entries by key, and whether the search index exists.
pub struct Backends {
    pub store: Map<u128, StoreRecordView>,
    pub cache: Map<CacheKey, PayloadView>,
    pub index_ready: bool,
}

pub open spec fn lookup<K, V>(m: Map<K, V>, k: K) -> Option<V> {
    if m.contains_key(k) {
        Some(m[k])
    } else {
        None
    }
}

/// The cache after a batch deletion of `keys`.
pub open spec fn forget(cache: Map<CacheKey, PayloadView>, keys: Seq<CacheKey>) -> Map<CacheKey, PayloadView> {
    cache.remove_keys(keys.to_set())
}

/// The records a listing selects: all of them (`None`), or those whose parent
/// address is the given one.
pub open spec fn selects(filter: Option<Option<u128>>, r: StoreRecordView) -> bool {
    match filter {
        None => true,
        Some(None) => r.parent_id is None,
        Some(Some(p)) => r.parent_id == Some(reference(p)),
    }
}

/// The answer to a listing: each selected record once, in some order.
pub open spec fn listing(store: Map<u128, StoreRecordView>, filter: Option<Option<u128>>) -> Seq<StoreRecordView> {
    choose|s: Seq<StoreRecordView>|
        s.no_duplicates() && forall|r: StoreRecordView|
            s.contains(r) <==> (store.values().contains(r) && selects(filter, r))
}

/// What the backends make of a command.
pub open spec fn respond(env: Backends, cmd: CommandView) -> (Backends, EventView) {
    match cmd {
        CommandView::CacheGet { key } => (env, EventView::Cached(lookup(env.cache, key))),
        CommandView::CacheSet { key, value, .. } => (
            Backends { cache: env.cache.insert(key, value), ..env },
            EventView::Done,
        ),
        CommandView::CacheDelete { keys } => (
            Backends { cache: forget(env.cache, keys), ..env },
            EventView::Done,
        ),
        CommandView::StoreSelect { id } => (env, EventView::Record(Ok(lookup(env.store, id)))),
        CommandView::StoreSelectAll => (env, EventView::Records(Ok(listing(env.store, None)))),
        CommandView::StoreSelectChildren { parent } => (
            env,
            EventView::Records(Ok(listing(env.store, Some(parent)))),
        ),
        CommandView::StoreCreate { id, input } => (
            Backends { store: env.store.insert(id, stored(id, input)), ..env },
            EventView::Record(Ok(Some(stored(id, input)))),
        ),
        CommandView::StoreUpdate { id, input } => if env.store.contains_key(id) {
            (
                Backends { store: env.store.insert(id, stored(id, input)), ..env },
                EventView::Record(Ok(Some(stored(id, input)))),
            )
        } else {
            (env, EventView::Record(Ok(None)))
        },
        CommandView::StoreDelete { id } => (
            Backends { store: env.store.remove(id), ..env },
            EventView::Record(Ok(lookup(env.store, id))),
        ),
        CommandView::IndexDocuments { .. } => (Backends { index_ready: true, ..env }, EventView::Done),
        CommandView::OpenIndex => (env, EventView::IndexOpened(env.index_ready)),
        CommandView::SearchIndex { .. } => (env, EventView::Hits(Ok(Seq::empty()))),
        CommandView::Reply { .. } => (env, EventView::Done),
    }
}

/// Runs the machine against the backends for at most `fuel` commands: the
/// backends' final state and the reply, if one came.
pub open spec fn run(
    cfg: ServiceConfig,
    phase: PhaseView,
    cmd: CommandView,
    env: Backends,
    fuel: nat,
) -> Option<(Backends, Result<PayloadView, CoreErrorView>)>
    decreases fuel,
{
    match cmd {
        CommandView::Reply { outcome } => Some((env, outcome)),
        _ => if fuel == 0 {
            None
        } else {
            let (env2, ev) = respond(env, cmd);
            let (phase2, cmd2) = next(cfg, phase, ev);
            run(cfg, phase2, cmd2, env2, (fuel - 1) as nat)
        },
    }
}

/// An operation carried out from start to reply; `fresh` is the identifier a
/// create draws.
pub open spec fn perform(cfg: ServiceConfig, op: Operation, fresh: u128, env: Backends) -> Option<
    (Backends, Result<PayloadView, CoreErrorView>),
> {
    let (p, c) = begin_spec(cfg, op, fresh);
    run(cfg, p, c, env, 16)
}

/// The reply of a run, if one came.
pub open spec fn reply_of(r: Option<(Backends, Result<PayloadView, CoreErrorView>)>) -> Option<
    Result<PayloadView, CoreErrorView>,
> {
    match r {
        Some((_, o)) => Some(o),
        None => None,
    }
}

/// The backends after a run that replied (else as they were).
pub open spec fn state_after(r: Option<(Backends, Result<PayloadView, CoreErrorView>)>, env: Backends) -> Backends {
    match r {
        Some((e, _)) => e,
        None => env,
    }
}

proof fn lemma_uuid_text_not_blank(v: u128)
    ensures
        !blank(uuid_text(v)),
{
    lemma_uuid_text_chars(v);
    let c = uuid_text(v)[0];
    assert(c == '-' || crate::id::hex_digit_value(c) is Some);
    assert(!is_space(c));
}

/// Deleting a batch of cache keys twice leaves the cache as deleting it once.
pub proof fn lemma_invalidate_idempotent(env: Backends, keys: Seq<CacheKey>)
    ensures
        respond(respond(env, CommandView::CacheDelete { keys }).0, CommandView::CacheDelete { keys })
            == respond(env, CommandView::CacheDelete { keys }),
{
    let once = forget(env.cache, keys);
    assert(forget(once, keys) =~= once);
}

/// A blank identifier is rejected with `EmptyIdentifier` before any command
/// reaches a backend.
pub proof fn lemma_blank_id_rejected(cfg: ServiceConfig, id: String, fresh: u128)
    requires
        blank(id@),
    ensures
        begin_spec(cfg, Operation::ReadById { id }, fresh) == (
            PhaseView::Finished,
            CommandView::Reply {
                outcome: Err(CoreErrorView::Validation(ValidationError::EmptyIdentifier)),
            },
        ),
{
}

/// A create or an update that names a parent the store does not hold fails
/// with `ParentNotFound`, and neither the store nor the cache changes.
pub proof fn lemma_missing_parent(cfg: ServiceConfig, op: Operation, fresh: u128, env: Backends, parent: u128)
    requires
        match op {
            Operation::Create { category } => category.parent_id == Some(parent),
            Operation::Update { id, data } => data.parent_id == Some(parent) && !blank(id@)
                && crate::id::uuid_of_text(id@) is Some,
            _ => false,
        },
        !env.store.contains_key(parent),
    ensures
        perform(cfg, op, fresh, env) == Some((env, Err::<PayloadView, CoreErrorView>(CoreErrorView::ParentNotFound(parent)))),
{
    let (phase, cmd) = begin_spec(cfg, op, fresh);
    let (after_check, found) = respond(env, cmd);
    let (next_phase, next_cmd) = next(cfg, phase, found);
    assert(run(cfg, phase, cmd, env, 16) == run(cfg, next_phase, next_cmd, after_check, 15));
    assert(run(cfg, next_phase, next_cmd, after_check, 15) == Some(
        (env, Err::<PayloadView, CoreErrorView>(CoreErrorView::ParentNotFound(parent))),
    ));
}

/// The entity that a create of `c` under identifier `fresh` makes.
pub open spec fn created(c: Category, fresh: u128) -> CategoryView {
    CategoryView { id: fresh, ..c@ }
}

proof fn lemma_create_stores(cfg: ServiceConfig, c: Category, fresh: u128, env: Backends)
    requires
        !env.cache.contains_key(CacheKey::Category { id: fresh }),
        c.parent_id matches Some(p) ==> env.store.contains_key(p),
    ensures
        reply_of(perform(cfg, Operation::Create { category: c }, fresh, env)) == Some(
            Ok::<PayloadView, CoreErrorView>(PayloadView::One(Some(created(c, fresh)))),
        ),
        ({
            let made = state_after(perform(cfg, Operation::Create { category: c }, fresh, env), env);
            &&& made.store.contains_key(fresh)
            &&& made.store[fresh] == stored(fresh, input_of(c@))
            &&& !made.cache.contains_key(CacheKey::Category { id: fresh })
        }),
{
    lemma_codec_round_trip(fresh, c@);
    reveal_with_fuel(run, 4);
}

proof fn lemma_read_stored(cfg: ServiceConfig, id: String, fresh: u128, env: Backends, c: CategoryView)
    requires
        env.store.contains_key(fresh),
        env.store[fresh] == stored(fresh, input_of(c)),
        !env.cache.contains_key(CacheKey::Category { id: fresh }),
        id@ == uuid_text(fresh),
    ensures
        reply_of(perform(cfg, Operation::ReadById { id }, fresh, env)) == Some(
            Ok::<PayloadView, CoreErrorView>(PayloadView::One(Some(CategoryView { id: fresh, ..c }))),
        ),
{
    lemma_codec_round_trip(fresh, c);
    lemma_uuid_text_round_trip(fresh);
    lemma_uuid_text_not_blank(fresh);
    reveal_with_fuel(run, 4);
}

proof fn lemma_read_absent(cfg: ServiceConfig, id: String, fresh: u128, env: Backends)
    requires
        !env.store.contains_key(fresh),
        !env.cache.contains_key(CacheKey::Category { id: fresh }),
        id@ == uuid_text(fresh),
    ensures
        reply_of(perform(cfg, Operation::ReadById { id }, fresh, env)) == Some(
            Ok::<PayloadView, CoreErrorView>(PayloadView::One(None)),
        ),
{
    lemma_uuid_text_round_trip(fresh);
    lemma_uuid_text_not_blank(fresh);
    reveal_with_fuel(run, 4);
}

proof fn lemma_delete_stored(cfg: ServiceConfig, id: String, fresh: u128, env: Backends, c: CategoryView)
    requires
        env.store.contains_key(fresh),
        env.store[fresh] == stored(fresh, input_of(c)),
        id@ == uuid_text(fresh),
    ensures
        reply_of(perform(cfg, Operation::Delete { id }, fresh, env)) == Some(
            Ok::<PayloadView, CoreErrorView>(PayloadView::One(Some(CategoryView { id: fresh, ..c }))),
        ),
        ({
            let gone = state_after(perform(cfg, Operation::Delete { id }, fresh, env), env);
            &&& !gone.store.contains_key(fresh)
            &&& (env.cache.contains_key(CacheKey::Category { id: fresh }) ==> cfg.cache_ttl is Some)
                ==> !gone.cache.contains_key(CacheKey::Category { id: fresh })
            &&& cfg.cache_ttl is Some ==> !gone.cache.contains_key(CacheKey::AllCategories)
        }),
{
    lemma_codec_round_trip(fresh, c);
    lemma_uuid_text_round_trip(fresh);
    lemma_uuid_text_not_blank(fresh);
    let keys = invalidated_keys(WriteKind::Delete, CategoryView { id: fresh, ..c });
    assert(keys[0] == CacheKey::AllCategories);
    assert(keys[2] == CacheKey::Category { id: fresh });
    assert(keys.contains(CacheKey::AllCategories));
    assert(keys.contains(CacheKey::Category { id: fresh }));
    reveal_with_fuel(run, 4);
}

/// The create of `c`, whose parent (if any) exists, succeeds with `c` under
/// the fresh identifier; and reading that identifier right after returns
/// the same entity.
pub proof fn lemma_read_after_create(cfg: ServiceConfig, c: Category, fresh: u128, id: String, env: Backends)
    requires
        !env.cache.contains_key(CacheKey::Category { id: fresh }),
        c.parent_id matches Some(p) ==> env.store.contains_key(p),
        id@ == uuid_text(fresh),
    ensures
        reply_of(perform(cfg, Operation::Create { category: c }, fresh, env)) == Some(
            Ok::<PayloadView, CoreErrorView>(PayloadView::One(Some(created(c, fresh)))),
        ),
        reply_of(
            perform(
                cfg,
                Operation::ReadById { id },
                fresh,
                state_after(perform(cfg, Operation::Create { category: c }, fresh, env), env),
            ),
        ) == Some(Ok::<PayloadView, CoreErrorView>(PayloadView::One(Some(created(c, fresh))))),
{
    lemma_create_stores(cfg, c, fresh, env);
    let made = state_after(perform(cfg, Operation::Create { category: c }, fresh, env), env);
    lemma_read_stored(cfg, id, fresh, made, c@);
}

/// After a create and a delete of the created entity, the delete hands back
/// that entity, reading it returns `None`, and, where a cache is wired, the
/// full listing is no longer cached.
pub proof fn lemma_read_after_delete(cfg: ServiceConfig, c: Category, fresh: u128, id: String, env: Backends)
    requires
        !env.cache.contains_key(CacheKey::Category { id: fresh }),
        c.parent_id matches Some(p) ==> env.store.contains_key(p),
        id@ == uuid_text(fresh),
    ensures
        ({
            let made = state_after(perform(cfg, Operation::Create { category: c }, fresh, env), env);
            let gone = state_after(perform(cfg, Operation::Delete { id }, fresh, made), made);
            &&& reply_of(perform(cfg, Operation::Delete { id }, fresh, made)) == Some(
                Ok::<PayloadView, CoreErrorView>(PayloadView::One(Some(created(c, fresh)))),
            )
            &&& cfg.cache_ttl is Some ==> !gone.cache.contains_key(CacheKey::AllCategories)
            &&& reply_of(perform(cfg, Operation::ReadById { id }, fresh, gone)) == Some(
                Ok::<PayloadView, CoreErrorView>(PayloadView::One(None)),
            )
        }),
{
    lemma_create_stores(cfg, c, fresh, env);
    let made = state_after(perform(cfg, Operation::Create { category: c }, fresh, env), env);
    lemma_delete_stored(cfg, id, fresh, made, c@);
    let gone = state_after(perform(cfg, Operation::Delete { id }, fresh, made), made);
    lemma_read_absent(cfg, id, fresh, gone);
}

} // verus!
