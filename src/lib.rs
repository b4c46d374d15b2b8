//! Data-access layer for a tree of categories: identifiers, the entity codec,
//! cache keys, cursor pagination, and the category service's decisions, with a
//! model of the backends under which its laws are proved.

mod api;
mod cache_keys;
mod codec;
mod error;
mod id;
mod model;
mod pagination;
mod service;
mod text;

pub use api::{
    change_of, parent_ids_of, with_parent_names, CategoryChanged, CategoryMutation, CategoryQuery, CategorySubscription,
    DatabaseCredentials, Mutation, MutationType, Query, Subscription,
};
pub use cache_keys::{key_text, lemma_key_text_injective, CacheKey};
pub use codec::{
    decode_record, decode_references, duplicate_all, encode_input, lemma_codec_round_trip,
    reference_of, Category, CategoryView, RecordId, RecordInput, StoreRecord,
};
pub use error::{CoreError, ValidationError};
pub use id::{
    is_blank, lemma_uuid_text_injective, lemma_uuid_text_round_trip,
    parse_category_id,
};
pub use model::{
    lemma_blank_id_rejected, lemma_invalidate_idempotent, lemma_missing_parent,
    lemma_read_after_create, lemma_read_after_delete, Backends,
};
pub use pagination::{
    decode_cursor, encode_cursor, lemma_cursor_round_trip, lemma_page_size_bound, paginate, Page,
    Params, MAX_PAGE_SIZE,
};
pub use service::{
    decode_records, CategoryService, Command, Event, Listing, Operation, Payload, PendingWrite,
    Phase, ServiceConfig, WriteKind, INDEX_ATTEMPTS,
};
