use vstd::prelude::*;

verus! {

/// Why a caller-supplied input was rejected.
#[derive(Debug, Clone, Copy, PartialEq, Eq, Structural)]
pub enum ValidationError {
    /// The identifier is empty or holds only whitespace.
    EmptyIdentifier,
    /// The identifier is not the text of a UUID.
    InvalidIdentifier,
    /// `first` or `last` lies outside `1..=max_page_size`.
    PageSizeOutOfRange,
    /// Both `first` and `last` were given.
    FirstAndLast,
    /// A cursor is not the text of a position in the sequence.
    InvalidCursor,
}

/// Errors of the category data-access layer.
#[derive(Debug, Clone, PartialEq, Eq)]
pub enum CoreError {
    /// Rejected input; never retried.
    Validation(ValidationError),
    /// A write named a parent that the store does not hold.
    ParentNotFound(u128),
    /// The store failed; carries the store's message.
    Store(String),
    /// The store acknowledged a create but handed back no record.
    NothingCreated,
    /// A stored key is not a UUID; carries the offending key text.
    MalformedId(String),
    /// No search backend is wired.
    SearchNotConfigured,
    /// The search index could not be obtained.
    SearchUnavailable,
    /// The search backend failed a query; carries its message.
    SearchFailed(String),
    /// A backend's answer does not fit the command it answers.
    UnexpectedEvent,
}

} // verus!
