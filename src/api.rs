//! The operations that the API layer exposes: queries, mutations and the
//! change notifications that subscribers receive.
use vstd::prelude::*;

use crate::codec::{categories_view, opt_text, Category, CategoryView};
use crate::error::CoreError;
use crate::pagination::{is_page_of, paginate, Page, Params, MAX_PAGE_SIZE};
use crate::service::{begin_spec, phase_ok, CategoryService, Command, Operation, Payload, Phase};

verus! {

/// Where the primary store is reached, and as whom.
#[derive(Debug, Clone, Copy)]
pub struct DatabaseCredentials<'a> {
    pub db_dsn: &'a str,
    pub db_user: &'a str,
    pub db_pass: &'a str,
    pub db_ns: &'a str,
    pub db: &'a str,
}

/// The kind of change a mutation made.
#[derive(Debug, Clone, Copy, PartialEq, Eq, Structural)]
pub enum MutationType {
    Created,
    Updated,
    Deleted,
}

/// A notification that a category changed.
#[derive(Debug, Clone, Copy, PartialEq, Eq, Structural)]
pub struct CategoryChanged {
    pub mutation_type: MutationType,
    pub id: u128,
}

/// The read operations.
pub struct CategoryQuery {
    pub service: CategoryService,
}

impl CategoryQuery {
    pub fn new(service: CategoryService) -> (r: Self)
        ensures
            r.service == service,
    {
        CategoryQuery { service }
    }

    /// Starts the full listing.
    pub fn categories(&self) -> (r: (Phase, Command))
        ensures
            (r.0@, r.1@) == begin_spec(self.service.config, Operation::ReadAll, 0),
            phase_ok(r.0@),
    {
        self.service.begin(Operation::ReadAll, 0)
    }

    /// Starts the listing of the children of `parent_id` (`None`: the roots).
    pub fn sub_categories(&self, parent_id: Option<String>) -> (r: (Phase, Command))
        ensures
            (r.0@, r.1@) == begin_spec(self.service.config, Operation::ReadChildren { parent: parent_id }, 0),
            phase_ok(r.0@),
    {
        self.service.begin(Operation::ReadChildren { parent: parent_id }, 0)
    }

    /// Starts the read of one category.
    pub fn category_by_id(&self, id: String) -> (r: (Phase, Command))
        ensures
            (r.0@, r.1@) == begin_spec(self.service.config, Operation::ReadById { id }, 0),
            phase_ok(r.0@),
    {
        self.service.begin(Operation::ReadById { id }, 0)
    }

    /// Starts a search of the index.
    pub fn search(&self, query: String) -> (r: (Phase, Command))
        ensures
            (r.0@, r.1@) == begin_spec(self.service.config, Operation::Search { query }, 0),
            phase_ok(r.0@),
    {
        self.service.begin(Operation::Search { query }, 0)
    }

    /// The page of a listing that the connection parameters ask for, with
    /// pages of at most `MAX_PAGE_SIZE` items.
    pub fn connection(items: Vec<Category>, params: Params) -> (r: Result<Page<Category>, CoreError>)
        ensures
            is_page_of(items@, params, MAX_PAGE_SIZE as nat, r),
    {
        paginate(items, params, MAX_PAGE_SIZE)
    }
}

/// The write operations.
pub struct CategoryMutation {
    pub service: CategoryService,
}

/// The notification that a finished write gives: one for each entity that it
/// created, changed or removed, none for a failed write or a missing entity.
pub open spec fn change_of(kind: MutationType, outcome: Result<Payload, CoreError>) -> Option<CategoryChanged> {
    match outcome {
        Ok(Payload::One(Some(c))) => Some(CategoryChanged { mutation_type: kind, id: c.id }),
        _ => None,
    }
}

impl CategoryMutation {
    pub fn new(service: CategoryService) -> (r: Self)
        ensures
            r.service == service,
    {
        CategoryMutation { service }
    }

    /// Starts the create of `input`, under a fresh identifier.
    pub fn create_category(&self, input: Category) -> (r: (Phase, Command))
        ensures
            exists|fresh: u128|
                (r.0@, r.1@) == begin_spec(self.service.config, Operation::Create { category: input }, fresh),
            phase_ok(r.0@),
    {
        self.service.start(Operation::Create { category: input })
    }

    /// Starts the update of category `id` with `input`.
    pub fn update_category(&self, id: String, input: Category) -> (r: (Phase, Command))
        ensures
            (r.0@, r.1@) == begin_spec(self.service.config, Operation::Update { id, data: input }, 0),
            phase_ok(r.0@),
    {
        self.service.begin(Operation::Update { id, data: input }, 0)
    }

    /// Starts the delete of category `id`.
    pub fn delete_category(&self, id: String) -> (r: (Phase, Command))
        ensures
            (r.0@, r.1@) == begin_spec(self.service.config, Operation::Delete { id }, 0),
            phase_ok(r.0@),
    {
        self.service.begin(Operation::Delete { id }, 0)
    }

    /// The notification to publish once a write of `kind` has replied `outcome`.
    pub fn changed(kind: MutationType, outcome: &Result<Payload, CoreError>) -> (r: Option<CategoryChanged>)
        ensures
            r == change_of(kind, *outcome),
    {
        match outcome {
            Ok(Payload::One(Some(c))) => Some(CategoryChanged { mutation_type: kind, id: c.id }),
            _ => None,
        }
    }
}

/// A subscription to change notifications, of one kind or of all kinds.
#[derive(Debug, Clone, Copy, PartialEq, Eq, Structural)]
pub struct CategorySubscription {
    pub mutation_type: Option<MutationType>,
}

impl CategorySubscription {
    pub fn categories(mutation_type: Option<MutationType>) -> (r: Self)
        ensures
            r.mutation_type == mutation_type,
    {
        CategorySubscription { mutation_type }
    }

    /// Whether this subscription receives `event`.
    pub fn accepts(&self, event: &CategoryChanged) -> (r: bool)
        ensures
            r == match self.mutation_type {
                Some(t) => event.mutation_type == t,
                None => true,
            },
    {
        match self.mutation_type {
            Some(t) => event.mutation_type == t,
            None => true,
        }
    }
}

/// The parent identifiers that search hits name, in order.
pub open spec fn parent_ids(hits: Seq<CategoryView>) -> Seq<u128>
    decreases hits.len(),
{
    if hits.len() == 0 {
        seq![]
    } else {
        let rest = parent_ids(hits.drop_last());
        match hits.last().parent_id {
            Some(p) => rest.push(p),
            None => rest,
        }
    }
}

/// The name of the first of `parents` whose identifier is `id`.
pub open spec fn name_of(parents: Seq<CategoryView>, id: u128) -> Option<Seq<char>>
    decreases parents.len(),
{
    if parents.len() == 0 {
        None
    } else if parents[0].id == id {
        Some(parents[0].name)
    } else {
        name_of(parents.drop_first(), id)
    }
}

/// The identifiers of the parents of search hits, to be fetched for their names.
pub fn parent_ids_of(hits: &Vec<Category>) -> (r: Vec<u128>)
    ensures
        r@ == parent_ids(categories_view(hits@)),
{
    let ghost hv = categories_view(hits@);
    let mut out: Vec<u128> = Vec::new();
    let mut i: usize = 0;
    while i < hits.len()
        invariant
            hv == categories_view(hits@),
            i <= hits@.len(),
            out@ == parent_ids(hv.subrange(0, i as int)),
        decreases hits@.len() - i,
    {
        proof {
            assert(hv.subrange(0, i + 1).drop_last() =~= hv.subrange(0, i as int));
        }
        match hits[i].parent_id {
            Some(p) => out.push(p),
            None => {},
        }
        i = i + 1;
    }
    proof {
        assert(hv.subrange(0, hits@.len() as int) =~= hv);
    }
    out
}

fn find_name(parents: &Vec<Category>, id: u128) -> (r: Option<String>)
    ensures
        opt_text(r) == name_of(categories_view(parents@), id),
{
    let ghost pv = categories_view(parents@);
    let mut i: usize = 0;
    proof {
        assert(pv.subrange(0, pv.len() as int) =~= pv);
    }
    while i < parents.len()
        invariant
            pv == categories_view(parents@),
            i <= parents@.len(),
            name_of(pv, id) == name_of(pv.subrange(i as int, pv.len() as int), id),
        decreases parents@.len() - i,
    {
        proof {
            assert(pv.subrange(i as int, pv.len() as int).drop_first() =~= pv.subrange(
                i + 1,
                pv.len() as int,
            ));
        }
        if parents[i].id == id {
            return Some(parents[i].name.clone());
        }
        i = i + 1;
    }
    None
}

/// Pairs each search hit with the name of its parent, looked up among
/// `parents`; a hit without a parent, or whose parent is not among them, gets
/// `None`.
pub fn with_parent_names(hits: &Vec<Category>, parents: &Vec<Category>) -> (r: Vec<(Category, Option<String>)>)
    ensures
        r@.len() == hits@.len(),
        forall|i: int|
            0 <= i < hits@.len() ==> {
                &&& (#[trigger] r@[i]).0@ == hits@[i]@
                &&& opt_text(r@[i].1) == match hits@[i].parent_id {
                    Some(p) => name_of(categories_view(parents@), p),
                    None => None,
                }
            },
{
    let mut out: Vec<(Category, Option<String>)> = Vec::new();
    let mut i: usize = 0;
    while i < hits.len()
        invariant
            i <= hits@.len(),
            out@.len() == i,
            forall|j: int|
                0 <= j < i ==> {
                    &&& (#[trigger] out@[j]).0@ == hits@[j]@
                    &&& opt_text(out@[j].1) == match hits@[j].parent_id {
                        Some(p) => name_of(categories_view(parents@), p),
                        None => None,
                    }
                },
        decreases hits@.len() - i,
    {
        let name = match hits[i].parent_id {
            Some(p) => find_name(parents, p),
            None => None,
        };
        out.push((hits[i].duplicate(), name));
        i = i + 1;
    }
    out
}

/// The root of the read operations.
pub struct Query(pub CategoryQuery);

/// The root of the write operations.
pub struct Mutation(pub CategoryMutation);

/// The root of the change notifications.
pub struct Subscription(pub CategorySubscription);

} // verus!
