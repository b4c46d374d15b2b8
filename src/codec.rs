//! The entity codec: store records, addressed by `(collection, key)`, to and
//! from the domain `Category`, addressed by UUID.
use vstd::prelude::*;

use crate::error::CoreError;
use crate::id::{
    format_uuid, hex_digit_value, lemma_uuid_text_chars, lemma_uuid_text_round_trip, parse_uuid,
    uuid_of_text, uuid_text,
};
use crate::text::{append_str, push_char};

verus! {

/// The collection that holds categories.
pub open spec fn category_table() -> Seq<char> {
    "category"@
}

/// A store address: a collection and the key's raw text as the store renders it.
#[derive(Debug, Clone, PartialEq, Eq)]
pub struct RecordId {
    pub table: String,
    pub key: String,
}

pub struct RecordIdView {
    pub table: Seq<char>,
    pub key: Seq<char>,
}

impl View for RecordId {
    type V = RecordIdView;

    open spec fn view(&self) -> RecordIdView {
        RecordIdView { table: self.table@, key: self.key@ }
    }
}

/// A category as the store holds it.
#[derive(Debug, Clone, PartialEq, Eq)]
pub struct StoreRecord {
    pub id: RecordId,
    pub name: String,
    pub sub_categories: Vec<RecordId>,
    pub image_url: Option<String>,
    pub parent_id: Option<RecordId>,
}

pub struct StoreRecordView {
    pub id: RecordIdView,
    pub name: Seq<char>,
    pub sub_categories: Seq<RecordIdView>,
    pub image_url: Option<Seq<char>>,
    pub parent_id: Option<RecordIdView>,
}

pub open spec fn opt_text(o: Option<String>) -> Option<Seq<char>> {
    match o {
        Some(s) => Some(s@),
        None => None,
    }
}

pub open spec fn opt_record_id(o: Option<RecordId>) -> Option<RecordIdView> {
    match o {
        Some(r) => Some(r@),
        None => None,
    }
}

pub open spec fn record_ids_view(v: Seq<RecordId>) -> Seq<RecordIdView> {
    v.map_values(|r: RecordId| r@)
}

impl View for StoreRecord {
    type V = StoreRecordView;

    open spec fn view(&self) -> StoreRecordView {
        StoreRecordView {
            id: self.id@,
            name: self.name@,
            sub_categories: record_ids_view(self.sub_categories@),
            image_url: opt_text(self.image_url),
            parent_id: opt_record_id(self.parent_id),
        }
    }
}

/// What a create or an update hands to the store: a record without its address.
#[derive(Debug, Clone, PartialEq, Eq)]
pub struct RecordInput {
    pub name: String,
    pub sub_categories: Vec<RecordId>,
    pub image_url: Option<String>,
    pub parent_id: Option<RecordId>,
}

pub struct RecordInputView {
    pub name: Seq<char>,
    pub sub_categories: Seq<RecordIdView>,
    pub image_url: Option<Seq<char>>,
    pub parent_id: Option<RecordIdView>,
}

impl View for RecordInput {
    type V = RecordInputView;

    open spec fn view(&self) -> RecordInputView {
        RecordInputView {
            name: self.name@,
            sub_categories: record_ids_view(self.sub_categories@),
            image_url: opt_text(self.image_url),
            parent_id: opt_record_id(self.parent_id),
        }
    }
}

/// The domain entity. `parent_id` is `None` for a root.
#[derive(Debug, Clone, PartialEq, Eq)]
pub struct Category {
    pub id: u128,
    pub name: String,
    pub sub_categories: Vec<u128>,
    pub image_url: Option<String>,
    pub parent_id: Option<u128>,
}

pub struct CategoryView {
    pub id: u128,
    pub name: Seq<char>,
    pub sub_categories: Seq<u128>,
    pub image_url: Option<Seq<char>>,
    pub parent_id: Option<u128>,
}

impl View for Category {
    type V = CategoryView;

    open spec fn view(&self) -> CategoryView {
        CategoryView {
            id: self.id,
            name: self.name@,
            sub_categories: self.sub_categories@,
            image_url: opt_text(self.image_url),
            parent_id: self.parent_id,
        }
    }
}

pub open spec fn categories_view(v: Seq<Category>) -> Seq<CategoryView> {
    v.map_values(|c: Category| c@)
}

impl Category {
    /// A copy of this category.
    pub fn duplicate(&self) -> (r: Category)
        ensures
            r@ == self@,
    {
        let mut subs: Vec<u128> = Vec::new();
        let mut i: usize = 0;
        while i < self.sub_categories.len()
            invariant
                i <= self.sub_categories@.len(),
                subs@ == self.sub_categories@.subrange(0, i as int),
            decreases self.sub_categories@.len() - i,
        {
            subs.push(self.sub_categories[i]);
            i = i + 1;
            proof {
                assert(subs@ =~= self.sub_categories@.subrange(0, i as int));
            }
        }
        proof {
            assert(subs@ =~= self.sub_categories@);
        }
        let image_url = match &self.image_url {
            Some(u) => Some(u.clone()),
            None => None,
        };
        Category {
            id: self.id,
            name: self.name.clone(),
            sub_categories: subs,
            image_url,
            parent_id: self.parent_id,
        }
    }
}

/// A copy of a list of categories.
pub fn duplicate_all(v: &Vec<Category>) -> (r: Vec<Category>)
    ensures
        categories_view(r@) == categories_view(v@),
{
    let mut out: Vec<Category> = Vec::new();
    let mut i: usize = 0;
    while i < v.len()
        invariant
            i <= v@.len(),
            out@.len() == i,
            forall|j: int| 0 <= j < i ==> (#[trigger] out@[j])@ == v@[j]@,
        decreases v@.len() - i,
    {
        out.push(v[i].duplicate());
        i = i + 1;
    }
    proof {
        assert(categories_view(out@) =~= categories_view(v@));
    }
    out
}

/// The identifier text inside a raw key: what precedes the first `:`, without
/// the `⟨` `⟩` escape brackets.
pub open spec fn key_core(s: Seq<char>) -> Seq<char>
    decreases s.len(),
{
    if s.len() == 0 || s[0] == ':' {
        seq![]
    } else if s[0] == '\u{27E8}' || s[0] == '\u{27E9}' {
        key_core(s.drop_first())
    } else {
        seq![s[0]] + key_core(s.drop_first())
    }
}

/// The UUID that a store address carries.
pub open spec fn decode_id(r: RecordIdView) -> Option<u128> {
    uuid_of_text(key_core(r.key))
}

/// The key text of the first address in `s` that carries no UUID.
pub open spec fn first_malformed(s: Seq<RecordIdView>) -> Option<Seq<char>>
    decreases s.len(),
{
    if s.len() == 0 {
        None
    } else if decode_id(s[0]) is None {
        Some(key_core(s[0].key))
    } else {
        first_malformed(s.drop_first())
    }
}

pub open spec fn decode_ids(s: Seq<RecordIdView>) -> Seq<u128> {
    Seq::new(s.len(), |i: int| decode_id(s[i])->Some_0)
}

/// Why a record does not decode: the key text of its first malformed address,
/// in the order id, children, parent.
pub open spec fn record_malformed(r: StoreRecordView) -> Option<Seq<char>> {
    if decode_id(r.id) is None {
        Some(key_core(r.id.key))
    } else if first_malformed(r.sub_categories) is Some {
        first_malformed(r.sub_categories)
    } else {
        match r.parent_id {
            Some(p) => if decode_id(p) is None {
                Some(key_core(p.key))
            } else {
                None
            },
            None => None,
        }
    }
}

/// The category that a well-formed record denotes.
pub open spec fn decoded(r: StoreRecordView) -> CategoryView {
    CategoryView {
        id: decode_id(r.id)->Some_0,
        name: r.name,
        sub_categories: decode_ids(r.sub_categories),
        image_url: r.image_url,
        parent_id: match r.parent_id {
            Some(p) => Some(decode_id(p)->Some_0),
            None => None,
        },
    }
}

/// The outcome of decoding a record.
pub open spec fn decodes_to(r: StoreRecordView, out: Result<Category, CoreError>) -> bool {
    match record_malformed(r) {
        Some(k) => out matches Err(CoreError::MalformedId(m)) && m@ == k,
        None => out matches Ok(c) && c@ == decoded(r),
    }
}

/// The store address of a category.
pub open spec fn reference(v: u128) -> RecordIdView {
    RecordIdView { table: category_table(), key: uuid_text(v) }
}

/// What is handed to the store for a category.
pub open spec fn input_of(c: CategoryView) -> RecordInputView {
    RecordInputView {
        name: c.name,
        sub_categories: c.sub_categories.map_values(|v: u128| reference(v)),
        image_url: c.image_url,
        parent_id: match c.parent_id {
            Some(p) => Some(reference(p)),
            None => None,
        },
    }
}

/// The record that the store holds at address `v` after being handed `i`.
pub open spec fn stored(v: u128, i: RecordInputView) -> StoreRecordView {
    StoreRecordView {
        id: reference(v),
        name: i.name,
        sub_categories: i.sub_categories,
        image_url: i.image_url,
        parent_id: i.parent_id,
    }
}

fn key_core_of(s: &str) -> (r: String)
    ensures
        r@ == key_core(s@),
{
    let n = s.unicode_len();
    let mut out = String::new();
    let mut i: usize = 0;
    proof {
        assert(s@.subrange(0, n as int) =~= s@);
    }
    while i < n
        invariant
            n == s@.len(),
            i <= n,
            out@ + key_core(s@.subrange(i as int, n as int)) == key_core(s@),
        decreases n - i,
    {
        let c = s.get_char(i);
        proof {
            assert(s@.subrange(i as int, n as int).drop_first() =~= s@.subrange(
                i + 1,
                n as int,
            ));
        }
        if c == ':' {
            proof {
                assert(out@ + Seq::<char>::empty() =~= out@);
            }
            return out;
        }
        if c != '\u{27E8}' && c != '\u{27E9}' {
            push_char(&mut out, c);
            proof {
                assert(out@ + key_core(s@.subrange(i + 1, n as int)) =~= (out@.drop_last()
                    + seq![c]) + key_core(s@.subrange(i + 1, n as int)));
            }
        }
        i = i + 1;
    }
    proof {
        assert(out@ + Seq::<char>::empty() =~= out@);
    }
    out
}

/// The UUID of a store address, or the key text that is none.
fn parse_key(r: &RecordId) -> (res: Result<u128, String>)
    ensures
        match decode_id(r@) {
            Some(v) => res == Ok::<u128, String>(v),
            None => res matches Err(k) && k@ == key_core(r.key@),
        },
{
    let k = key_core_of(r.key.as_str());
    match parse_uuid(k.as_str()) {
        Some(v) => Ok(v),
        None => Err(k),
    }
}

/// Decodes a list of addresses, failing on the first that carries no UUID.
pub fn decode_references(s: &Vec<RecordId>) -> (r: Result<Vec<u128>, String>)
    ensures
        match first_malformed(record_ids_view(s@)) {
            Some(k) => r matches Err(m) && m@ == k,
            None => r matches Ok(v) && v@ == decode_ids(record_ids_view(s@)),
        },
{
    let ghost sv = record_ids_view(s@);
    let mut out: Vec<u128> = Vec::new();
    let mut i: usize = 0;
    proof {
        assert(sv.subrange(0, sv.len() as int) =~= sv);
    }
    while i < s.len()
        invariant
            sv == record_ids_view(s@),
            i <= s.len(),
            first_malformed(sv) == first_malformed(sv.subrange(i as int, sv.len() as int)),
            out@.len() == i,
            forall|j: int| 0 <= j < i ==> decode_id(sv[j]) is Some,
            forall|j: int| 0 <= j < i ==> out@[j] == #[trigger] decode_id(sv[j])->Some_0,
        decreases s.len() - i,
    {
        proof {
            assert(sv.subrange(i as int, sv.len() as int).drop_first() =~= sv.subrange(
                i + 1,
                sv.len() as int,
            ));
        }
        match parse_key(&s[i]) {
            Ok(v) => {
                out.push(v);
            },
            Err(k) => {
                return Err(k);
            },
        }
        i = i + 1;
    }
    proof {
        assert(out@ =~= decode_ids(sv));
    }
    Ok(out)
}

/// Decodes a store record into a category; a key that is no UUID gives
/// `MalformedId` with the first such key, in the order id, children, parent.
pub fn decode_record(rec: &StoreRecord) -> (r: Result<Category, CoreError>)
    ensures
        decodes_to(rec@, r),
{
    let id = match parse_key(&rec.id) {
        Ok(v) => v,
        Err(k) => {
            return Err(CoreError::MalformedId(k));
        },
    };
    let sub_categories = match decode_references(&rec.sub_categories) {
        Ok(v) => v,
        Err(k) => {
            return Err(CoreError::MalformedId(k));
        },
    };
    let parent_id = match &rec.parent_id {
        Some(p) => match parse_key(p) {
            Ok(v) => Some(v),
            Err(k) => {
                return Err(CoreError::MalformedId(k));
            },
        },
        None => None,
    };
    let image_url = match &rec.image_url {
        Some(u) => Some(u.clone()),
        None => None,
    };
    Ok(Category { id, name: rec.name.clone(), sub_categories, image_url, parent_id })
}

/// The store address of the category with identifier `v`.
pub fn reference_of(v: u128) -> (r: RecordId)
    ensures
        r@ == reference(v),
{
    let mut table = String::new();
    append_str(&mut table, "category");
    proof {
        assert(Seq::<char>::empty() + "category"@ =~= "category"@);
    }
    RecordId { table, key: format_uuid(v) }
}

/// What the store is handed for a category: its fields, with identifiers as
/// store addresses.
pub fn encode_input(c: &Category) -> (r: RecordInput)
    ensures
        r@ == input_of(c@),
{
    let mut subs: Vec<RecordId> = Vec::new();
    let mut i: usize = 0;
    while i < c.sub_categories.len()
        invariant
            i <= c.sub_categories@.len(),
            subs@.len() == i,
            forall|j: int| 0 <= j < i ==> (#[trigger] subs@[j])@ == reference(c.sub_categories@[j]),
        decreases c.sub_categories@.len() - i,
    {
        subs.push(reference_of(c.sub_categories[i]));
        i = i + 1;
    }
    let parent_id = match c.parent_id {
        Some(p) => Some(reference_of(p)),
        None => None,
    };
    let image_url = match &c.image_url {
        Some(u) => Some(u.clone()),
        None => None,
    };
    let r = RecordInput { name: c.name.clone(), sub_categories: subs, image_url, parent_id };
    proof {
        assert(record_ids_view(r.sub_categories@) =~= c@.sub_categories.map_values(
            |v: u128| reference(v),
        ));
    }
    r
}

proof fn lemma_key_core_of_uuid_text(v: u128)
    ensures
        key_core(uuid_text(v)) == uuid_text(v),
{
    lemma_uuid_text_chars(v);
    let t = uuid_text(v);
    assert forall|i: int| 0 <= i <= 36 implies key_core(#[trigger] t.subrange(i, 36)) == t.subrange(
        i,
        36,
    ) by {
        lemma_key_core_suffix(t, i);
    }
    assert(t.subrange(0, 36) =~= t);
}

proof fn lemma_key_core_suffix(t: Seq<char>, i: int)
    requires
        t.len() == 36,
        0 <= i <= 36,
        forall|j: int| 0 <= j < 36 ==> {
            let c = #[trigger] t[j];
            c == '-' || hex_digit_value(c) is Some
        },
    ensures
        key_core(t.subrange(i, 36)) == t.subrange(i, 36),
    decreases 36 - i,
{
    let s = t.subrange(i, 36);
    if i < 36 {
        lemma_key_core_suffix(t, i + 1);
        assert(s.drop_first() =~= t.subrange(i + 1, 36));
        let c = t[i];
        assert(c == '-' || hex_digit_value(c) is Some);
        assert(s =~= seq![s[0]] + s.drop_first());
    } else {
        assert(s.len() == 0);
    }
}

/// Decoding what the store holds for a category, addressed by `v`, gives back
/// that category with identifier `v`.
pub proof fn lemma_codec_round_trip(v: u128, c: CategoryView)
    ensures
        record_malformed(stored(v, input_of(c))) is None,
        decoded(stored(v, input_of(c))) == (CategoryView { id: v, ..c }),
{
    let r = stored(v, input_of(c));
    lemma_key_core_of_uuid_text(v);
    lemma_uuid_text_round_trip(v);
    let subs = r.sub_categories;
    assert forall|j: int| 0 <= j < subs.len() implies decode_id(#[trigger] subs[j]) == Some(
        c.sub_categories[j],
    ) by {
        lemma_key_core_of_uuid_text(c.sub_categories[j]);
        lemma_uuid_text_round_trip(c.sub_categories[j]);
    }
    lemma_first_malformed_none(subs);
    assert(decode_ids(subs) =~= c.sub_categories);
    match c.parent_id {
        Some(p) => {
            lemma_key_core_of_uuid_text(p);
            lemma_uuid_text_round_trip(p);
        },
        None => {},
    }
}

proof fn lemma_first_malformed_none(s: Seq<RecordIdView>)
    requires
        forall|j: int| 0 <= j < s.len() ==> decode_id(#[trigger] s[j]) is Some,
    ensures
        first_malformed(s) is None,
    decreases s.len(),
{
    if s.len() > 0 {
        assert(decode_id(s[0]) is Some);
        let t = s.drop_first();
        assert forall|j: int| 0 <= j < t.len() implies decode_id(#[trigger] t[j]) is Some by {
            assert(t[j] == s[j + 1]);
        }
        lemma_first_malformed_none(t);
    }
}

} // verus!
