//! The keys under which query results are cached, and their stable text.
use vstd::prelude::*;

use crate::id::{format_uuid, lemma_uuid_text_chars, lemma_uuid_text_injective, uuid_text};
use crate::text::append_str;

verus! {

/// A cached query: the full listing, the children of a parent (`None`: the
/// roots), or one category.
#[derive(Debug, Clone, Copy, PartialEq, Eq, Structural)]
pub enum CacheKey {
    AllCategories,
    SubCategories { parent: Option<u128> },
    Category { id: u128 },
}

/// The variant part of a key's text.
pub open spec fn key_suffix(k: CacheKey) -> Seq<char> {
    match k {
        CacheKey::AllCategories => "all"@,
        CacheKey::SubCategories { parent } => match parent {
            Some(p) => "parent="@ + uuid_text(p),
            None => "parent="@,
        },
        CacheKey::Category { id } => "id="@ + uuid_text(id),
    }
}

/// The text of a key: `categories:all`, `categories:parent=<id or nothing>`,
/// `categories:id=<id>`.
pub open spec fn key_text(k: CacheKey) -> Seq<char> {
    "categories:"@ + key_suffix(k)
}

impl CacheKey {
    /// The text of this key, as the cache stores it.
    pub fn to_key_string(&self) -> (r: String)
        ensures
            r@ == key_text(*self),
    {
        let mut s = String::new();
        append_str(&mut s, "categories:");
        match self {
            CacheKey::AllCategories => {
                append_str(&mut s, "all");
            },
            CacheKey::SubCategories { parent } => {
                append_str(&mut s, "parent=");
                match parent {
                    Some(p) => {
                        let t = format_uuid(*p);
                        append_str(&mut s, t.as_str());
                    },
                    None => {},
                }
            },
            CacheKey::Category { id } => {
                append_str(&mut s, "id=");
                let t = format_uuid(*id);
                append_str(&mut s, t.as_str());
            },
        }
        proof {
            assert(Seq::<char>::empty() + "categories:"@ =~= "categories:"@);
            assert(key_text(*self) =~= s@);
        }
        s
    }
}

/// Distinct keys have distinct texts, so deleting one key's text never
/// touches another key's entry.
pub proof fn lemma_key_text_injective(a: CacheKey, b: CacheKey)
    requires
        key_text(a) == key_text(b),
    ensures
        a == b,
{
    reveal_strlit("categories:");
    reveal_strlit("all");
    reveal_strlit("parent=");
    reveal_strlit("id=");
    let pa = key_text(a);
    let pb = key_text(b);
    assert(key_suffix(a) =~= pa.subrange(11, pa.len() as int));
    assert(key_suffix(b) =~= pb.subrange(11, pb.len() as int));
    let sa = key_suffix(a);
    let sb = key_suffix(b);
    assert(sa == sb);
    match (a, b) {
        (CacheKey::SubCategories { parent: Some(p) }, CacheKey::SubCategories { parent: Some(q) }) => {
            assert(uuid_text(p) =~= sa.subrange(7, sa.len() as int));
            assert(uuid_text(q) =~= sb.subrange(7, sb.len() as int));
            lemma_uuid_text_injective(p, q);
        },
        (CacheKey::SubCategories { parent: Some(p) }, CacheKey::SubCategories { parent: None }) => {
            lemma_uuid_text_chars(p);
            assert(sa.len() != sb.len());
        },
        (CacheKey::SubCategories { parent: None }, CacheKey::SubCategories { parent: Some(q) }) => {
            lemma_uuid_text_chars(q);
            assert(sa.len() != sb.len());
        },
        (CacheKey::Category { id: p }, CacheKey::Category { id: q }) => {
            assert(uuid_text(p) =~= sa.subrange(3, sa.len() as int));
            assert(uuid_text(q) =~= sb.subrange(3, sb.len() as int));
            lemma_uuid_text_injective(p, q);
        },
        _ => {
            assert(sa[0] == sb[0]);
        },
    }
}

} // verus!
