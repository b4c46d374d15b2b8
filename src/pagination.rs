//! Relay-style cursor pagination over a fully materialized, ordered sequence.
use vstd::prelude::*;

use crate::error::{CoreError, ValidationError};
use crate::text::push_char;

verus! {

/// The largest page that the category queries hand out.
pub const MAX_PAGE_SIZE: usize = 100;

/// Relay-compliant connection parameters to page results by cursor/page size.
pub struct Params {
    pub after: Option<String>,
    pub before: Option<String>,
    pub first: Option<i32>,
    pub last: Option<i32>,
}

impl Params {
    pub fn new(after: Option<String>, before: Option<String>, first: Option<i32>, last: Option<i32>) -> (r: Self)
        ensures
            r.after == after,
            r.before == before,
            r.first == first,
            r.last == last,
    {
        Params { after, before, first, last }
    }
}

/// One page: the items with their cursors, and whether anything lies beyond
/// either end of the page.
pub struct Page<T> {
    pub items: Vec<T>,
    pub cursors: Vec<String>,
    pub has_previous_page: bool,
    pub has_next_page: bool,
}

pub open spec fn digit_char(d: nat) -> char {
    seq!['0', '1', '2', '3', '4', '5', '6', '7', '8', '9'][d as int]
}

pub open spec fn is_digit(c: char) -> bool {
    48 <= (c as u32) <= 57
}

/// The decimal text of `n`, without leading zeros.
pub open spec fn decimal(n: nat) -> Seq<char>
    decreases n,
{
    if n < 10 {
        seq![digit_char(n)]
    } else {
        decimal(n / 10).push(digit_char(n % 10))
    }
}

/// The value of a run of decimal digits.
pub open spec fn digits_value(s: Seq<char>) -> nat
    decreases s.len(),
{
    if s.len() == 0 {
        0
    } else {
        digits_value(s.drop_last()) * 10 + ((s.last() as u32) - 48) as nat
    }
}

/// The position that a cursor names: canonical decimal text.
pub open spec fn cursor_position(s: Seq<char>) -> Option<nat> {
    if s.len() > 0 && (forall|i: int| 0 <= i < s.len() ==> is_digit(#[trigger] s[i])) && (s.len()
        == 1 || s[0] != '0') {
        Some(digits_value(s))
    } else {
        None
    }
}

/// The position named by an optional cursor over a sequence of `len` items.
pub open spec fn cursor_in(c: Option<String>, len: nat) -> Result<Option<nat>, ValidationError> {
    match c {
        None => Ok(None),
        Some(s) => match cursor_position(s@) {
            Some(p) => if p < len {
                Ok(Some(p))
            } else {
                Err(ValidationError::InvalidCursor)
            },
            None => Err(ValidationError::InvalidCursor),
        },
    }
}

pub open spec fn size_ok(n: Option<i32>, max: nat) -> bool {
    match n {
        Some(k) => 1 <= k && k <= max,
        None => true,
    }
}

/// The half-open range `[lo, hi)` of positions that a request selects from a
/// sequence of `len` items, or why the request is invalid.
pub open spec fn page_bounds(p: Params, len: nat, max: nat) -> Result<(nat, nat), ValidationError> {
    if p.first is Some && p.last is Some {
        Err(ValidationError::FirstAndLast)
    } else if !size_ok(p.first, max) || !size_ok(p.last, max) {
        Err(ValidationError::PageSizeOutOfRange)
    } else {
        match (cursor_in(p.after, len), cursor_in(p.before, len)) {
            (Ok(a), Ok(b)) => {
                let hi: nat = match b {
                    Some(x) => x,
                    None => len,
                };
                let lo0: nat = match a {
                    Some(x) => x + 1,
                    None => 0,
                };
                let lo: nat = if lo0 <= hi {
                    lo0
                } else {
                    hi
                };
                match (p.first, p.last) {
                    (Some(f), _) => Ok((lo, if lo + f < hi {
                        (lo + f) as nat
                    } else {
                        hi
                    })),
                    (_, Some(l)) => Ok((if hi - l > lo {
                        (hi - l) as nat
                    } else {
                        lo
                    }, hi)),
                    _ => Ok((lo, if lo + max < hi {
                        (lo + max) as nat
                    } else {
                        hi
                    })),
                }
            },
            (Err(e), _) => Err(e),
            (_, Err(e)) => Err(e),
        }
    }
}

/// The page that a request selects from `items`.
pub open spec fn is_page_of<T>(items: Seq<T>, p: Params, max: nat, r: Result<Page<T>, CoreError>) -> bool {
    match page_bounds(p, items.len(), max) {
        Err(e) => r == Err::<Page<T>, CoreError>(CoreError::Validation(e)),
        Ok((lo, hi)) => r matches Ok(page) && {
            &&& page.items@ == items.subrange(lo as int, hi as int)
            &&& page.cursors@.len() == hi - lo
            &&& forall|i: int| 0 <= i < hi - lo ==> (#[trigger] page.cursors@[i])@ == decimal((lo + i) as nat)
            &&& page.has_previous_page == (lo > 0)
            &&& page.has_next_page == (hi < items.len())
        },
    }
}

fn digit_of(d: usize) -> (c: char)
    requires
        d < 10,
    ensures
        c == digit_char(d as nat),
{
    if d == 0 {
        '0'
    } else if d == 1 {
        '1'
    } else if d == 2 {
        '2'
    } else if d == 3 {
        '3'
    } else if d == 4 {
        '4'
    } else if d == 5 {
        '5'
    } else if d == 6 {
        '6'
    } else if d == 7 {
        '7'
    } else if d == 8 {
        '8'
    } else {
        '9'
    }
}

/// The cursor of position `n`: its decimal text.
pub fn encode_cursor(n: usize) -> (r: String)
    ensures
        r@ == decimal(n as nat),
    decreases n,
{
    if n < 10 {
        let mut s = String::new();
        push_char(&mut s, digit_of(n));
        proof {
            assert(s@ =~= seq![digit_char(n as nat)]);
        }
        s
    } else {
        let mut s = encode_cursor(n / 10);
        push_char(&mut s, digit_of(n % 10));
        s
    }
}

proof fn lemma_digits_value_prefix(s: Seq<char>, i: int)
    requires
        0 <= i <= s.len(),
    ensures
        digits_value(s.subrange(0, i)) <= digits_value(s),
    decreases s.len() - i,
{
    if i < s.len() {
        lemma_digits_value_prefix(s, i + 1);
        let t = s.subrange(0, i + 1);
        assert(t.drop_last() =~= s.subrange(0, i));
    } else {
        assert(s.subrange(0, i) =~= s);
    }
}

/// The position that a cursor names, if it names one below `len`.
pub fn decode_cursor(s: &str, len: usize) -> (r: Option<usize>)
    ensures
        match cursor_position(s@) {
            Some(p) => if p < len {
                r == Some(p as usize)
            } else {
                r is None
            },
            None => r is None,
        },
{
    let n = s.unicode_len();
    if n == 0 || len == 0 {
        return None;
    }
    if n > 1 && s.get_char(0) == '0' {
        return None;
    }
    let mut acc: u128 = 0;
    let mut i: usize = 0;
    while i < n
        invariant
            n == s@.len(),
            n > 0,
            n == 1 || s@[0] != '0',
            i <= n,
            acc < len,
            acc == digits_value(s@.subrange(0, i as int)),
            forall|j: int| 0 <= j < i ==> is_digit(#[trigger] s@[j]),
        decreases n - i,
    {
        let c = s.get_char(i);
        let u = c as u32;
        if u < 48 || u > 57 {
            return None;
        }
        proof {
            assert(s@.subrange(0, i + 1).drop_last() =~= s@.subrange(0, i as int));
        }
        acc = acc * 10 + (u - 48) as u128;
        if acc >= len as u128 {
            proof {
                lemma_digits_value_prefix(s@, i + 1);
                if forall|j: int| 0 <= j < n ==> is_digit(#[trigger] s@[j]) {
                    assert(cursor_position(s@) == Some(digits_value(s@)));
                }
            }
            return None;
        }
        i = i + 1;
    }
    proof {
        assert(s@.subrange(0, n as int) =~= s@);
    }
    Some(acc as usize)
}

/// The position named by an optional cursor.
fn decode_optional_cursor(c: &Option<String>, len: usize) -> (r: Result<Option<usize>, ValidationError>)
    ensures
        match cursor_in(*c, len as nat) {
            Ok(Some(p)) => r == Ok::<Option<usize>, ValidationError>(Some(p as usize)),
            Ok(None) => r == Ok::<Option<usize>, ValidationError>(None),
            Err(e) => r == Err::<Option<usize>, ValidationError>(e),
        },
{
    match c {
        None => Ok(None),
        Some(s) => match decode_cursor(s.as_str(), len) {
            Some(p) => Ok(Some(p)),
            None => Err(ValidationError::InvalidCursor),
        },
    }
}

/// The positions `[lo, hi)` that `p` selects from `len` items.
fn page_range(p: &Params, len: usize, max_page_size: usize) -> (r: Result<(usize, usize), ValidationError>)
    ensures
        match page_bounds(*p, len as nat, max_page_size as nat) {
            Ok((lo, hi)) => r == Ok::<(usize, usize), ValidationError>((lo as usize, hi as usize)),
            Err(e) => r == Err::<(usize, usize), ValidationError>(e),
        },
        r matches Ok((lo, hi)) ==> lo <= hi <= len,
{
    if p.first.is_some() && p.last.is_some() {
        return Err(ValidationError::FirstAndLast);
    }
    match p.first {
        Some(f) => {
            if f < 1 {
                return Err(ValidationError::PageSizeOutOfRange);
            }
            if f as u32 as usize > max_page_size {
                return Err(ValidationError::PageSizeOutOfRange);
            }
        },
        None => {},
    }
    match p.last {
        Some(l) => {
            if l < 1 {
                return Err(ValidationError::PageSizeOutOfRange);
            }
            if l as u32 as usize > max_page_size {
                return Err(ValidationError::PageSizeOutOfRange);
            }
        },
        None => {},
    }
    let after = match decode_optional_cursor(&p.after, len) {
        Ok(a) => a,
        Err(e) => {
            return Err(e);
        },
    };
    let before = match decode_optional_cursor(&p.before, len) {
        Ok(b) => b,
        Err(e) => {
            return Err(e);
        },
    };
    let hi0: usize = match before {
        Some(b) => b,
        None => len,
    };
    let lo0: usize = match after {
        Some(a) => a + 1,
        None => 0,
    };
    let lo0: usize = if lo0 <= hi0 {
        lo0
    } else {
        hi0
    };
    let (lo, hi): (usize, usize) = match (p.first, p.last) {
        (Some(f), _) => {
            let f = f as usize;
            (lo0, if f < hi0 - lo0 {
                lo0 + f
            } else {
                hi0
            })
        },
        (_, Some(l)) => {
            let l = l as usize;
            (if l < hi0 - lo0 {
                hi0 - l
            } else {
                lo0
            }, hi0)
        },
        _ => (lo0, if max_page_size < hi0 - lo0 {
            lo0 + max_page_size
        } else {
            hi0
        }),
    };
    Ok((lo, hi))
}

/// Slices `items` to the page that `p` asks for: the open interval between the
/// `after` and `before` cursors, then the first `first` or the last `last` of it
/// (with neither, the first `max_page_size`).
/// Page sizes outside `1..=max_page_size`, both `first` and `last`, or a cursor
/// that names no position are rejected.
pub fn paginate<T>(items: Vec<T>, p: Params, max_page_size: usize) -> (r: Result<Page<T>, CoreError>)
    ensures
        is_page_of(items@, p, max_page_size as nat, r),
{
    let len = items.len();
    let ghost iv = items@;
    let (lo, hi) = match page_range(&p, len, max_page_size) {
        Ok(b) => b,
        Err(e) => {
            return Err(CoreError::Validation(e));
        },
    };
    let mut rest = items;
    let mut page_items = rest.split_off(lo);
    page_items.truncate(hi - lo);
    assert(page_items@ =~= iv.subrange(lo as int, hi as int));
    let mut cursors: Vec<String> = Vec::new();
    let mut i: usize = lo;
    while i < hi
        invariant
            lo <= i <= hi,
            cursors@.len() == i - lo,
            forall|j: int| 0 <= j < i - lo ==> (#[trigger] cursors@[j])@ == decimal((lo + j) as nat),
        decreases hi - i,
    {
        cursors.push(encode_cursor(i));
        i = i + 1;
    }
    Ok(Page { items: page_items, cursors, has_previous_page: lo > 0, has_next_page: hi < len })
}

/// A cursor names the position it was made for.
pub proof fn lemma_cursor_round_trip(n: nat)
    ensures
        cursor_position(decimal(n)) == Some(n),
    decreases n,
{
    lemma_decimal_digits(n);
    if n >= 10 {
        lemma_cursor_round_trip(n / 10);
        let d = decimal(n);
        assert(d.drop_last() =~= decimal(n / 10));
        lemma_decimal_digits(n / 10);
    }
}

proof fn lemma_decimal_digits(n: nat)
    ensures
        decimal(n).len() > 0,
        forall|i: int| 0 <= i < decimal(n).len() ==> is_digit(#[trigger] decimal(n)[i]),
        decimal(n).len() == 1 || decimal(n)[0] != '0',
        n > 0 ==> decimal(n)[0] != '0',
        n < 10 ==> decimal(n).len() == 1,
        ((decimal(n).last() as u32) - 48) as nat == n % 10,
        digits_value(decimal(n)) == n,
    decreases n,
{
    lemma_digit_char(n % 10);
    if n < 10 {
        assert(decimal(n).drop_last() =~= Seq::<char>::empty());
        assert(digits_value(Seq::<char>::empty()) == 0);
        assert(digits_value(decimal(n)) == digits_value(decimal(n).drop_last()) * 10 + n);
    } else {
        lemma_decimal_digits(n / 10);
        let d = decimal(n);
        assert(d.drop_last() =~= decimal(n / 10));
        assert(d.last() == digit_char(n % 10));
        assert(digits_value(d) == digits_value(decimal(n / 10)) * 10 + n % 10);
        assert((n / 10) * 10 + n % 10 == n);
        assert forall|i: int| 0 <= i < d.len() implies is_digit(#[trigger] d[i]) by {
            if i < d.len() - 1 {
                assert(d[i] == decimal(n / 10)[i]);
            }
        }
    }
}

proof fn lemma_digit_char(d: nat)
    requires
        d < 10,
    ensures
        is_digit(digit_char(d)),
        ((digit_char(d) as u32) - 48) as nat == d,
        d > 0 ==> digit_char(d) != '0',
{
}

/// A valid request never yields more items than it asks for, nor more than the
/// largest page; and a next page exists exactly when the page stops short of
/// the end of the sequence.
pub proof fn lemma_page_size_bound<T>(items: Seq<T>, p: Params, max: nat, r: Result<Page<T>, CoreError>)
    requires
        is_page_of(items, p, max, r),
        r is Ok,
    ensures
        ({
            let page = r->Ok_0;
            &&& page.items@.len() <= max
            &&& (p.first matches Some(f) ==> page.items@.len() <= f)
            &&& (p.last matches Some(l) ==> page.items@.len() <= l)
            &&& page.items@.len() <= items.len()
            &&& (!page.has_next_page <==> (page_bounds(p, items.len(), max) matches Ok((lo, hi)) && hi
                == items.len()))
        }),
{
}

} // verus!
