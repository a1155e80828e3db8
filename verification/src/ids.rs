//! Library ids derived from display names: a slug of the name, made unique
//! against the ids already taken by a numeric suffix.

use vstd::prelude::*;
use vstd::set_lib::lemma_len_subset;
use crate::amap::{AssocMap, MapKey, MapValue};

verus! {

/// Appends `c` to `s` — `String::push`.
#[verifier::external_body]
fn push_char(s: &mut String, c: char)
    ensures
        final(s)@ == old(s)@.push(c),
{
    s.push(c);
}

/// The slug form of one character: ASCII letters lower-cased, ASCII digits
/// kept, anything else a hyphen.
pub open spec fn slug_char(c: char) -> char {
    if 'a' <= c && c <= 'z' || '0' <= c && c <= '9' {
        c
    } else if 'A' <= c && c <= 'Z' {
        ((c as u32) + 32) as char
    } else {
        '-'
    }
}

/// The slug of a name, character by character.
pub open spec fn slug(name: Seq<char>) -> Seq<char> {
    Seq::new(name.len(), |i: int| slug_char(name[i]))
}

/// The decimal digit `d`.
pub open spec fn digit(d: nat) -> char {
    ((d + 48) as u32) as char
}

/// The decimal rendering of `n`.
pub open spec fn decimal(n: nat) -> Seq<char>
    decreases n,
{
    if n < 10 {
        seq![digit(n)]
    } else {
        decimal(n / 10).push(digit(n % 10))
    }
}

/// The `n`th candidate id for `base`: `base` itself, then `base-2`,
/// `base-3`, ...
pub open spec fn candidate(base: Seq<char>, n: nat) -> Seq<char> {
    if n == 0 {
        base
    } else {
        base + seq!['-'] + decimal(n + 1)
    }
}

/// The first candidate for `base` that `taken` does not hold.
pub open spec fn fresh_id(base: Seq<char>, taken: Set<Seq<char>>) -> Seq<char> {
    candidate(
        base,
        choose|n: nat| !taken.contains(candidate(base, n)) && forall|m: nat| m < n ==> taken.contains(#[trigger] candidate(base, m)),
    )
}

proof fn lemma_decimal_len(n: nat)
    ensures
        decimal(n).len() >= 1,
        (decimal(n).len() == 1) == (n < 10),
        decimal(n).last() == digit(n % 10),
    decreases n,
{
    if n >= 10 {
        lemma_decimal_len(n / 10);
    }
}

proof fn lemma_decimal_injective(a: nat, b: nat)
    requires
        decimal(a) == decimal(b),
    ensures
        a == b,
    decreases a,
{
    lemma_decimal_len(a);
    lemma_decimal_len(b);
    assert(digit(a % 10) == digit(b % 10));
    assert(a % 10 == b % 10);
    if a >= 10 && b >= 10 {
        assert(decimal(a).drop_last() == decimal(a / 10));
        assert(decimal(b).drop_last() == decimal(b / 10));
        lemma_decimal_injective(a / 10, b / 10);
    }
}

proof fn lemma_candidate_injective(base: Seq<char>, a: nat, b: nat)
    requires
        candidate(base, a) == candidate(base, b),
    ensures
        a == b,
{
    lemma_decimal_len(a + 1);
    lemma_decimal_len(b + 1);
    if a > 0 && b > 0 {
        let pa = base + seq!['-'];
        assert(candidate(base, a).subrange(pa.len() as int, candidate(base, a).len() as int) =~= decimal(a + 1));
        assert(candidate(base, b).subrange(pa.len() as int, candidate(base, b).len() as int) =~= decimal(b + 1));
        lemma_decimal_injective(a + 1, b + 1);
    } else if a > 0 {
        assert(candidate(base, a).len() > base.len());
    } else if b > 0 {
        assert(candidate(base, b).len() > base.len());
    }
}

/// Once the first `n + 1` candidates are all taken, `taken` holds at least
/// `n + 1` ids.
proof fn lemma_taken_count(base: Seq<char>, taken: Set<Seq<char>>, n: nat)
    requires
        taken.finite(),
        forall|m: nat| m <= n ==> taken.contains(#[trigger] candidate(base, m)),
    ensures
        n + 1 <= taken.len(),
{
    let s = Seq::new(n + 1, |m: int| candidate(base, m as nat));
    assert forall|i: int, j: int| 0 <= i < s.len() && 0 <= j < s.len() && i != j implies s[i] != s[j] by {
        if s[i] == s[j] {
            lemma_candidate_injective(base, i as nat, j as nat);
        }
    }
    assert(s.no_duplicates());
    s.unique_seq_to_set();
    assert forall|x: Seq<char>| s.to_set().contains(x) implies taken.contains(x) by {
        let i = choose|i: int| 0 <= i < s.len() && s[i] == x;
        assert(taken.contains(candidate(base, i as nat)));
    }
    lemma_len_subset(s.to_set(), taken);
}

proof fn lemma_first_free(base: Seq<char>, taken: Set<Seq<char>>, n: nat)
    requires
        taken.finite(),
        n <= taken.len(),
        forall|m: nat| m < n ==> taken.contains(#[trigger] candidate(base, m)),
    ensures
        exists|k: nat| !taken.contains(candidate(base, k)) && forall|m: nat| m < k ==> taken.contains(#[trigger] candidate(base, m)),
    decreases taken.len() - n,
{
    if !taken.contains(candidate(base, n)) {
        assert(!taken.contains(candidate(base, n)) && forall|m: nat| m < n ==> taken.contains(#[trigger] candidate(base, m)));
    } else {
        assert forall|m: nat| m <= n implies taken.contains(#[trigger] candidate(base, m)) by {
            if m < n {
            } else {
                assert(m == n);
            }
        }
        lemma_taken_count(base, taken, n);
        assert forall|m: nat| m < n + 1 implies taken.contains(#[trigger] candidate(base, m)) by {
            if m < n {
            } else {
                assert(m == n);
            }
        }
        lemma_first_free(base, taken, n + 1);
    }
}

/// Over a finite set of taken ids, the id `fresh_id` picks is free.
pub proof fn lemma_fresh_id_is_free(base: Seq<char>, taken: Set<Seq<char>>)
    requires
        taken.finite(),
    ensures
        !taken.contains(fresh_id(base, taken)),
{
    lemma_first_free(base, taken, 0);
}

fn slug_of(name: &str) -> (r: String)
    ensures
        r@ == slug(name@),
{
    let n = name.unicode_len();
    let mut out = String::new();
    let mut i: usize = 0;
    while i < n
        invariant
            n == name@.len(),
            i <= n,
            out@ =~= slug(name@).subrange(0, i as int),
        decreases n - i,
    {
        let c = name.get_char(i);
        let d = if ('a' <= c && c <= 'z') || ('0' <= c && c <= '9') {
            c
        } else if 'A' <= c && c <= 'Z' {
            let v: u8 = ((c as u32) + 32) as u8;
            v as char
        } else {
            '-'
        };
        push_char(&mut out, d);
        i = i + 1;
    }
    out
}

fn push_decimal(s: &mut String, n: u128)
    ensures
        final(s)@ == old(s)@ + decimal(n as nat),
    decreases n,
{
    let ghost start = s@;
    if n >= 10 {
        push_decimal(s, n / 10);
    }
    let d: u8 = (n % 10) as u8 + 48;
    let c: char = d as char;
    assert(c == digit((n % 10) as nat));
    push_char(s, c);
    assert(s@ =~= start + decimal(n as nat));
}

fn candidate_of(base: &String, n: usize) -> (r: String)
    ensures
        r@ == candidate(base@, n as nat),
{
    let mut out = base.clone();
    if n > 0 {
        push_char(&mut out, '-');
        push_decimal(&mut out, (n as u128) + 1);
        assert(out@ =~= base@ + seq!['-'] + decimal(n as nat + 1));
    }
    out
}

/// A library id key that can be built from its text.
pub trait IdKey: MapKey<V = Seq<char>> {
    fn from_string(s: String) -> (r: Self)
        ensures
            r@ == s@,
    ;
}

/// The first candidate id for `name`'s slug that `taken` does not bind.
pub fn unique_id<K: IdKey, V: MapValue>(taken: &AssocMap<K, V>, name: &str) -> (r: K)
    ensures
        r@ == fresh_id(slug(name@), taken@.dom()),
        !taken@.dom().contains(r@),
{
    let base = slug_of(name);
    let count = taken.len();
    let mut n: usize = 0;
    proof {
        taken.key_seq().unique_seq_to_set();
        assert(taken.key_seq().to_set() =~= taken@.dom());
    }
    loop
        invariant
            base@ == slug(name@),
            count == taken.key_seq().len(),
            taken@.dom().finite(),
            taken@.dom().len() == count,
            n <= count,
            forall|m: nat| m < n ==> taken@.dom().contains(#[trigger] candidate(base@, m)),
        decreases count - n,
    {
        let key = K::from_string(candidate_of(&base, n));
        if !taken.contains_key(&key) {
            proof {
                let dom = taken@.dom();
                let b = base@;
                assert(!dom.contains(candidate(b, n as nat)) && forall|m: nat| m < n ==> dom.contains(#[trigger] candidate(b, m)));
                let c = choose|c: nat| !dom.contains(candidate(b, c)) && forall|m: nat| m < c ==> dom.contains(#[trigger] candidate(b, m));
                if c < n {
                    assert(dom.contains(candidate(b, c)));
                } else if c > n {
                    assert(dom.contains(candidate(b, n as nat)));
                }
            }
            return key;
        }
        proof {
            assert forall|m: nat| m <= n implies taken@.dom().contains(#[trigger] candidate(base@, m)) by {
                if m < n {
                } else {
                    assert(m == n);
                }
            }
            lemma_taken_count(base@, taken@.dom(), n as nat);
        }
        n = n + 1;
    }
}

impl IdKey for crate::config::MacroId {
    fn from_string(s: String) -> (r: Self) {
        crate::config::MacroId(s)
    }
}

impl IdKey for crate::config::StepperId {
    fn from_string(s: String) -> (r: Self) {
        crate::config::StepperId(s)
    }
}


/// A slug keeps the name's length and holds only lower-case ASCII letters,
/// digits and hyphens: each lower-case letter or digit stays, each
/// upper-case letter becomes its lower-case form, and anything else becomes
/// a hyphen.
pub proof fn a_slug_is_the_lower_cased_name(name: Seq<char>)
    ensures
        slug(name).len() == name.len(),
        forall|i: int| 0 <= i < name.len() ==> {
            let c = #[trigger] slug(name)[i];
            ('a' <= c && c <= 'z') || ('0' <= c && c <= '9') || c == '-'
        },
        forall|i: int| 0 <= i < name.len() && (('a' <= name[i] && name[i] <= 'z') || ('0' <= name[i] && name[i] <= '9'))
            ==> #[trigger] slug(name)[i] == name[i],
        forall|i: int| 0 <= i < name.len() && 'A' <= name[i] && name[i] <= 'Z' ==> (#[trigger] slug(name)[i]) as u32 == (name[i] as u32) + 32,
        forall|i: int| 0 <= i < name.len() && !(('a' <= name[i] && name[i] <= 'z') || ('0' <= name[i] && name[i] <= '9') || ('A'
            <= name[i] && name[i] <= 'Z')) ==> #[trigger] slug(name)[i] == '-',
{
    assert forall|i: int| 0 <= i < name.len() implies {
        let c = #[trigger] slug(name)[i];
        ('a' <= c && c <= 'z') || ('0' <= c && c <= '9') || c == '-'
    } by {
        let x = name[i];
        if 'A' <= x && x <= 'Z' {
            assert((x as u32) + 32 <= 'z' as u32);
        }
    }
}

} // verus!
