//! Small list utilities shared by the registries: membership, removal of
//! every occurrence of a value, and insertion without duplicates.
use vstd::prelude::*;
use crate::types::Addr;
use vstd::string::StringSliceAdditionalSpecFns;

verus! {

/// `s` holds no value twice.
pub open spec fn no_dups<T>(s: Seq<T>) -> bool {
    forall|i: int, j: int| 0 <= i < s.len() && 0 <= j < s.len() && i != j ==> s[i] != s[j]
}

/// `s` with every occurrence of `x` taken out, order kept.
pub open spec fn without<T>(s: Seq<T>, x: T) -> Seq<T> {
    s.filter(|y: T| y != x)
}

/// Whether `v` holds `x`.
pub fn contains_u64(v: &Vec<u64>, x: u64) -> (r: bool)
    ensures
        r == v@.contains(x),
{
    let mut i: usize = 0;
    while i < v.len()
        invariant
            0 <= i <= v.len(),
            forall|j: int| 0 <= j < i ==> v@[j] != x,
        decreases v.len() - i,
    {
        if v[i] == x {
            return true;
        }
        i = i + 1;
    }
    false
}

/// Whether `v` holds `x`.
pub fn contains_addr(v: &Vec<Addr>, x: Addr) -> (r: bool)
    ensures
        r == v@.contains(x),
{
    let mut i: usize = 0;
    while i < v.len()
        invariant
            0 <= i <= v.len(),
            forall|j: int| 0 <= j < i ==> v@[j] != x,
        decreases v.len() - i,
    {
        if v[i] == x {
            return true;
        }
        i = i + 1;
    }
    false
}

/// A copy of `v` without any occurrence of `x`.
pub fn remove_item_u64(v: &Vec<u64>, x: u64) -> (r: Vec<u64>)
    ensures
        r@ == without(v@, x),
{
    let mut out: Vec<u64> = Vec::new();
    let mut i: usize = 0;
    while i < v.len()
        invariant
            0 <= i <= v.len(),
            out@ == without(v@.subrange(0, i as int), x),
        decreases v.len() - i,
    {
        proof {
            reveal_with_fuel(Seq::<_>::filter, 1);
            assert(v@.subrange(0, i + 1).drop_last() == v@.subrange(0, i as int));
        }
        if v[i] != x {
            out.push(v[i]);
        }
        i = i + 1;
    }
    proof {
        assert(v@.subrange(0, v@.len() as int) == v@);
    }
    out
}

/// A copy of `v` without any occurrence of `x`.
pub fn remove_item_addr(v: &Vec<Addr>, x: Addr) -> (r: Vec<Addr>)
    ensures
        r@ == without(v@, x),
{
    let mut out: Vec<Addr> = Vec::new();
    let mut i: usize = 0;
    while i < v.len()
        invariant
            0 <= i <= v.len(),
            out@ == without(v@.subrange(0, i as int), x),
        decreases v.len() - i,
    {
        proof {
            reveal_with_fuel(Seq::<_>::filter, 1);
            assert(v@.subrange(0, i + 1).drop_last() == v@.subrange(0, i as int));
        }
        if v[i] != x {
            out.push(v[i]);
        }
        i = i + 1;
    }
    proof {
        assert(v@.subrange(0, v@.len() as int) == v@);
    }
    out
}

/// Appends `x` unless `v` already holds it; tells whether it was added.
pub fn add_unique_u64(v: &mut Vec<u64>, x: u64) -> (added: bool)
    ensures
        added == !old(v)@.contains(x),
        added ==> final(v)@ == old(v)@.push(x),
        !added ==> final(v)@ == old(v)@,
{
    if contains_u64(v, x) {
        false
    } else {
        v.push(x);
        true
    }
}

/// Removing a value that does not occur leaves the list as it was.
pub proof fn lemma_without_absent<T>(s: Seq<T>, x: T)
    requires
        !s.contains(x),
    ensures
        without(s, x) == s,
    decreases s.len(),
{
    reveal_with_fuel(Seq::<_>::filter, 1);
    if s.len() > 0 {
        lemma_without_absent(s.drop_last(), x);
        assert(s.drop_last().push(s.last()) == s);
    }
}

/// Removing a value leaves no occurrence of it and keeps every other value.
pub proof fn lemma_without_contains<T>(s: Seq<T>, x: T, y: T)
    ensures
        without(s, x).contains(y) <==> (s.contains(y) && y != x),
    decreases s.len(),
{
    reveal_with_fuel(Seq::<_>::filter, 1);
    if s.len() > 0 {
        let p = s.drop_last();
        lemma_without_contains(p, x, y);
        assert(s == p.push(s.last()));
        if s.contains(y) && y != x && !p.contains(y) {
            let i = choose|i: int| 0 <= i < s.len() && s[i] == y;
            if i < s.len() - 1 {
                assert(p[i] == y);
            }
        }
        if p.contains(y) {
            let i = choose|i: int| 0 <= i < p.len() && p[i] == y;
            assert(s[i] == y);
        }
        if s.last() != x {
            assert(without(s, x) == without(p, x).push(s.last()));
            let w = without(p, x);
            if w.push(s.last()).contains(y) && !w.contains(y) {
                let i = choose|i: int| 0 <= i < w.len() + 1 && w.push(s.last())[i] == y;
                assert(i == w.len());
            }
            if w.contains(y) {
                let i = choose|i: int| 0 <= i < w.len() && w[i] == y;
                assert(w.push(s.last())[i] == y);
            }
        }
    }
}

/// Removing a value never lengthens a list.
pub proof fn lemma_filter_len_le<T>(s: Seq<T>, x: T)
    ensures
        without(s, x).len() <= s.len(),
    decreases s.len(),
{
    reveal_with_fuel(Seq::<_>::filter, 1);
    if s.len() > 0 {
        lemma_filter_len_le(s.drop_last(), x);
    }
}

/// Removing one value from a list without duplicates shortens it by one.
pub proof fn lemma_without_len<T>(s: Seq<T>, x: T)
    requires
        no_dups(s),
        s.contains(x),
    ensures
        without(s, x).len() == s.len() - 1,
        no_dups(without(s, x)),
    decreases s.len(),
{
    reveal_with_fuel(Seq::<_>::filter, 1);
    let p = s.drop_last();
    assert(s == p.push(s.last()));
    if s.last() == x {
        assert(!p.contains(x)) by {
            if p.contains(x) {
                let i = choose|i: int| 0 <= i < p.len() && p[i] == x;
                assert(s[i] == s[s.len() - 1]);
            }
        }
        lemma_without_absent(p, x);
    } else {
        assert(no_dups(p));
        assert(p.contains(x)) by {
            let i = choose|i: int| 0 <= i < s.len() && s[i] == x;
            assert(i != s.len() - 1);
            assert(p[i] == x);
        }
        lemma_without_len(p, x);
        let w = without(p, x);
        assert(without(s, x) == w.push(s.last()));
        assert(!w.contains(s.last())) by {
            lemma_without_contains(p, x, s.last());
            if p.contains(s.last()) {
                let i = choose|i: int| 0 <= i < p.len() && p[i] == s.last();
                assert(s[i] == s[s.len() - 1]);
            }
        }
    }
}

} // verus!

verus! {

/// The bytes of a text constant, as an owned byte string.
pub fn text(s: &[u8]) -> (r: Vec<u8>)
    ensures
        r@ == s@,
{
    let mut r: Vec<u8> = Vec::new();
    let mut i: usize = 0;
    while i < s.len()
        invariant
            i <= s@.len(),
            r@ == s@.subrange(0, i as int),
        decreases s@.len() - i,
    {
        r.push(s[i]);
        i = i + 1;
        assert(r@ =~= s@.subrange(0, i as int));
    }
    assert(r@ =~= s@);
    r
}

} // verus!

verus! {

/// ASCII upper-case letters become lower-case; every other byte stays.
pub open spec fn lower_byte(b: u8) -> u8 {
    if 65 <= b <= 90 { (b + 32) as u8 } else { b }
}

/// A name's canonical form for uniqueness checks: ASCII letters folded to
/// lower case.
pub open spec fn normalize_name(s: Seq<u8>) -> Seq<u8> {
    s.map_values(|b: u8| lower_byte(b))
}

/// ASCII whitespace: space, tab, line feed, carriage return.
pub open spec fn is_space(b: u8) -> bool {
    b == 32 || b == 9 || b == 10 || b == 13
}

/// Every byte is whitespace (true of the empty text).
pub open spec fn is_blank(s: Seq<u8>) -> bool {
    forall|i: int| 0 <= i < s.len() ==> is_space(#[trigger] s[i])
}

pub fn normalize(s: &Vec<u8>) -> (r: Vec<u8>)
    ensures
        r@ == normalize_name(s@),
{
    let mut r: Vec<u8> = Vec::new();
    let mut i: usize = 0;
    while i < s.len()
        invariant
            i <= s@.len(),
            r@ == normalize_name(s@.subrange(0, i as int)),
        decreases s@.len() - i,
    {
        let b = s[i];
        let l = if 65 <= b && b <= 90 { b + 32 } else { b };
        r.push(l);
        i = i + 1;
        assert(r@ =~= normalize_name(s@.subrange(0, i as int)));
    }
    assert(s@.subrange(0, i as int) =~= s@);
    r
}

pub fn blank(s: &Vec<u8>) -> (r: bool)
    ensures
        r == is_blank(s@),
{
    let mut i: usize = 0;
    while i < s.len()
        invariant
            i <= s@.len(),
            forall|j: int| 0 <= j < i ==> is_space(#[trigger] s@[j]),
        decreases s@.len() - i,
    {
        let b = s[i];
        if !(b == 32 || b == 9 || b == 10 || b == 13) {
            return false;
        }
        i = i + 1;
    }
    true
}

/// Whether two byte strings are equal.
pub fn bytes_eq(a: &Vec<u8>, b: &Vec<u8>) -> (r: bool)
    ensures
        r == (a@ == b@),
{
    if a.len() != b.len() {
        return false;
    }
    let mut i: usize = 0;
    while i < a.len()
        invariant
            a@.len() == b@.len(),
            i <= a@.len(),
            forall|j: int| 0 <= j < i ==> a@[j] == b@[j],
        decreases a@.len() - i,
    {
        if a[i] != b[i] {
            return false;
        }
        i = i + 1;
    }
    assert(a@ =~= b@);
    true
}

/// A copy of a byte string.
pub fn copy_text(a: &Vec<u8>) -> (r: Vec<u8>)
    ensures
        r@ == a@,
{
    let mut r: Vec<u8> = Vec::new();
    let mut i: usize = 0;
    while i < a.len()
        invariant
            i <= a@.len(),
            r@ == a@.subrange(0, i as int),
        decreases a@.len() - i,
    {
        r.push(a[i]);
        i = i + 1;
        assert(r@ =~= a@.subrange(0, i as int));
    }
    assert(r@ =~= a@);
    r
}

/// A copy of a list of ids.
pub fn copy_ids(a: &Vec<u64>) -> (r: Vec<u64>)
    ensures
        r@ == a@,
{
    let mut r: Vec<u64> = Vec::new();
    let mut i: usize = 0;
    while i < a.len()
        invariant
            i <= a@.len(),
            r@ == a@.subrange(0, i as int),
        decreases a@.len() - i,
    {
        r.push(a[i]);
        i = i + 1;
        assert(r@ =~= a@.subrange(0, i as int));
    }
    assert(r@ =~= a@);
    r
}

/// Whether `cid` has the length of an IPFS content id.
pub open spec fn valid_cid(cid: Seq<u8>) -> bool {
    crate::constants::MIN_CID_LEN <= cid.len() <= crate::constants::MAX_CID_LEN
}

/// Whether `cid` has the length of an IPFS content id.
pub fn is_valid_cid(cid: &Vec<u8>) -> (r: bool)
    ensures
        r == valid_cid(cid@),
{
    crate::constants::MIN_CID_LEN <= cid.len() && cid.len() <= crate::constants::MAX_CID_LEN
}

/// Whether `s` starts with `prefix`.
pub open spec fn starts_with(s: Seq<u8>, prefix: Seq<u8>) -> bool {
    prefix.len() <= s.len() && s.take(prefix.len() as int) == prefix
}

/// Whether `s` starts with `prefix`.
pub fn has_prefix(s: &Vec<u8>, prefix: &[u8]) -> (r: bool)
    ensures
        r == starts_with(s@, prefix@),
{
    if prefix.len() > s.len() {
        return false;
    }
    let mut i: usize = 0;
    while i < prefix.len()
        invariant
            prefix@.len() <= s@.len(),
            i <= prefix@.len(),
            forall|j: int| 0 <= j < i ==> s@[j] == prefix@[j],
        decreases prefix@.len() - i,
    {
        if s[i] != prefix[i] {
            assert(s@.take(prefix@.len() as int)[i as int] != prefix@[i as int]);
            return false;
        }
        i = i + 1;
    }
    assert(s@.take(prefix@.len() as int) =~= prefix@);
    true
}

} // verus!
