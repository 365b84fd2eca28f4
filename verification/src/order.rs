//! The order of texts: by their UTF-8 bytes, the first that differ deciding.
use vstd::prelude::*;

verus! {

/// `a` comes before `b` in the order of a dictionary whose letters are bytes.
pub open spec fn before(a: Seq<u8>, b: Seq<u8>) -> bool
    decreases b.len(),
{
    if b.len() == 0 {
        false
    } else if a.len() == 0 {
        true
    } else if a[0] != b[0] {
        a[0] < b[0]
    } else {
        before(a.skip(1), b.skip(1))
    }
}

/// Nothing comes before itself.
pub proof fn lemma_before_irreflexive(a: Seq<u8>)
    ensures
        !before(a, a),
    decreases a.len(),
{
    if a.len() > 0 {
        lemma_before_irreflexive(a.skip(1));
    }
}

/// What comes before a text comes before all that follow it.
pub proof fn lemma_before_transitive(a: Seq<u8>, b: Seq<u8>, c: Seq<u8>)
    requires
        before(a, b),
        before(b, c),
    ensures
        before(a, c),
    decreases b.len(),
{
    if a.len() > 0 && a[0] == b[0] && b[0] == c[0] {
        lemma_before_transitive(a.skip(1), b.skip(1), c.skip(1));
    }
}

/// Of two different texts one comes before the other.
pub proof fn lemma_before_total(a: Seq<u8>, b: Seq<u8>)
    ensures
        before(a, b) || before(b, a) || a == b,
    decreases a.len(),
{
    if a.len() == 0 || b.len() == 0 {
        if a.len() == b.len() {
            assert(a =~= b);
        }
    } else if a[0] == b[0] {
        lemma_before_total(a.skip(1), b.skip(1));
        if a.skip(1) == b.skip(1) {
            assert(a =~= seq![a[0]] + a.skip(1));
            assert(b =~= seq![b[0]] + b.skip(1));
        }
    }
}

/// Whether `a` comes before `b`.
pub fn is_before(a: &[u8], b: &[u8]) -> (yes: bool)
    ensures
        yes == before(a@, b@),
{
    let mut i: usize = 0;
    assert(a@.skip(0) == a@ && b@.skip(0) == b@);
    while i < a.len() && i < b.len()
        invariant
            i <= a@.len(),
            i <= b@.len(),
            before(a@, b@) == before(a@.skip(i as int), b@.skip(i as int)),
        decreases a@.len() - i,
    {
        assert(a@.skip(i as int).skip(1) == a@.skip(i + 1));
        assert(b@.skip(i as int).skip(1) == b@.skip(i + 1));
        if a[i] != b[i] {
            return a[i] < b[i];
        }
        i = i + 1;
    }
    a.len() < b.len()
}

/// The order is that of a dictionary: the first byte that differs decides, whatever follows it, and a text
/// comes before all longer ones that start with it.
pub proof fn first_difference_decides(
    common: Seq<u8>,
    low: u8,
    high: u8,
    low_rest: Seq<u8>,
    high_rest: Seq<u8>,
)
    requires
        low < high,
    ensures
        before(common + seq![low] + low_rest, common + seq![high] + high_rest),
        !before(common + seq![high] + high_rest, common + seq![low] + low_rest),
        before(common, common + seq![low] + low_rest),
        !before(common + seq![low] + low_rest, common),
        !before(common, common),
    decreases common.len(),
{
    let a = common + seq![low] + low_rest;
    let b = common + seq![high] + high_rest;
    if common.len() > 0 {
        first_difference_decides(common.skip(1), low, high, low_rest, high_rest);
        assert(a.skip(1) =~= common.skip(1) + seq![low] + low_rest);
        assert(b.skip(1) =~= common.skip(1) + seq![high] + high_rest);
    }
}

} // verus!
