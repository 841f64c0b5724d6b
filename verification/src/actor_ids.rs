//! Actor ids that no one else in a given list uses.
use vstd::prelude::*;
use vstd::set_lib::{lemma_int_range, lemma_len_subset, lemma_map_size, set_int_range};

verus! {

/// The 16-byte actor id numbered `m`: `m` in big-endian order.
pub open spec fn numbered_actor(m: u128) -> Seq<u8> {
    seq![
        (m >> 120u128) as u8, (m >> 112u128) as u8, (m >> 104u128) as u8, (m >> 96u128) as u8,
        (m >> 88u128) as u8, (m >> 80u128) as u8, (m >> 72u128) as u8, (m >> 64u128) as u8,
        (m >> 56u128) as u8, (m >> 48u128) as u8, (m >> 40u128) as u8, (m >> 32u128) as u8,
        (m >> 24u128) as u8, (m >> 16u128) as u8, (m >> 8u128) as u8, m as u8,
    ]
}

/// Different numbers give different actor ids.
proof fn lemma_numbered_actor_injective(a: u128, b: u128)
    requires
        numbered_actor(a) == numbered_actor(b),
    ensures
        a == b,
{
    let x = numbered_actor(a);
    let y = numbered_actor(b);
    assert(x[0] == y[0] && x[1] == y[1] && x[2] == y[2] && x[3] == y[3]);
    assert(x[4] == y[4] && x[5] == y[5] && x[6] == y[6] && x[7] == y[7]);
    assert(x[8] == y[8] && x[9] == y[9] && x[10] == y[10] && x[11] == y[11]);
    assert(x[12] == y[12] && x[13] == y[13] && x[14] == y[14] && x[15] == y[15]);
    assert(a == b) by (bit_vector)
        requires
            (a >> 120u128) as u8 == (b >> 120u128) as u8, (a >> 112u128) as u8 == (b >> 112u128) as u8,
            (a >> 104u128) as u8 == (b >> 104u128) as u8, (a >> 96u128) as u8 == (b >> 96u128) as u8,
            (a >> 88u128) as u8 == (b >> 88u128) as u8, (a >> 80u128) as u8 == (b >> 80u128) as u8,
            (a >> 72u128) as u8 == (b >> 72u128) as u8, (a >> 64u128) as u8 == (b >> 64u128) as u8,
            (a >> 56u128) as u8 == (b >> 56u128) as u8, (a >> 48u128) as u8 == (b >> 48u128) as u8,
            (a >> 40u128) as u8 == (b >> 40u128) as u8, (a >> 32u128) as u8 == (b >> 32u128) as u8,
            (a >> 24u128) as u8 == (b >> 24u128) as u8, (a >> 16u128) as u8 == (b >> 16u128) as u8,
            (a >> 8u128) as u8 == (b >> 8u128) as u8, a as u8 == b as u8,
    ;
}

/// The actor id numbered `m`.
fn numbered_actor_bytes(m: u128) -> (a: Vec<u8>)
    ensures
        a@ == numbered_actor(m),
{
    let mut a: Vec<u8> = Vec::new();
    a.push((m >> 120u128) as u8);
    a.push((m >> 112u128) as u8);
    a.push((m >> 104u128) as u8);
    a.push((m >> 96u128) as u8);
    a.push((m >> 88u128) as u8);
    a.push((m >> 80u128) as u8);
    a.push((m >> 72u128) as u8);
    a.push((m >> 64u128) as u8);
    a.push((m >> 56u128) as u8);
    a.push((m >> 48u128) as u8);
    a.push((m >> 40u128) as u8);
    a.push((m >> 32u128) as u8);
    a.push((m >> 24u128) as u8);
    a.push((m >> 16u128) as u8);
    a.push((m >> 8u128) as u8);
    a.push(m as u8);
    assert(a@ =~= numbered_actor(m));
    a
}

/// Whether `a` and `b` hold the same bytes.
pub fn same_bytes(a: &Vec<u8>, b: &Vec<u8>) -> (r: bool)
    ensures
        r == (a@ == b@),
{
    if a.len() != b.len() {
        return false;
    }
    let mut i: usize = 0;
    while i < a.len()
        invariant
            a@.len() == b@.len(),
            i <= a@.len(),
            forall|j: int| 0 <= j < i ==> a@[j] == b@[j],
        decreases a@.len() - i,
    {
        if a[i] != b[i] {
            return false;
        }
        i = i + 1;
    }
    assert(a@ =~= b@);
    true
}

/// Whether one of `used` holds the bytes `a`.
pub open spec fn used_by(used: Seq<Vec<u8>>, a: Seq<u8>) -> bool {
    exists|j: int| 0 <= j < used.len() && #[trigger] used[j]@ == a
}

/// Whether `a` holds the same bytes as one of `used`.
pub fn is_among(a: &Vec<u8>, used: &Vec<Vec<u8>>) -> (r: bool)
    ensures
        r == used_by(used@, a@),
{
    let mut j: usize = 0;
    while j < used.len()
        invariant
            j <= used@.len(),
            forall|k: int| 0 <= k < j ==> #[trigger] used@[k]@ != a@,
        decreases used@.len() - j,
    {
        if same_bytes(&used[j], a) {
            return true;
        }
        j = j + 1;
    }
    false
}

/// A 16-byte actor id that is none of `used`: the lowest-numbered one that
/// is free. Of the `used.len() + 1` lowest numbers one is always free.
pub fn unused_actor_id(used: &Vec<Vec<u8>>) -> (a: Vec<u8>)
    ensures
        a@.len() == 16,
        forall|j: int| 0 <= j < used@.len() ==> #[trigger] used@[j]@ != a@,
{
    let n: u128 = used.len() as u128;
    let mut m: u128 = 0;
    while m <= n
        invariant
            n == used@.len(),
            n <= usize::MAX,
            m <= n + 1,
            forall|k: u128| k < m ==> #[trigger] used_by(used@, numbered_actor(k)),
        decreases n + 1 - m,
    {
        let c = numbered_actor_bytes(m);
        if !is_among(&c, used) {
            return c;
        }
        m = m + 1;
    }
    proof {
        // Every one of the numbers 0..=n names an actor id in `used`, and
        // different numbers name different ids: n + 1 ids in n places.
        let slot = |k: int| choose|j: int| 0 <= j < used@.len() && #[trigger] used@[j]@ == numbered_actor(k as u128);
        let numbers = set_int_range(0, n + 1);
        let slots = set_int_range(0, n as int);
        lemma_int_range(0, n + 1);
        lemma_int_range(0, n as int);
        assert forall|k: int| numbers.contains(k) implies 0 <= #[trigger] slot(k) < n
            && used@[slot(k)]@ == numbered_actor(k as u128) by {
            assert(used_by(used@, numbered_actor(k as u128)));
        }
        assert(vstd::relations::injective_on(slot, numbers)) by {
            assert forall|x: int, y: int| numbers.contains(x) && numbers.contains(y) && #[trigger] slot(x) == #[trigger] slot(y) implies x == y by {
                lemma_numbered_actor_injective(x as u128, y as u128);
            }
        }
        lemma_map_size(numbers, numbers.map(slot), slot);
        assert(numbers.map(slot).subset_of(slots));
        lemma_len_subset(numbers.map(slot), slots);
        assert(false);
    }
    numbered_actor_bytes(0)
}

} // verus!
