//! The order of field names: byte strings compared from the left, a proper
//! prefix before every string that extends it.

use vstd::prelude::*;
use vstd::utf8::encode_utf8;

verus! {

/// `a` and `b` hold the same bytes at every position below `n`.
pub open spec fn agree_below(a: Seq<u8>, b: Seq<u8>, n: int) -> bool {
    &&& 0 <= n <= a.len()
    &&& n <= b.len()
    &&& forall|j: int| 0 <= j < n ==> a[j] == b[j]
}

/// Position `n` decides for `a`: the two agree below it, and there `a` has
/// ended or holds the smaller byte.
pub open spec fn decided_at(a: Seq<u8>, b: Seq<u8>, n: int) -> bool {
    &&& agree_below(a, b, n)
    &&& n < b.len()
    &&& (n == a.len() || a[n] < b[n])
}

/// `a` comes strictly before `b`.
pub open spec fn bytes_before(a: Seq<u8>, b: Seq<u8>) -> bool {
    exists|n: int| decided_at(a, b, n)
}

/// Field names are ordered by the bytes of their UTF-8 form.
pub open spec fn key_before(a: Seq<char>, b: Seq<char>) -> bool {
    bytes_before(encode_utf8(a), encode_utf8(b))
}

/// How one byte string stands to another.
#[derive(Clone, Copy, Debug, PartialEq, Eq, Structural)]
pub enum Place {
    Before,
    Same,
    After,
}

/// No string comes before itself, and of two strings at most one comes before
/// the other.
pub proof fn lemma_before_asymmetric(a: Seq<u8>, b: Seq<u8>)
    ensures
        !(bytes_before(a, b) && bytes_before(b, a)),
        a == b ==> !bytes_before(a, b),
{
    if bytes_before(a, b) && bytes_before(b, a) {
        let m = choose|n: int| decided_at(a, b, n);
        let n = choose|n: int| decided_at(b, a, n);
        if m < n {
            assert(b[m] == a[m]);
        } else if n < m {
            assert(a[n] == b[n]);
        }
    }
    if a == b && bytes_before(a, b) {
        let m = choose|n: int| decided_at(a, b, n);
        assert(a[m] == b[m]);
    }
}

/// The order is transitive.
pub proof fn lemma_before_transitive(a: Seq<u8>, b: Seq<u8>, c: Seq<u8>)
    requires
        bytes_before(a, b),
        bytes_before(b, c),
    ensures
        bytes_before(a, c),
{
    let m = choose|n: int| decided_at(a, b, n);
    let n = choose|n: int| decided_at(b, c, n);
    if m <= n {
        assert(decided_at(a, c, m));
    } else {
        assert(a[n] == b[n]);
        assert(decided_at(a, c, n));
    }
}

/// Any two different strings are ordered one way or the other.
pub proof fn lemma_before_total(a: Seq<u8>, b: Seq<u8>)
    ensures
        a == b || bytes_before(a, b) || bytes_before(b, a),
    decreases a.len(),
{
    if a.len() == 0 {
        if b.len() == 0 {
            assert(a =~= b);
        } else {
            assert(decided_at(a, b, 0));
        }
    } else if b.len() == 0 {
        assert(decided_at(b, a, 0));
    } else if a[0] < b[0] {
        assert(decided_at(a, b, 0));
    } else if b[0] < a[0] {
        assert(decided_at(b, a, 0));
    } else {
        let x = a.drop_first();
        let y = b.drop_first();
        lemma_before_total(x, y);
        if x == y {
            assert(a =~= seq![a[0]] + x);
            assert(b =~= seq![b[0]] + y);
        } else if bytes_before(x, y) {
            let n = choose|n: int| decided_at(x, y, n);
            assert forall|j: int| 0 <= j < n + 1 implies a[j] == b[j] by {
                if j > 0 {
                    assert(x[j - 1] == y[j - 1]);
                }
            }
            assert(decided_at(a, b, n + 1));
        } else {
            let n = choose|n: int| decided_at(y, x, n);
            assert forall|j: int| 0 <= j < n + 1 implies b[j] == a[j] by {
                if j > 0 {
                    assert(y[j - 1] == x[j - 1]);
                }
            }
            assert(decided_at(b, a, n + 1));
        }
    }
}

/// Compares two byte strings from the left.
pub fn compare_bytes(a: &[u8], b: &[u8]) -> (place: Place)
    ensures
        place == Place::Before <==> bytes_before(a@, b@),
        place == Place::Same <==> a@ == b@,
        place == Place::After <==> bytes_before(b@, a@),
{
    proof {
        lemma_before_asymmetric(a@, b@);
        lemma_before_asymmetric(b@, a@);
    }
    let mut i: usize = 0;
    while i < a.len() && i < b.len()
        invariant
            agree_below(a@, b@, i as int),
        decreases a.len() - i,
    {
        if a[i] < b[i] {
            assert(decided_at(a@, b@, i as int));
            return Place::Before;
        }
        if b[i] < a[i] {
            assert(agree_below(b@, a@, i as int));
            assert(decided_at(b@, a@, i as int));
            return Place::After;
        }
        i = i + 1;
    }
    if i < b.len() {
        assert(decided_at(a@, b@, i as int));
        Place::Before
    } else if i < a.len() {
        assert(agree_below(b@, a@, i as int));
        assert(decided_at(b@, a@, i as int));
        Place::After
    } else {
        assert(a@ =~= b@);
        Place::Same
    }
}

/// Two texts with the same UTF-8 bytes are the same text.
pub proof fn lemma_utf8_injective(a: Seq<char>, b: Seq<char>)
    requires
        encode_utf8(a) == encode_utf8(b),
    ensures
        a == b,
{
    vstd::utf8::encode_utf8_decode_utf8(a);
    vstd::utf8::encode_utf8_decode_utf8(b);
}

/// Compares two field names by their bytes.
pub fn compare_keys(a: &str, b: &str) -> (place: Place)
    ensures
        place == Place::Before <==> key_before(a@, b@),
        place == Place::Same <==> a@ == b@,
        place == Place::After <==> key_before(b@, a@),
{
    let place = compare_bytes(a.as_bytes(), b.as_bytes());
    proof {
        if place == Place::Same {
            lemma_utf8_injective(a@, b@);
        }
    }
    place
}

} // verus!
