use vstd::prelude::*;
use vstd::string::StringSliceAdditionalSpecFns;
use vstd::utf8::encode_utf8;

verus! {

/// The first index from `i` on at which `a` and `b` differ or one of them ends.
pub open spec fn first_difference(a: Seq<u8>, b: Seq<u8>, i: int) -> int
    decreases a.len() - i,
{
    if 0 <= i < a.len() && i < b.len() && a[i] == b[i] {
        first_difference(a, b, i + 1)
    } else {
        i
    }
}

/// `a` comes before `b` or equals it, byte by byte: at the first difference `a` has ended
/// or holds the smaller byte.
pub open spec fn bytes_le(a: Seq<u8>, b: Seq<u8>) -> bool {
    let k = first_difference(a, b, 0);
    k == a.len() || (k < b.len() && a[k] < b[k])
}

/// The order of strings: that of their UTF-8 encodings, byte by byte.
pub open spec fn name_le(a: Seq<char>, b: Seq<char>) -> bool {
    bytes_le(encode_utf8(a), encode_utf8(b))
}

/// The names come in ascending order.
pub open spec fn ascending(names: Seq<Seq<char>>) -> bool {
    forall|i: int, j: int| 0 <= i < j < names.len() ==> name_le(names[i], names[j])
}

/// What the first difference is: everything before it agrees, and at it the two differ
/// unless one has ended.
pub proof fn lemma_first_difference(a: Seq<u8>, b: Seq<u8>, i: int)
    requires
        0 <= i <= a.len(),
        i <= b.len(),
    ensures
        i <= first_difference(a, b, i) <= a.len(),
        first_difference(a, b, i) <= b.len(),
        forall|k: int| i <= k < first_difference(a, b, i) ==> a[k] == b[k],
        first_difference(a, b, i) < a.len() && first_difference(a, b, i) < b.len() ==> a[first_difference(
            a,
            b,
            i,
        )] != b[first_difference(a, b, i)],
    decreases a.len() - i,
{
    if i < a.len() && i < b.len() && a[i] == b[i] {
        lemma_first_difference(a, b, i + 1);
    }
}

/// Of two byte strings one comes before the other or equals it.
pub proof fn lemma_bytes_le_total(a: Seq<u8>, b: Seq<u8>)
    ensures
        bytes_le(a, b) || bytes_le(b, a),
{
    lemma_first_difference(a, b, 0);
    lemma_first_difference(b, a, 0);
    let k = first_difference(a, b, 0);
    let m = first_difference(b, a, 0);
    if k < m {
        assert(b[k] == a[k]);
    } else if m < k {
        assert(a[m] == b[m]);
    }
}

/// The order of byte strings is transitive.
pub proof fn lemma_bytes_le_transitive(a: Seq<u8>, b: Seq<u8>, c: Seq<u8>)
    requires
        bytes_le(a, b),
        bytes_le(b, c),
    ensures
        bytes_le(a, c),
{
    lemma_first_difference(a, b, 0);
    lemma_first_difference(b, c, 0);
    lemma_first_difference(a, c, 0);
    let ab = first_difference(a, b, 0);
    let bc = first_difference(b, c, 0);
    let ac = first_difference(a, c, 0);
    if ac < a.len() {
        if ac < ab && ac < bc {
            assert(a[ac] == b[ac]);
            assert(b[ac] == c[ac]);
        } else if ab <= bc {
            if ab < ac {
                assert(a[ab] == c[ab]);
                if ab < bc {
                    assert(b[ab] == c[ab]);
                }
            } else {
                if ab < bc {
                    assert(b[ab] == c[ab]);
                }
            }
        } else {
            assert(a[bc] == b[bc]);
            if bc < ac {
                assert(a[bc] == c[bc]);
            }
        }
    }
}

/// Of two names one comes before the other or equals it.
pub proof fn lemma_name_le_total(a: Seq<char>, b: Seq<char>)
    ensures
        name_le(a, b) || name_le(b, a),
{
    lemma_bytes_le_total(encode_utf8(a), encode_utf8(b));
}

/// The order of names is transitive.
pub proof fn lemma_name_le_transitive(a: Seq<char>, b: Seq<char>, c: Seq<char>)
    requires
        name_le(a, b),
        name_le(b, c),
    ensures
        name_le(a, c),
{
    lemma_bytes_le_transitive(encode_utf8(a), encode_utf8(b), encode_utf8(c));
}

/// Whether `a` comes before `b` or equals it, in the order of strings.
pub fn name_precedes(a: &str, b: &str) -> (le: bool)
    ensures
        le == name_le(a@, b@),
{
    let x = a.as_bytes();
    let y = b.as_bytes();
    let mut i: usize = 0;
    while i < x.len() && i < y.len() && x[i] == y[i]
        invariant
            i <= x.len(),
            i <= y.len(),
            first_difference(x@, y@, i as int) == first_difference(x@, y@, 0),
        decreases x.len() - i,
    {
        i += 1;
    }
    i == x.len() || (i < y.len() && x[i] < y[i])
}

} // verus!
