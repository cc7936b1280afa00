//! The order of entry directory names: byte by byte, as the file system
//! compares the paths of directories that share a parent. Entry names are
//! timestamps, so this order is oldest first.

use vstd::prelude::*;
use vstd::utf8::encode_utf8;

verus! {

broadcast use vstd::seq_lib::group_to_multiset_ensures;

/// The bytes of a name.
pub open spec fn name_bytes(s: String) -> Seq<u8> {
    encode_utf8(s@)
}

/// Lexicographic order on byte strings (a prefix comes first).
pub open spec fn bytes_le(a: Seq<u8>, b: Seq<u8>) -> bool
    decreases a.len(),
{
    if a.len() == 0 {
        true
    } else if b.len() == 0 {
        false
    } else if a[0] != b[0] {
        a[0] < b[0]
    } else {
        bytes_le(a.drop_first(), b.drop_first())
    }
}

/// Names in ascending byte order.
pub open spec fn names_sorted(s: Seq<String>) -> bool {
    forall|i: int, j: int| 0 <= i < j < s.len() ==> bytes_le(#[trigger] name_bytes(s[i]), #[trigger] name_bytes(s[j]))
}

/// Any two byte strings are ordered one way or the other.
pub proof fn lemma_bytes_le_total(a: Seq<u8>, b: Seq<u8>)
    ensures
        bytes_le(a, b) || bytes_le(b, a),
    decreases a.len(),
{
    if a.len() > 0 && b.len() > 0 && a[0] == b[0] {
        lemma_bytes_le_total(a.drop_first(), b.drop_first());
    }
}

/// The order is transitive.
pub proof fn lemma_bytes_le_trans(a: Seq<u8>, b: Seq<u8>, c: Seq<u8>)
    requires
        bytes_le(a, b),
        bytes_le(b, c),
    ensures
        bytes_le(a, c),
    decreases a.len(),
{
    if a.len() > 0 && b.len() > 0 && c.len() > 0 && a[0] == b[0] && b[0] == c[0] {
        lemma_bytes_le_trans(a.drop_first(), b.drop_first(), c.drop_first());
    }
}

proof fn lemma_bytes_le_skip(a: Seq<u8>, b: Seq<u8>, i: int)
    requires
        0 <= i <= a.len(),
        i <= b.len(),
        forall|j: int| 0 <= j < i ==> a[j] == b[j],
    ensures
        bytes_le(a, b) == bytes_le(a.skip(i), b.skip(i)),
    decreases i,
{
    if i == 0 {
        assert(a.skip(0) =~= a);
        assert(b.skip(0) =~= b);
    } else {
        assert(a[0] == b[0]);
        lemma_bytes_le_skip(a.drop_first(), b.drop_first(), i - 1);
        assert(a.drop_first().skip(i - 1) =~= a.skip(i));
        assert(b.drop_first().skip(i - 1) =~= b.skip(i));
    }
}

/// Whether `a` comes no later than `b`.
pub fn bytes_le_exec(a: &[u8], b: &[u8]) -> (r: bool)
    ensures
        r == bytes_le(a@, b@),
{
    let mut i: usize = 0;
    while i < a.len() && i < b.len()
        invariant
            i <= a@.len(),
            i <= b@.len(),
            forall|j: int| 0 <= j < i ==> a@[j] == b@[j],
        decreases a@.len() - i,
    {
        if a[i] != b[i] {
            proof {
                lemma_bytes_le_skip(a@, b@, i as int);
                assert(a@.skip(i as int)[0] == a@[i as int]);
                assert(b@.skip(i as int)[0] == b@[i as int]);
            }
            return a[i] < b[i];
        }
        i = i + 1;
    }
    proof {
        lemma_bytes_le_skip(a@, b@, i as int);
    }
    i == a.len()
}

/// Whether name `a` comes no later than name `b`.
pub fn name_le(a: &String, b: &String) -> (r: bool)
    ensures
        r == bytes_le(name_bytes(*a), name_bytes(*b)),
{
    bytes_le_exec(a.as_str().as_bytes(), b.as_str().as_bytes())
}

/// The names in ascending byte order: the same names, each as often.
pub fn sort_names(names: Vec<String>) -> (r: Vec<String>)
    ensures
        r@.to_multiset() == names@.to_multiset(),
        names_sorted(r@),
{
    let n = names.len();
    let mut r: Vec<String> = Vec::new();
    for i in 0..n
        invariant
            n == names@.len(),
            r@.to_multiset() == names@.take(i as int).to_multiset(),
            names_sorted(r@),
    {
        let x = names[i].clone();
        let mut pos: usize = 0;
        while pos < r.len() && name_le(&r[pos], &x)
            invariant
                pos <= r@.len(),
                names_sorted(r@),
                forall|k: int| 0 <= k < pos ==> bytes_le(#[trigger] name_bytes(r@[k]), name_bytes(x)),
            decreases r@.len() - pos,
        {
            pos = pos + 1;
        }
        let ghost before = r@;
        proof {
            if pos < before.len() {
                lemma_bytes_le_total(name_bytes(before[pos as int]), name_bytes(x));
                assert forall|k: int| pos <= k < before.len() implies bytes_le(name_bytes(x), #[trigger] name_bytes(before[k])) by {
                    if k > pos {
                        assert(bytes_le(name_bytes(before[pos as int]), name_bytes(before[k])));
                        lemma_bytes_le_trans(name_bytes(x), name_bytes(before[pos as int]), name_bytes(before[k]));
                    }
                }
            }
        }
        r.insert(pos, x);
        proof {
            let after = r@;
            assert(after == before.insert(pos as int, x));
            assert forall|i: int, j: int| 0 <= i < j < after.len() implies bytes_le(#[trigger] name_bytes(after[i]), #[trigger] name_bytes(after[j])) by {
                if j < pos {
                    assert(after[i] == before[i] && after[j] == before[j]);
                } else if j == pos {
                    assert(after[i] == before[i]);
                } else if i == pos {
                    assert(after[j] == before[j - 1]);
                } else if i < pos {
                    assert(after[i] == before[i] && after[j] == before[j - 1]);
                    assert(bytes_le(name_bytes(before[i]), name_bytes(x)));
                    assert(bytes_le(name_bytes(x), name_bytes(before[j - 1])));
                    lemma_bytes_le_trans(name_bytes(before[i]), name_bytes(x), name_bytes(before[j - 1]));
                } else {
                    assert(after[i] == before[i - 1] && after[j] == before[j - 1]);
                }
            }
            assert(names@.take(i + 1) =~= names@.take(i as int).push(names@[i as int]));
        }
    }
    proof {
        assert(names@.take(n as int) =~= names@);
    }
    r
}

} // verus!
