use vstd::prelude::*;

verus! {

/// A strict weak ordering ("goes strictly before") on values of a type,
/// chosen by a criterion such as the column the process table is sorted by.
pub trait Precedence: Sized {
    type Criterion: Copy;

    /// `self` goes strictly before `other` under criterion `c`.
    spec fn spec_precedes(self, other: Self, c: Self::Criterion) -> bool;

    /// Decides `spec_precedes`.
    fn precedes(&self, other: &Self, c: Self::Criterion) -> (r: bool)
        ensures
            r == self.spec_precedes(*other, c),
    ;

    /// The ordering is irreflexive, transitive, and its incomparability is
    /// transitive (a strict weak ordering).
    proof fn lemma_strict_weak(a: Self, b: Self, x: Self, c: Self::Criterion)
        ensures
            !a.spec_precedes(a, c),
            a.spec_precedes(b, c) && b.spec_precedes(x, c) ==> a.spec_precedes(x, c),
            !a.spec_precedes(b, c) && !b.spec_precedes(x, c) ==> !a.spec_precedes(x, c),
    ;
}

/// In a stable sort of `s`, the item at index `i` comes before the item at
/// index `j`: it precedes it, or the two are tied and `i` came first.
pub open spec fn goes_before<T: Precedence>(s: Seq<T>, i: int, j: int, c: T::Criterion) -> bool {
    ||| s[i].spec_precedes(s[j], c)
    ||| (!s[j].spec_precedes(s[i], c) && i < j)
}

/// `out` is `input` stably sorted under `c`, where `out[k]` is `input[perm[k]]`.
pub open spec fn is_stable_sort<T: Precedence>(
    input: Seq<T>,
    out: Seq<T>,
    perm: Seq<int>,
    c: T::Criterion,
) -> bool {
    &&& out.len() == input.len()
    &&& perm.len() == input.len()
    &&& forall|k: int| 0 <= k < out.len() ==> 0 <= #[trigger] perm[k] < input.len()
    &&& forall|k: int| 0 <= k < out.len() ==> #[trigger] out[k] == input[perm[k]]
    &&& forall|k1: int, k2: int|
        0 <= k1 < k2 < out.len() ==> #[trigger] goes_before(input, perm[k1], perm[k2], c)
    &&& forall|k1: int, k2: int|
        0 <= k1 < k2 < out.len() ==> #[trigger] perm[k1] != #[trigger] perm[k2]
}

/// A stably sorted sequence is sorted: no later item precedes an earlier
/// one, and its items are those of the input, each used once.
pub proof fn lemma_stable_sort_is_sorted<T: Precedence>(
    input: Seq<T>,
    out: Seq<T>,
    perm: Seq<int>,
    c: T::Criterion,
)
    requires
        is_stable_sort(input, out, perm, c),
    ensures
        forall|k1: int, k2: int|
            0 <= k1 < k2 < out.len() ==> !(#[trigger] out[k2]).spec_precedes(#[trigger] out[k1], c),
        forall|k: int| 0 <= k < out.len() ==> input.contains(#[trigger] out[k]),
{
    assert forall|k1: int, k2: int| 0 <= k1 < k2 < out.len() implies !(#[trigger] out[k2]).spec_precedes(
        #[trigger] out[k1],
        c,
    ) by {
        assert(goes_before(input, perm[k1], perm[k2], c));
        let a = input[perm[k1]];
        let b = input[perm[k2]];
        T::lemma_strict_weak(a, b, a, c);
        T::lemma_strict_weak(b, a, b, c);
    }
    assert forall|k: int| 0 <= k < out.len() implies input.contains(#[trigger] out[k]) by {
        assert(out[k] == input[perm[k]]);
    }
}

/// In a stable sort, "goes before" orders the distinct indices totally:
/// any two differ one way, never both ways, and the order is transitive.
pub proof fn lemma_goes_before_is_total<T: Precedence>(
    s: Seq<T>,
    i: int,
    j: int,
    k: int,
    c: T::Criterion,
)
    ensures
        i != j ==> goes_before(s, i, j, c) || goes_before(s, j, i, c),
        goes_before(s, i, j, c) ==> !goes_before(s, j, i, c),
        goes_before(s, i, j, c) && goes_before(s, j, k, c) ==> goes_before(s, i, k, c),
{
    T::lemma_strict_weak(s[i], s[j], s[k], c);
    T::lemma_strict_weak(s[i], s[k], s[j], c);
    T::lemma_strict_weak(s[j], s[i], s[k], c);
    T::lemma_strict_weak(s[j], s[k], s[i], c);
    T::lemma_strict_weak(s[k], s[i], s[j], c);
    T::lemma_strict_weak(s[k], s[j], s[i], c);
    T::lemma_strict_weak(s[i], s[j], s[i], c);
    T::lemma_strict_weak(s[j], s[i], s[j], c);
}

proof fn lemma_perm_is_onto(perm: Seq<int>, n: int)
    requires
        perm.len() == n,
        forall|k: int| 0 <= k < n ==> 0 <= #[trigger] perm[k] < n,
        forall|k1: int, k2: int| 0 <= k1 < k2 < n ==> #[trigger] perm[k1] != #[trigger] perm[k2],
    ensures
        forall|v: int| 0 <= v < n ==> #[trigger] perm.contains(v),
{
    assert(perm.no_duplicates()) by {
        assert forall|i: int, j: int| 0 <= i < perm.len() && 0 <= j < perm.len() && i != j implies perm[i]
            != perm[j] by {
            if i < j {
                assert(perm[i] != perm[j]);
            } else {
                assert(perm[j] != perm[i]);
            }
        }
    }
    perm.unique_seq_to_set();
    vstd::set_lib::lemma_int_range(0, n);
    let range = vstd::set_lib::set_int_range(0, n);
    assert(perm.to_set().subset_of(range)) by {
        assert forall|v: int| perm.to_set().contains(v) implies range.contains(v) by {
            assert(perm.contains(v));
            let k = choose|k: int| 0 <= k < perm.len() && perm[k] == v;
            assert(0 <= perm[k] < n);
        }
    }
    vstd::set_lib::lemma_len_subset(perm.to_set(), range);
    vstd::set_lib::lemma_subset_equality(perm.to_set(), range);
    assert forall|v: int| 0 <= v < n implies #[trigger] perm.contains(v) by {
        assert(range.contains(v));
        assert(perm.to_set().contains(v));
    }
}

proof fn lemma_sorts_agree_up_to<T: Precedence>(
    input: Seq<T>,
    o1: Seq<T>,
    p1: Seq<int>,
    o2: Seq<T>,
    p2: Seq<int>,
    c: T::Criterion,
    k: int,
)
    requires
        is_stable_sort(input, o1, p1, c),
        is_stable_sort(input, o2, p2, c),
        0 <= k < input.len(),
        forall|v: int| 0 <= v < input.len() ==> #[trigger] p1.contains(v),
        forall|v: int| 0 <= v < input.len() ==> #[trigger] p2.contains(v),
    ensures
        forall|j: int| 0 <= j <= k ==> #[trigger] p1[j] == p2[j],
    decreases k,
{
    if k > 0 {
        lemma_sorts_agree_up_to(input, o1, p1, o2, p2, c, k - 1);
    }
    let a = p1[k];
    let b = p2[k];
    if a != b {
        assert(p2.contains(a));
        let m = choose|m: int| 0 <= m < p2.len() && p2[m] == a;
        if m < k {
            assert(p1[m] == p2[m]);
            assert(p1[m] != p1[k]);
        }
        assert(m > k);
        assert(goes_before(input, p2[k], p2[m], c));
        assert(p1.contains(b));
        let m2 = choose|m2: int| 0 <= m2 < p1.len() && p1[m2] == b;
        if m2 < k {
            assert(p1[m2] == p2[m2]);
            assert(p2[m2] != p2[k]);
        }
        assert(m2 > k);
        assert(goes_before(input, p1[k], p1[m2], c));
        lemma_goes_before_is_total(input, a, b, a, c);
    }
}

/// The stable sort of a sequence is unique: two results that both meet
/// `is_stable_sort` for the same input are equal. So the contract of
/// `stable_sort` pins its result down.
pub proof fn stable_sort_is_unique<T: Precedence>(
    input: Seq<T>,
    o1: Seq<T>,
    p1: Seq<int>,
    o2: Seq<T>,
    p2: Seq<int>,
    c: T::Criterion,
)
    requires
        is_stable_sort(input, o1, p1, c),
        is_stable_sort(input, o2, p2, c),
    ensures
        o1 == o2,
        p1 == p2,
{
    let n = input.len() as int;
    lemma_perm_is_onto(p1, n);
    lemma_perm_is_onto(p2, n);
    if n > 0 {
        lemma_sorts_agree_up_to(input, o1, p1, o2, p2, c, n - 1);
    }
    assert(p1 =~= p2);
    assert(o1 =~= o2);
}

/// A stable sort drops nothing: the item at any index `i` of the input stands
/// somewhere in the output.
pub proof fn stable_sort_keeps_every_item<T: Precedence>(
    input: Seq<T>,
    out: Seq<T>,
    perm: Seq<int>,
    c: T::Criterion,
    i: int,
)
    requires
        is_stable_sort(input, out, perm, c),
        0 <= i < input.len(),
    ensures
        exists|q: int| 0 <= q < out.len() && #[trigger] perm[q] == i && out[q] == input[i],
{
    lemma_perm_is_onto(perm, input.len() as int);
    assert(perm.contains(i));
    let q = choose|q: int| 0 <= q < perm.len() && perm[q] == i;
    assert(out[q] == input[perm[q]]);
}

/// The first index of `v` holding an item that `x` precedes, or `v.len()`.
fn insertion_point<T: Precedence>(v: &Vec<T>, x: &T, c: T::Criterion) -> (pos: usize)
    ensures
        pos <= v@.len(),
        forall|k: int| 0 <= k < pos ==> !x.spec_precedes(#[trigger] v@[k], c),
        pos < v@.len() ==> x.spec_precedes(v@[pos as int], c),
{
    let mut pos: usize = 0;
    while pos < v.len()
        invariant
            pos <= v@.len(),
            forall|k: int| 0 <= k < pos ==> !x.spec_precedes(#[trigger] v@[k], c),
        decreases v.len() - pos,
    {
        if x.precedes(&v[pos], c) {
            return pos;
        }
        pos = pos + 1;
    }
    pos
}

/// Sorts `input` by the strict weak ordering of `T` under `c`, keeping tied
/// items in their input order (a stable sort).
pub fn stable_sort<T: Precedence>(input: Vec<T>, c: T::Criterion) -> (out: Vec<T>)
    ensures
        exists|perm: Seq<int>| is_stable_sort(input@, out@, perm, c),
{
    let total = input.len();
    let ghost inp = input@;
    let mut rest = input;
    let mut out: Vec<T> = Vec::new();
    let ghost mut perm: Seq<int> = Seq::empty();
    let mut n: usize = 0;
    while rest.len() > 0
        invariant
            n <= inp.len(),
            inp.len() == total,
            rest@ == inp.subrange(n as int, inp.len() as int),
            out@.len() == n,
            perm.len() == n,
            forall|k: int| 0 <= k < n ==> 0 <= #[trigger] perm[k] < n,
            forall|k: int| 0 <= k < n ==> #[trigger] out@[k] == inp[perm[k]],
            forall|k1: int, k2: int|
                0 <= k1 < k2 < n ==> #[trigger] goes_before(inp, perm[k1], perm[k2], c),
            forall|k1: int, k2: int|
                0 <= k1 < k2 < n ==> #[trigger] perm[k1] != #[trigger] perm[k2],
        decreases rest.len(),
    {
        let x = rest.remove(0);
        assert(x == inp[n as int]);
        let pos = insertion_point(&out, &x, c);
        let ghost old_out = out@;
        assert(pos < old_out.len() ==> x.spec_precedes(old_out[pos as int], c));
        let ghost old_perm = perm;
        out.insert(pos, x);
        proof {
            perm = old_perm.insert(pos as int, n as int);
            assert forall|k1: int, k2: int|
                0 <= k1 < k2 < n + 1 implies #[trigger] goes_before(inp, perm[k1], perm[k2], c)
                    && perm[k1] != perm[k2] by {
                if k2 < pos {
                    assert(perm[k1] == old_perm[k1] && perm[k2] == old_perm[k2]);
                } else if k1 > pos {
                    assert(perm[k1] == old_perm[k1 - 1] && perm[k2] == old_perm[k2 - 1]);
                    assert(goes_before(inp, old_perm[k1 - 1], old_perm[k2 - 1], c));
                } else if k1 < pos && k2 > pos {
                    assert(perm[k1] == old_perm[k1] && perm[k2] == old_perm[k2 - 1]);
                    assert(goes_before(inp, old_perm[k1], old_perm[k2 - 1], c));
                } else if k2 == pos {
                    assert(perm[k2] == n);
                    assert(perm[k1] == old_perm[k1]);
                    assert(!x.spec_precedes(old_out[k1], c));
                    assert(old_out[k1] == inp[old_perm[k1]]);
                } else {
                    // k1 == pos, k2 > pos: x precedes old_out[pos] and old_out[pos]
                    // goes before old_out[k2 - 1]
                    assert(perm[k1] == n);
                    assert(perm[k2] == old_perm[k2 - 1]);
                    let y = old_out[pos as int];
                    let z = old_out[k2 - 1];
                    assert(x.spec_precedes(y, c));
                    assert(y == inp[old_perm[pos as int]]);
                    assert(z == inp[old_perm[k2 - 1]]);
                    if pos < k2 - 1 {
                        assert(goes_before(inp, old_perm[pos as int], old_perm[k2 - 1], c));
                    }
                    T::lemma_strict_weak(x, y, z, c);
                    T::lemma_strict_weak(x, z, y, c);
                    assert(x.spec_precedes(z, c));
                }
            }
            assert forall|k: int| 0 <= k < n + 1 implies #[trigger] out@[k] == inp[perm[k]] by {
                if k < pos {
                } else if k == pos {
                } else {
                    assert(out@[k] == old_out[k - 1]);
                }
            }
        }
        n = n + 1;
        assert(rest@ =~= inp.subrange(n as int, inp.len() as int));
    }
    assert(exists|perm: Seq<int>| is_stable_sort(inp, out@, perm, c)) by {
        assert(is_stable_sort(inp, out@, perm, c));
    }
    out
}

} // verus!
