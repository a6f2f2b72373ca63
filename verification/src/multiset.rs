//! The columns of the lookup argument: lists of field elements in which
//! an element may occur more than once.
//!
//! The queries are sorted into the table by putting each next to its first
//! occurrence, and the sorted list is split into two halves that share the
//! element in the middle.

use crate::cs_errors::PlookupErrors;
use crate::field::Scalar;
use vstd::multiset::Multiset;
use vstd::prelude::*;
use vstd::seq_lib::{to_multiset_build, to_multiset_remove};

verus! {

/// The index of the first occurrence of `e` in `s`, or the length of `s`
/// if `e` does not occur.
pub open spec fn rank(s: Seq<Scalar>, e: Scalar) -> int
    decreases s.len(),
{
    if s.len() == 0 {
        0
    } else if s[0] == e {
        0
    } else {
        1 + rank(s.drop_first(), e)
    }
}

/// The queries `f` sorted into the table `t`: each query in turn is put
/// next to its first occurrence in the list so far. There is no such list
/// if a query is not in the table.
pub open spec fn concat_sorted(t: Seq<Scalar>, f: Seq<Scalar>) -> Option<Seq<Scalar>>
    decreases f.len(),
{
    if f.len() == 0 {
        Some(t)
    } else {
        match concat_sorted(t, f.drop_last()) {
            None => None,
            Some(s) => if s.contains(f.last()) {
                Some(s.insert(rank(s, f.last()), f.last()))
            } else {
                None
            },
        }
    }
}

/// Whether the elements of `s` come in the order in which they first occur
/// in `t`.
pub open spec fn ordered_by(t: Seq<Scalar>, s: Seq<Scalar>) -> bool {
    forall|i: int, j: int|
        0 <= i < j < s.len() ==> rank(t, #[trigger] s[i]) <= rank(t, #[trigger] s[j])
}

/// The first half of a list of at least one element: up to and with the
/// element in the middle.
pub open spec fn first_half(s: Seq<Scalar>) -> Seq<Scalar> {
    s.subrange(0, s.len() as int / 2 + 1)
}

/// The second half of a list of at least one element: from the element in
/// the middle on.
pub open spec fn second_half(s: Seq<Scalar>) -> Seq<Scalar> {
    s.subrange(s.len() as int / 2, s.len() as int)
}

/// The rank of an element is the index of its first occurrence.
pub proof fn lemma_rank(s: Seq<Scalar>, e: Scalar)
    ensures
        0 <= rank(s, e) <= s.len(),
        rank(s, e) < s.len() ==> s[rank(s, e)] == e,
        forall|k: int| 0 <= k < rank(s, e) ==> #[trigger] s[k] != e,
        rank(s, e) < s.len() <==> s.contains(e),
    decreases s.len(),
{
    if s.len() == 0 {
    } else if s[0] == e {
        assert(s.contains(e));
    } else {
        let rest = s.drop_first();
        lemma_rank(rest, e);
        assert forall|k: int| 0 <= k < rank(s, e) implies #[trigger] s[k] != e by {
            if k > 0 {
                assert(rest[k - 1] == s[k]);
            }
        }
        if rank(rest, e) < rest.len() {
            assert(s[rank(s, e)] == rest[rank(rest, e)]);
        } else {
            assert forall|k: int| 0 <= k < s.len() implies s[k] != e by {
                if k > 0 {
                    assert(rest[k - 1] == s[k]);
                }
            }
        }
    }
}

/// In a list without repetition, the rank of the element at an index is
/// that index.
pub proof fn lemma_rank_of_index(s: Seq<Scalar>, i: int)
    requires
        s.no_duplicates(),
        0 <= i < s.len(),
    ensures
        rank(s, s[i]) == i,
{
    lemma_rank(s, s[i]);
    assert(s.contains(s[i]));
}

/// Putting an element into a list adds one occurrence of it.
pub proof fn lemma_insert_to_multiset(s: Seq<Scalar>, at: int, e: Scalar)
    requires
        0 <= at <= s.len(),
    ensures
        s.insert(at, e).to_multiset() =~= s.to_multiset().insert(e),
{
    let longer = s.insert(at, e);
    to_multiset_remove(longer, at);
    assert(longer.remove(at) =~= s);
    assert(longer[at] == e);
    broadcast use vstd::seq_lib::group_to_multiset_ensures;

    assert(longer.contains(e));
    assert(longer.to_multiset().count(e) > 0);
    assert(longer.to_multiset() =~= longer.to_multiset().remove(e).insert(e));
}

/// What sorting the queries into the table gives: a list exists exactly
/// when every query is in the table; it holds the elements of the table
/// and the queries, each as often as the two together; and if nothing
/// occurs twice in the table, its elements come in the order of the table.
pub proof fn lemma_concat_sorted(t: Seq<Scalar>, f: Seq<Scalar>)
    ensures
        concat_sorted(t, f) is Some <==> forall|i: int|
            0 <= i < f.len() ==> t.contains(#[trigger] f[i]),
        concat_sorted(t, f) is Some ==> {
            let s = concat_sorted(t, f)->0;
            &&& s.len() == t.len() + f.len()
            &&& s.to_multiset() =~= t.to_multiset().add(f.to_multiset())
            &&& forall|e: Scalar| s.contains(e) <==> t.contains(e)
            &&& t.no_duplicates() ==> ordered_by(t, s)
        },
    decreases f.len(),
{
    if f.len() == 0 {
        assert(f.to_multiset() =~= Multiset::<Scalar>::empty()) by {
            broadcast use vstd::seq_lib::group_to_multiset_ensures;

        }
        assert(t.to_multiset() =~= t.to_multiset().add(Multiset::<Scalar>::empty()));
        if t.no_duplicates() {
            assert forall|i: int, j: int| 0 <= i < j < t.len() implies rank(t, #[trigger] t[i])
                <= rank(t, #[trigger] t[j]) by {
                lemma_rank_of_index(t, i);
                lemma_rank_of_index(t, j);
            }
        }
    } else {
        let head = f.drop_last();
        let e = f.last();
        lemma_concat_sorted(t, head);
        assert(f =~= head.push(e));
        assert forall|i: int| 0 <= i < head.len() implies head[i] == f[i] by {}
        match concat_sorted(t, head) {
            None => {
                let i = choose|i: int| 0 <= i < head.len() && !t.contains(#[trigger] head[i]);
                assert(!t.contains(f[i]));
            },
            Some(s) => {
                if s.contains(e) {
                    let at = rank(s, e);
                    lemma_rank(s, e);
                    let longer = s.insert(at, e);
                    lemma_insert_to_multiset(s, at, e);
                    to_multiset_build(head, e);
                    assert(longer.to_multiset() =~= t.to_multiset().add(f.to_multiset()));
                    assert forall|i: int| 0 <= i < f.len() implies t.contains(
                        #[trigger] f[i],
                    ) by {
                        if i < head.len() {
                            assert(t.contains(head[i]));
                        }
                    }
                    // every entry of the longer list is an entry of the
                    // shorter one, at an index that grows with its own
                    assert forall|i: int| 0 <= i < longer.len() implies longer[i] == s[if i
                        <= at {
                        i
                    } else {
                        i - 1
                    }] by {}
                    assert forall|x: Scalar| longer.contains(x) <==> t.contains(x) by {
                        if longer.contains(x) {
                            let i = choose|i: int| 0 <= i < longer.len() && longer[i] == x;
                            let g = if i <= at {
                                i
                            } else {
                                i - 1
                            };
                            assert(s[g] == x);
                            assert(s.contains(x));
                        }
                        if t.contains(x) {
                            assert(s.contains(x));
                            let i = choose|i: int| 0 <= i < s.len() && s[i] == x;
                            assert(longer[if i < at {
                                i
                            } else {
                                i + 1
                            }] == x);
                        }
                    }
                    if t.no_duplicates() {
                        assert forall|i: int, j: int| 0 <= i < j < longer.len() implies rank(
                            t,
                            #[trigger] longer[i],
                        ) <= rank(t, #[trigger] longer[j]) by {
                            let gi = if i <= at {
                                i
                            } else {
                                i - 1
                            };
                            let gj = if j <= at {
                                j
                            } else {
                                j - 1
                            };
                            assert(longer[i] == s[gi]);
                            assert(longer[j] == s[gj]);
                            if gi < gj {
                                assert(rank(t, s[gi]) <= rank(t, s[gj]));
                            }
                        }
                    }
                } else {
                    assert(!t.contains(e));
                    assert(!t.contains(f[f.len() - 1]));
                }
            },
        }
    }
}

/// The two halves of a list share the element in the middle, and the
/// first without that element, followed by the second, is the list.
pub proof fn lemma_halves(s: Seq<Scalar>)
    requires
        s.len() > 0,
    ensures
        first_half(s).len() > 0,
        second_half(s).len() > 0,
        first_half(s).last() == second_half(s).first(),
        first_half(s).drop_last() + second_half(s) =~= s,
        first_half(s).len() + second_half(s).len() == s.len() + 1,
{
}

/// A list of field elements in which an element may occur more than once.
#[derive(Debug)]
pub struct MultiSet(pub Vec<Scalar>);

impl View for MultiSet {
    type V = Seq<Scalar>;

    open spec fn view(&self) -> Seq<Scalar> {
        self.0@
    }
}

impl MultiSet {
    /// The empty list.
    pub fn new() -> (r: MultiSet)
        ensures
            r@ == Seq::<Scalar>::empty(),
    {
        MultiSet(Vec::new())
    }

    /// The list of the given elements.
    pub fn from_vec(elements: Vec<Scalar>) -> (r: MultiSet)
        ensures
            r@ == elements@,
    {
        MultiSet(elements)
    }

    /// Appends an element.
    pub fn push(&mut self, value: Scalar)
        ensures
            final(self)@ == old(self)@.push(value),
    {
        self.0.push(value);
    }

    /// The number of elements, each counted as often as it occurs.
    pub fn len(&self) -> (r: usize)
        ensures
            r == self@.len(),
    {
        self.0.len()
    }

    /// Whether the list is empty.
    pub fn is_empty(&self) -> (r: bool)
        ensures
            r == (self@.len() == 0),
    {
        self.0.len() == 0
    }

    /// The index of the first occurrence of `element`.
    pub fn position(&self, element: &Scalar) -> (r: Option<usize>)
        ensures
            r is Some <==> self@.contains(*element),
            r is Some ==> r->0 == rank(self@, *element),
    {
        let mut i: usize = 0;
        while i < self.0.len()
            invariant
                i <= self@.len(),
                forall|k: int| 0 <= k < i ==> #[trigger] self@[k] != *element,
            decreases self@.len() - i,
        {
            if self.0[i] == *element {
                proof {
                    lemma_rank(self@, *element);
                }
                return Some(i);
            }
            i += 1;
        }
        None
    }

    /// Whether `element` occurs in the list.
    pub fn contains(&self, element: &Scalar) -> (r: bool)
        ensures
            r == self@.contains(*element),
    {
        self.position(element).is_some()
    }

    /// Sorts the queries `f` into this table: each query in turn is put
    /// next to its first occurrence. Fails if a query is not in the table.
    pub fn sorted_concat(&self, f: &MultiSet) -> (r: Result<MultiSet, PlookupErrors>)
        ensures
            r is Ok <==> forall|i: int| 0 <= i < f@.len() ==> self@.contains(#[trigger] f@[i]),
            r is Err ==> r == Err::<MultiSet, PlookupErrors>(PlookupErrors::ElementNotIndexed),
            r is Ok ==> Some(r->Ok_0@) == concat_sorted(self@, f@),
            r is Ok ==> r->Ok_0@.to_multiset() == self@.to_multiset().add(f@.to_multiset()),
            r is Ok && self@.no_duplicates() ==> ordered_by(self@, r->Ok_0@),
    {
        let mut s: Vec<Scalar> = Vec::with_capacity(self.0.len());
        let mut k: usize = 0;
        while k < self.0.len()
            invariant
                k <= self@.len(),
                s@ == self@.subrange(0, k as int),
            decreases self@.len() - k,
        {
            s.push(self.0[k]);
            proof {
                assert(s@ =~= self@.subrange(0, k as int + 1));
            }
            k += 1;
        }
        proof {
            assert(s@ =~= self@);
            assert(f@.subrange(0, 0) =~= Seq::<Scalar>::empty());
        }
        s.reserve(f.0.len());
        let mut s = MultiSet(s);
        let mut i: usize = 0;
        while i < f.0.len()
            invariant
                i <= f@.len(),
                concat_sorted(self@, f@.subrange(0, i as int)) == Some(s@),
            decreases f@.len() - i,
        {
            let element = f.0[i];
            proof {
                let done = f@.subrange(0, i as int + 1);
                assert(done.drop_last() =~= f@.subrange(0, i as int));
                assert(done.last() == element);
            }
            match s.position(&element) {
                Some(index) => {
                    proof {
                        lemma_rank(s@, element);
                    }
                    s.0.insert(index, element);
                },
                None => {
                    proof {
                        let done = f@.subrange(0, i as int + 1);
                        assert(concat_sorted(self@, done) is None);
                        lemma_concat_sorted(self@, done);
                        let bad = choose|bad: int|
                            0 <= bad < done.len() && !self@.contains(#[trigger] done[bad]);
                        assert(done[bad] == f@[bad]);
                    }
                    return Err(PlookupErrors::ElementNotIndexed);
                },
            }
            i += 1;
        }
        proof {
            assert(f@.subrange(0, f@.len() as int) =~= f@);
            lemma_concat_sorted(self@, f@);
        }
        Ok(s)
    }

    /// Splits the list, which has at least one element, into two halves
    /// that share the element in the middle: of `[1, 2, 3, 4, 5, 6, 7]` the
    /// halves are `[1, 2, 3, 4]` and `[4, 5, 6, 7]`.
    pub fn halve(&self) -> (r: (MultiSet, MultiSet))
        requires
            self@.len() > 0,
        ensures
            r.0@ == first_half(self@),
            r.1@ == second_half(self@),
            r.0@.last() == r.1@.first(),
            r.0@.drop_last() + r.1@ == self@,
    {
        let length = self.0.len();
        let middle = length / 2;
        let mut first: Vec<Scalar> = Vec::with_capacity(middle + 1);
        let mut i: usize = 0;
        while i <= middle
            invariant
                middle == length / 2,
                length == self@.len(),
                length > 0,
                i <= middle + 1,
                first@ == self@.subrange(0, i as int),
            decreases middle + 1 - i,
        {
            first.push(self.0[i]);
            proof {
                assert(first@ =~= self@.subrange(0, i as int + 1));
            }
            i += 1;
        }
        let mut second: Vec<Scalar> = Vec::with_capacity(length - middle);
        let mut j: usize = middle;
        while j < length
            invariant
                middle == length / 2,
                length == self@.len(),
                middle <= j <= length,
                second@ == self@.subrange(middle as int, j as int),
            decreases length - j,
        {
            second.push(self.0[j]);
            proof {
                assert(second@ =~= self@.subrange(middle as int, j as int + 1));
            }
            j += 1;
        }
        proof {
            lemma_halves(self@);
        }
        (MultiSet(first), MultiSet(second))
    }
}

} // verus!
