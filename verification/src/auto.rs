//! What a search over a stage's free numbers is allowed to choose.
//!
//! A stage hands its searcher some numbers already decided and some not, and
//! then maps whatever the search hands back onto the full set. The bookkeeping
//! of that mapping is here, together with the question a search asks of a
//! shaper-cut member before it may hand the member back.

use vstd::prelude::*;
use crate::note::Note;

verus! {

/// A shaper-cut ring, as the search reads it: every guard that altered its
/// geometry — a space capped against the pitch, a tip lifted to the base
/// circle, a root past where the two flanks close — is recorded here.
#[derive(Clone, Debug)]
pub struct Ring {
    pub clamps: Vec<Note>,
}

/// **Whether a shaper-cut member is the part its cutter would leave**: any
/// recorded alteration means the tool did not leave the shape the shift asked
/// for.
pub fn ring_is_cut_as_asked(ring: &Ring) -> (r: bool)
    ensures
        r == (ring.clamps@.len() == 0),
{
    ring.clamps.len() == 0
}

/// How many of a set of numbers are still free.
pub open spec fn free_count<T>(given: Seq<Option<T>>) -> nat
    decreases given.len(),
{
    if given.len() == 0 {
        0
    } else {
        free_count(given.drop_last()) + if given.last() is None {
            1nat
        } else {
            0nat
        }
    }
}

/// The full set, with `free` read into the places left open, in order.
pub open spec fn placed<T>(given: Seq<Option<T>>, free: Seq<T>) -> Seq<T>
    decreases given.len(),
{
    if given.len() == 0 {
        Seq::empty()
    } else {
        let rest = placed(given.drop_last(), free);
        match given.last() {
            Some(v) => rest.push(v),
            None => rest.push(free[free_count(given.drop_last()) as int]),
        }
    }
}

/// Of a bound per number, the ones for the numbers left free, in order.
pub open spec fn kept<T, B>(given: Seq<Option<T>>, per_number: Seq<B>) -> Seq<B>
    decreases given.len(),
{
    if given.len() == 0 {
        Seq::empty()
    } else {
        let rest = kept(given.drop_last(), per_number.drop_last());
        if given.last() is None {
            rest.push(per_number.last())
        } else {
            rest
        }
    }
}

/// **Which of a fixed set of numbers a search still has to choose.**
///
/// `None` is a number left free; `Some` is one a designer gave, which a search
/// may not overrule.
#[derive(Debug, Clone)]
pub struct Freedoms<T> {
    given: Vec<Option<T>>,
}

impl<T: Copy> Freedoms<T> {
    /// What is already decided, one entry per number.
    pub closed spec fn spec_given(&self) -> Seq<Option<T>> {
        self.given@
    }

    /// From what is already decided.
    pub fn new(given: Vec<Option<T>>) -> (r: Self)
        ensures
            r.spec_given() == given@,
    {
        Freedoms { given }
    }

    /// How many numbers are left to choose — the dimension to search in, and
    /// zero where the design is already fully specified.
    pub fn count(&self) -> (r: usize)
        ensures
            r == free_count(self.spec_given()),
    {
        let mut n: usize = 0;
        let mut i: usize = 0;
        while i < self.given.len()
            invariant
                i <= self.given@.len(),
                n == free_count(self.given@.take(i as int)),
                n <= i,
            decreases self.given.len() - i,
        {
            assert(self.given@.take(i as int + 1).drop_last() =~= self.given@.take(i as int));
            if self.given[i].is_none() {
                n = n + 1;
            }
            i = i + 1;
        }
        assert(self.given@.take(self.given@.len() as int) =~= self.given@);
        n
    }

    /// The box the search sweeps, from a bound on each of the numbers — only
    /// the ones left free, in the order [`Self::place`] reads them.
    pub fn boxes<B: Copy>(&self, per_number: Vec<B>) -> (r: Vec<B>)
        requires
            per_number@.len() == self.spec_given().len(),
        ensures
            r@ == kept(self.spec_given(), per_number@),
    {
        let mut out: Vec<B> = Vec::new();
        let mut i: usize = 0;
        while i < self.given.len()
            invariant
                i <= self.given@.len(),
                per_number@.len() == self.given@.len(),
                out@ == kept(self.given@.take(i as int), per_number@.take(i as int)),
            decreases self.given.len() - i,
        {
            assert(self.given@.take(i as int + 1).drop_last() =~= self.given@.take(i as int));
            assert(per_number@.take(i as int + 1).drop_last() =~= per_number@.take(i as int));
            if self.given[i].is_none() {
                out.push(per_number[i]);
            }
            i = i + 1;
        }
        assert(self.given@.take(self.given@.len() as int) =~= self.given@);
        assert(per_number@.take(per_number@.len() as int) =~= per_number@);
        out
    }

    /// The full set, with `free` read into the places left open in order.
    ///
    /// `free` must hold at least [`Self::count`] numbers: a shorter one is a
    /// caller that searched in the wrong number of dimensions.
    pub fn place(&self, free: &Vec<T>) -> (r: Vec<T>)
        requires
            free@.len() >= free_count(self.spec_given()),
        ensures
            r@ == placed(self.spec_given(), free@),
    {
        let mut out: Vec<T> = Vec::new();
        let mut next: usize = 0;
        let mut i: usize = 0;
        proof {
            lemma_free_count_prefix(self.given@, 0, self.given@.len() as int);
            assert(self.given@.take(self.given@.len() as int) =~= self.given@);
        }
        while i < self.given.len()
            invariant
                i <= self.given@.len(),
                free@.len() >= free_count(self.given@),
                next == free_count(self.given@.take(i as int)),
                out@ == placed(self.given@.take(i as int), free@),
            decreases self.given.len() - i,
        {
            assert(self.given@.take(i as int + 1).drop_last() =~= self.given@.take(i as int));
            proof {
                lemma_free_count_prefix(self.given@, i as int + 1, self.given@.len() as int);
                assert(self.given@.take(self.given@.len() as int) =~= self.given@);
            }
            match self.given[i] {
                Some(v) => out.push(v),
                None => {
                    assert(next < free.len());
                    out.push(free[next]);
                    next = next + 1;
                },
            }
            i = i + 1;
        }
        assert(self.given@.take(self.given@.len() as int) =~= self.given@);
        out
    }
}

/// A prefix leaves no more numbers free than the whole.
proof fn lemma_free_count_prefix<T>(given: Seq<Option<T>>, j: int, k: int)
    requires
        0 <= j <= k <= given.len(),
    ensures
        free_count(given.take(j)) <= free_count(given.take(k)),
    decreases k - j,
{
    if j < k {
        lemma_free_count_prefix(given, j, k - 1);
        assert(given.take(k).drop_last() =~= given.take(k - 1));
    }
}

/// **A given number is never overruled, and the free ones are read in
/// order.** Position `i` of the placed set is the designer's number where one
/// was given, and otherwise the next unread number of the search's — the one
/// after as many as there were free places before `i`.
pub proof fn place_keeps_what_was_given<T>(given: Seq<Option<T>>, free: Seq<T>)
    ensures
        placed(given, free).len() == given.len(),
        forall|i: int|
            0 <= i < given.len() ==> #[trigger] placed(given, free)[i] == match given[i] {
                Some(v) => v,
                None => free[free_count(given.take(i)) as int],
            },
    decreases given.len(),
{
    if given.len() > 0 {
        place_keeps_what_was_given(given.drop_last(), free);
        assert forall|i: int| 0 <= i < given.len() implies #[trigger] placed(given, free)[i]
            == match given[i] {
            Some(v) => v,
            None => free[free_count(given.take(i)) as int],
        } by {
            if i < given.len() - 1 {
                assert(given.drop_last()[i] == given[i]);
                assert(given.drop_last().take(i) =~= given.take(i));
            } else {
                assert(given.drop_last() =~= given.take(i));
            }
        }
    }
}

/// **The search box and the placed set agree on dimension**: there is one
/// bound in the box for each number left free.
pub proof fn one_bound_per_free_number<T, B>(given: Seq<Option<T>>, per_number: Seq<B>)
    requires
        per_number.len() == given.len(),
    ensures
        kept(given, per_number).len() == free_count(given),
    decreases given.len(),
{
    if given.len() > 0 {
        one_bound_per_free_number(given.drop_last(), per_number.drop_last());
    }
}

/// What a designer has already pinned of a pair's two shifts.
#[derive(Debug, Clone, Copy)]
pub struct Pinned<T> {
    /// A shift a designer gave, per gear.
    pub shift: [Option<T>; 2],
    /// The signed shift sum a given centre distance implies, if one was given.
    pub sum: Option<T>,
}

impl<T> Pinned<T> {
    /// How many numbers were pinned.
    pub open spec fn spec_pinned(&self) -> int {
        (if self.shift[0] is Some {
            1int
        } else {
            0
        }) + (if self.shift[1] is Some {
            1int
        } else {
            0
        }) + (if self.sum is Some {
            1int
        } else {
            0
        })
    }

    /// How many of the two unknowns are still free. At most two numbers can
    /// be pinned: three would over-determine the pair.
    pub fn freedoms(&self) -> (r: usize)
        requires
            self.spec_pinned() <= 2,
        ensures
            r == 2 - self.spec_pinned(),
    {
        2 - (if self.shift[0].is_some() {
            1
        } else {
            0
        }) - (if self.shift[1].is_some() {
            1
        } else {
            0
        }) - (if self.sum.is_some() {
            1
        } else {
            0
        })
    }
}

/// **Each pinned number spends exactly one freedom**: nothing pinned leaves
/// both unknowns free, and pinning either shift or the sum, where it was not
/// pinned before, pins exactly one more — a given centre distance alone leaves
/// one freedom, the division between the two shifts.
pub proof fn each_pin_spends_one_freedom<T>(p: Pinned<T>, x: T)
    ensures
        (Pinned::<T> { shift: [None, None], sum: None }).spec_pinned() == 0,
        p.sum is None ==> (Pinned { shift: p.shift, sum: Some(x) }).spec_pinned() == p.spec_pinned() + 1,
        p.shift[0] is None ==> (Pinned { shift: [Some(x), p.shift[1]], sum: p.sum }).spec_pinned()
            == p.spec_pinned() + 1,
        p.shift[1] is None ==> (Pinned { shift: [p.shift[0], Some(x)], sum: p.sum }).spec_pinned()
            == p.spec_pinned() + 1,
{
}

} // verus!
