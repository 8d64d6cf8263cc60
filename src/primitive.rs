//! The fixed canonical sets of the primitive types, and the process-scoped
//! cache that memoizes each of them once.
use std::sync::Arc;
use vstd::prelude::*;

use crate::slot::{runs_needed, serve, OnceSlot};

verus! {

/// The canonical integers, in the order they are generated: zero, small
/// values of both signs, and the bounds of 32- and 64-bit integers.
pub open spec fn int_canonical_values() -> Seq<i64> {
    seq![
        0i64,
        1i64,
        -1i64,
        2i64,
        -2i64,
        2147483647i64,
        -2147483648i64,
        9223372036854775807i64,
        -9223372036854775808i64,
    ]
}

/// The canonical booleans, in the order they are generated.
pub open spec fn bool_canonical_values() -> Seq<bool> {
    seq![true, false]
}

/// The canonical strings, in the order they are generated.
pub open spec fn str_canonical_values() -> Seq<Seq<char>> {
    seq!["hello"@, "world"@]
}

/// The canonical integers as a set.
pub open spec fn int_canonical() -> Set<i64> {
    set![
        0i64,
        1i64,
        -1i64,
        2i64,
        -2i64,
        2147483647i64,
        -2147483648i64,
        9223372036854775807i64,
        -9223372036854775808i64,
    ]
}

/// The canonical booleans as a set.
pub open spec fn bool_canonical() -> Set<bool> {
    set![true, false]
}

/// The canonical strings as a set.
pub open spec fn str_canonical() -> Set<Seq<char>> {
    set!["hello"@, "world"@]
}

/// The character sequences of a sequence of string slices.
pub open spec fn strs_view(s: Seq<&'static str>) -> Seq<Seq<char>> {
    s.map_values(|x: &'static str| x@)
}

/// Each canonical sequence lists its set once over: no value twice, and
/// nothing else.
pub proof fn lemma_canonical_values_are_sets()
    ensures
        int_canonical_values().len() == 9,
        int_canonical_values().no_duplicates(),
        int_canonical_values().to_set() == int_canonical(),
        bool_canonical_values().len() == 2,
        bool_canonical_values().no_duplicates(),
        bool_canonical_values().to_set() == bool_canonical(),
        str_canonical_values().len() == 2,
        str_canonical_values().no_duplicates(),
        str_canonical_values().to_set() == str_canonical(),
{
    let i = int_canonical_values();
    assert(i[0] == 0 && i[1] == 1 && i[2] == -1 && i[3] == 2 && i[4] == -2);
    assert(i[5] == 2147483647 && i[6] == -2147483648);
    assert(i[7] == 9223372036854775807 && i[8] == -9223372036854775808);
    assert(i.to_set() =~= int_canonical());
    let b = bool_canonical_values();
    assert(b[0] && !b[1]);
    assert(b.to_set() =~= bool_canonical());
    let t = str_canonical_values();
    reveal_strlit("hello");
    reveal_strlit("world");
    assert("hello"@[0] != "world"@[0]);
    assert(t[0] == "hello"@ && t[1] == "world"@);
    assert(t.to_set() =~= str_canonical());
}

pub fn int_values() -> (r: Vec<i64>)
    ensures
        r@ == int_canonical_values(),
        r@.len() == 9,
        r@.no_duplicates(),
        r@.to_set() == int_canonical(),
{
    let r: Vec<i64> = vec![
        0,
        1,
        -1,
        2,
        -2,
        2147483647,
        -2147483648,
        9223372036854775807,
        -9223372036854775808,
    ];
    assert(r@ =~= int_canonical_values());
    proof {
        lemma_canonical_values_are_sets();
    }
    r
}

pub fn bool_values() -> (r: Vec<bool>)
    ensures
        r@ == bool_canonical_values(),
        r@.len() == 2,
        r@.no_duplicates(),
        r@.to_set() == bool_canonical(),
{
    let r: Vec<bool> = vec![true, false];
    assert(r@ =~= bool_canonical_values());
    proof {
        lemma_canonical_values_are_sets();
    }
    r
}

pub fn str_values() -> (r: Vec<&'static str>)
    ensures
        strs_view(r@) == str_canonical_values(),
        r@.len() == 2,
        strs_view(r@).no_duplicates(),
        strs_view(r@).to_set() == str_canonical(),
{
    let r: Vec<&'static str> = vec!["hello", "world"];
    assert(strs_view(r@) =~= str_canonical_values());
    proof {
        lemma_canonical_values_are_sets();
    }
    r
}

/// The process-scoped cache of the primitive sets: one slot per primitive
/// type, each filled on its first request and shared by every later one.
/// Requests take it by `&mut`, so callers on several threads share it behind
/// a lock, which serves them one at a time.
pub struct Corpus {
    ints: OnceSlot<Vec<i64>>,
    bools: OnceSlot<Vec<bool>>,
    strs: OnceSlot<Vec<&'static str>>,
}

impl Corpus {
    pub closed spec fn int_slot(&self) -> OnceSlot<Vec<i64>> {
        self.ints
    }

    pub closed spec fn bool_slot(&self) -> OnceSlot<Vec<bool>> {
        self.bools
    }

    pub closed spec fn str_slot(&self) -> OnceSlot<Vec<&'static str>> {
        self.strs
    }

    /// Each slot is well formed, and a filled slot holds its canonical set.
    pub open spec fn wf(&self) -> bool {
        &&& self.int_slot().wf()
        &&& self.bool_slot().wf()
        &&& self.str_slot().wf()
        &&& self.int_slot()@ matches Some(v) ==> v@ == int_canonical_values()
        &&& self.bool_slot()@ matches Some(v) ==> v@ == bool_canonical_values()
        &&& self.str_slot()@ matches Some(v) ==> strs_view(v@) == str_canonical_values()
    }

    /// A cache with every slot empty.
    pub fn new() -> (c: Self)
        ensures
            c.wf(),
            c.int_slot()@ is None,
            c.bool_slot()@ is None,
            c.str_slot()@ is None,
            c.int_slot().inits() == 0,
            c.bool_slot().inits() == 0,
            c.str_slot().inits() == 0,
    {
        Corpus { ints: OnceSlot::new(), bools: OnceSlot::new(), strs: OnceSlot::new() }
    }

    /// The canonical integers, generated on the first request only.
    pub fn int_canonical_set(&mut self) -> (r: Arc<Vec<i64>>)
        requires
            old(self).wf(),
        ensures
            final(self).wf(),
            r@ == int_canonical_values(),
            r@.len() == 9,
            r@.no_duplicates(),
            r@.to_set() == int_canonical(),
            (final(self).int_slot()@, *r) == serve(old(self).int_slot()@, *r),
            final(self).int_slot().inits() == old(self).int_slot().inits() + runs_needed(
                old(self).int_slot()@,
            ),
            final(self).bool_slot() == old(self).bool_slot(),
            final(self).str_slot() == old(self).str_slot(),
    {
        let build = || -> (v: Vec<i64>)
            ensures
                v@ == int_canonical_values(),
        {
            int_values()
        };
        let r = self.ints.get_or_create(build);
        proof {
            lemma_canonical_values_are_sets();
        }
        r
    }

    /// The canonical booleans, generated on the first request only.
    pub fn bool_canonical_set(&mut self) -> (r: Arc<Vec<bool>>)
        requires
            old(self).wf(),
        ensures
            final(self).wf(),
            r@ == bool_canonical_values(),
            r@.len() == 2,
            r@.no_duplicates(),
            r@.to_set() == bool_canonical(),
            (final(self).bool_slot()@, *r) == serve(old(self).bool_slot()@, *r),
            final(self).bool_slot().inits() == old(self).bool_slot().inits() + runs_needed(
                old(self).bool_slot()@,
            ),
            final(self).int_slot() == old(self).int_slot(),
            final(self).str_slot() == old(self).str_slot(),
    {
        let build = || -> (v: Vec<bool>)
            ensures
                v@ == bool_canonical_values(),
        {
            bool_values()
        };
        let r = self.bools.get_or_create(build);
        proof {
            lemma_canonical_values_are_sets();
        }
        r
    }

    /// The canonical strings, generated on the first request only.
    pub fn string_canonical_set(&mut self) -> (r: Arc<Vec<&'static str>>)
        requires
            old(self).wf(),
        ensures
            final(self).wf(),
            strs_view(r@) == str_canonical_values(),
            r@.len() == 2,
            strs_view(r@).no_duplicates(),
            strs_view(r@).to_set() == str_canonical(),
            (final(self).str_slot()@, *r) == serve(old(self).str_slot()@, *r),
            final(self).str_slot().inits() == old(self).str_slot().inits() + runs_needed(
                old(self).str_slot()@,
            ),
            final(self).int_slot() == old(self).int_slot(),
            final(self).bool_slot() == old(self).bool_slot(),
    {
        let build = || -> (v: Vec<&'static str>)
            ensures
                strs_view(v@) == str_canonical_values(),
        {
            str_values()
        };
        let r = self.strs.get_or_create(build);
        proof {
            lemma_canonical_values_are_sets();
        }
        r
    }
}

} // verus!
