//! The handler registry: which generator answers for which type identifier.
use std::sync::Arc;
use vstd::prelude::*;

use crate::primitive::{
    bool_canonical_values, int_canonical_values, str_canonical_values, strs_view, Corpus,
};

verus! {

/// A logical type, as the host names it.
#[derive(Clone, Copy, Debug, PartialEq, Eq, Structural, Hash)]
pub enum TypeIdentifier {
    Int,
    Bool,
    Str,
    List,
    Dict,
}

/// A generator that takes no argument and answers with a canonical set.
#[derive(Clone, Copy, Debug, PartialEq, Eq, Structural, Hash)]
pub enum Generator {
    IntCanonical,
    BoolCanonical,
    StrCanonical,
}

/// What a generator hands out: a shared canonical set of one type.
#[derive(Debug)]
pub enum GeneratedSet {
    Ints(Arc<Vec<i64>>),
    Bools(Arc<Vec<bool>>),
    Strs(Arc<Vec<&'static str>>),
}

#[derive(Clone, Copy, Debug, PartialEq, Eq, Structural, Hash)]
pub enum CorpusError {
    /// No generator is bound to the requested type identifier.
    UnsupportedType,
}

/// Whether `set` is what generator `g` answers with.
pub open spec fn generated_by(g: Generator, set: GeneratedSet) -> bool {
    match (g, set) {
        (Generator::IntCanonical, GeneratedSet::Ints(v)) => v@ == int_canonical_values(),
        (Generator::BoolCanonical, GeneratedSet::Bools(v)) => v@ == bool_canonical_values(),
        (Generator::StrCanonical, GeneratedSet::Strs(v)) => strs_view(v@) == str_canonical_values(),
        _ => false,
    }
}

impl Generator {
    /// Runs the generator through the cache.
    pub fn invoke(self, corpus: &mut Corpus) -> (r: GeneratedSet)
        requires
            old(corpus).wf(),
        ensures
            final(corpus).wf(),
            generated_by(self, r),
    {
        match self {
            Generator::IntCanonical => GeneratedSet::Ints(corpus.int_canonical_set()),
            Generator::BoolCanonical => GeneratedSet::Bools(corpus.bool_canonical_set()),
            Generator::StrCanonical => GeneratedSet::Strs(corpus.string_canonical_set()),
        }
    }
}

/// The bindings from type identifiers to generators. A binding, once made,
/// is never removed or replaced.
pub struct HandlerRegistry {
    bindings: Vec<(TypeIdentifier, Generator)>,
}

impl HandlerRegistry {
    /// No identifier is bound twice.
    pub closed spec fn wf(&self) -> bool {
        forall|a: int, b: int|
            0 <= a < b < self.bindings@.len() ==> #[trigger] self.bindings@[a].0
                != #[trigger] self.bindings@[b].0
    }

    /// The bindings as a map.
    pub closed spec fn view(&self) -> Map<TypeIdentifier, Generator> {
        Map::new(
            |id: TypeIdentifier| exists|i: int| 0 <= i < self.bindings@.len() && self.bindings@[i].0 == id,
            |id: TypeIdentifier|
                self.bindings@[choose|i: int| 0 <= i < self.bindings@.len() && self.bindings@[i].0 == id].1,
        )
    }

    /// A registry with no binding.
    pub fn new() -> (r: Self)
        ensures
            r.wf(),
            r@ == Map::<TypeIdentifier, Generator>::empty(),
    {
        let r = HandlerRegistry { bindings: Vec::new() };
        assert(r@ =~= Map::<TypeIdentifier, Generator>::empty());
        r
    }

    /// The generator bound to `id`, if any.
    pub fn lookup(&self, id: TypeIdentifier) -> (r: Option<Generator>)
        requires
            self.wf(),
        ensures
            r == (if self@.contains_key(id) {
                Some(self@[id])
            } else {
                None
            }),
    {
        let mut i: usize = 0;
        while i < self.bindings.len()
            invariant
                self.wf(),
                i <= self.bindings@.len(),
                forall|k: int| 0 <= k < i ==> self.bindings@[k].0 != id,
            decreases self.bindings@.len() - i,
        {
            let (key, g) = self.bindings[i];
            if key == id {
                proof {
                    assert(self@.contains_key(id));
                    let j = choose|j: int|
                        0 <= j < self.bindings@.len() && self.bindings@[j].0 == id;
                    assert(j == i as int) by {
                        if j > i {
                            assert(self.bindings@[i as int].0 != self.bindings@[j].0);
                        }
                    }
                }
                return Some(g);
            }
            i = i + 1;
        }
        None
    }

    /// Binds `generator` to `id`, unless `id` is bound already: a binding is never
    /// replaced. Returns whether the binding was made.
    pub fn register(&mut self, id: TypeIdentifier, generator: Generator) -> (made: bool)
        requires
            old(self).wf(),
        ensures
            final(self).wf(),
            made == !old(self)@.contains_key(id),
            final(self)@ == if made {
                old(self)@.insert(id, generator)
            } else {
                old(self)@
            },
    {
        if self.lookup(id).is_some() {
            return false;
        }
        let ghost before = self.bindings@;
        self.bindings.push((id, generator));
        let ghost after = self.bindings@;
        assert(after.len() == before.len() + 1);
        assert forall|a: int, b: int| 0 <= a < b < after.len() implies #[trigger] after[a].0
            != #[trigger] after[b].0 by {
            if b == before.len() {
                assert(after[a] == before[a]);
            } else {
                assert(after[a] == before[a] && after[b] == before[b]);
            }
        }
        assert forall|k: TypeIdentifier| #[trigger] self@.contains_key(k) == old(self)@.insert(
            id,
            generator,
        ).contains_key(k) && (self@.contains_key(k) ==> self@[k] == old(self)@.insert(
            id,
            generator,
        )[k]) by {
            if k == id {
                assert(after[before.len() as int].0 == id);
                let j = choose|j: int| 0 <= j < after.len() && after[j].0 == k;
                if j < before.len() {
                    assert(before[j].0 == id);
                    assert(old(self)@.contains_key(id));
                }
            } else {
                if old(self)@.contains_key(k) {
                    let j0 = choose|j: int| 0 <= j < before.len() && before[j].0 == k;
                    assert(after[j0] == before[j0]);
                }
                if self@.contains_key(k) {
                    let j = choose|j: int| 0 <= j < after.len() && after[j].0 == k;
                    assert(j < before.len());
                    assert(after[j] == before[j]);
                    let j0 = choose|j: int| 0 <= j < before.len() && before[j].0 == k;
                    assert(after[j0] == before[j0]);
                    assert(j == j0) by {
                        if j < j0 {
                            assert(after[j].0 != after[j0].0);
                        } else if j0 < j {
                            assert(after[j0].0 != after[j].0);
                        }
                    }
                }
            }
        }
        assert(self@ =~= old(self)@.insert(id, generator));
        true
    }

    /// The registry as populated at startup: integers, booleans and strings
    /// each bound to their canonical generator, and nothing else.
    pub fn startup() -> (r: Self)
        ensures
            r.wf(),
            r@ == map![
                TypeIdentifier::Int => Generator::IntCanonical,
                TypeIdentifier::Bool => Generator::BoolCanonical,
                TypeIdentifier::Str => Generator::StrCanonical,
            ],
    {
        let mut r = HandlerRegistry::new();
        r.register(TypeIdentifier::Int, Generator::IntCanonical);
        r.register(TypeIdentifier::Bool, Generator::BoolCanonical);
        r.register(TypeIdentifier::Str, Generator::StrCanonical);
        assert(r@ =~= map![
            TypeIdentifier::Int => Generator::IntCanonical,
            TypeIdentifier::Bool => Generator::BoolCanonical,
            TypeIdentifier::Str => Generator::StrCanonical,
        ]);
        r
    }

    /// Runs the generator bound to `id`; fails with `UnsupportedType`, and
    /// leaves the cache as it was, when none is.
    pub fn lookup_and_invoke(&self, corpus: &mut Corpus, id: TypeIdentifier) -> (r: Result<
        GeneratedSet,
        CorpusError,
    >)
        requires
            self.wf(),
            old(corpus).wf(),
        ensures
            final(corpus).wf(),
            r is Err <==> !self@.contains_key(id),
            r is Err ==> r == Err::<GeneratedSet, CorpusError>(CorpusError::UnsupportedType)
                && *final(corpus) == *old(corpus),
            r matches Ok(set) ==> generated_by(self@[id], set),
    {
        match self.lookup(id) {
            Some(g) => Ok(g.invoke(corpus)),
            None => Err(CorpusError::UnsupportedType),
        }
    }
}

} // verus!
