use canonical_values::primitive::Corpus;
use canonical_values::registry::{
    CorpusError, GeneratedSet, Generator, HandlerRegistry, TypeIdentifier,
};

#[test]
fn startup_registry_dispatches_primitives() {
    let registry = HandlerRegistry::startup();
    let mut corpus = Corpus::new();
    match registry.lookup_and_invoke(&mut corpus, TypeIdentifier::Int) {
        Ok(GeneratedSet::Ints(v)) => assert_eq!(v.len(), 9),
        other => panic!("unexpected {:?}", other),
    }
    match registry.lookup_and_invoke(&mut corpus, TypeIdentifier::Bool) {
        Ok(GeneratedSet::Bools(v)) => assert_eq!(*v, vec![true, false]),
        other => panic!("unexpected {:?}", other),
    }
    match registry.lookup_and_invoke(&mut corpus, TypeIdentifier::Str) {
        Ok(GeneratedSet::Strs(v)) => assert_eq!(*v, vec!["hello", "world"]),
        other => panic!("unexpected {:?}", other),
    }
}

#[test]
fn unregistered_identifier_is_unsupported() {
    let registry = HandlerRegistry::startup();
    let mut corpus = Corpus::new();
    assert!(matches!(
        registry.lookup_and_invoke(&mut corpus, TypeIdentifier::List),
        Err(CorpusError::UnsupportedType)
    ));
    assert!(matches!(
        registry.lookup_and_invoke(&mut corpus, TypeIdentifier::Dict),
        Err(CorpusError::UnsupportedType)
    ));
    let empty = HandlerRegistry::new();
    assert!(matches!(
        empty.lookup_and_invoke(&mut corpus, TypeIdentifier::Int),
        Err(CorpusError::UnsupportedType)
    ));
}

#[test]
fn bindings_are_never_replaced() {
    let mut registry = HandlerRegistry::new();
    assert!(registry.register(TypeIdentifier::List, Generator::BoolCanonical));
    assert!(!registry.register(TypeIdentifier::List, Generator::IntCanonical));
    assert_eq!(registry.lookup(TypeIdentifier::List), Some(Generator::BoolCanonical));
    assert_eq!(registry.lookup(TypeIdentifier::Int), None);
    let mut corpus = Corpus::new();
    match registry.lookup_and_invoke(&mut corpus, TypeIdentifier::List) {
        Ok(GeneratedSet::Bools(v)) => assert_eq!(*v, vec![true, false]),
        other => panic!("unexpected {:?}", other),
    }
}

#[test]
fn generators_invoke_through_the_cache() {
    let mut corpus = Corpus::new();
    let a = Generator::StrCanonical.invoke(&mut corpus);
    let b = Generator::StrCanonical.invoke(&mut corpus);
    match (a, b) {
        (GeneratedSet::Strs(x), GeneratedSet::Strs(y)) => {
            assert!(std::sync::Arc::ptr_eq(&x, &y))
        }
        other => panic!("unexpected {:?}", other),
    }
}
