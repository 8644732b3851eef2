use std::cell::Cell;
use std::rc::Rc;
use std::sync::Arc;

use typed_container::{
    Container, ContainerError, Factory, KnownSpecializationKey, SpecializedEntryKey, TypeIdentity,
};

#[derive(Debug, PartialEq)]
enum Part {
    Fruit(String),
    Meat(String),
    Store { fruit: Arc<Part>, meat: Arc<Part> },
    Closed,
}

struct Recipe(Box<dyn Fn(&mut Container<Part, Recipe>) -> Result<Part, ContainerError>>);

impl Factory<Part> for Recipe {
    fn build(&self, container: &mut Container<Part, Recipe>) -> Result<Part, ContainerError> {
        (self.0)(container)
    }
}

const FRUIT: TypeIdentity = TypeIdentity { token: 1 };
const MEAT: TypeIdentity = TypeIdentity { token: 2 };
const STORE: TypeIdentity = TypeIdentity { token: 3 };
const STORE_KIND: TypeIdentity = TypeIdentity { token: 100 };

fn counting(counter: &Rc<Cell<u32>>, text: &'static str) -> Recipe {
    let counter = Rc::clone(counter);
    Recipe(Box::new(move |_container| {
        counter.set(counter.get() + 1);
        Ok(Part::Fruit(text.to_string()))
    }))
}

fn failing_until(counter: &Rc<Cell<u32>>, successes_from: u32) -> Recipe {
    let counter = Rc::clone(counter);
    Recipe(Box::new(move |_container| {
        counter.set(counter.get() + 1);
        if counter.get() < successes_from {
            Err(ContainerError::MissingEntry)
        } else {
            Ok(Part::Meat("chicken".to_string()))
        }
    }))
}

fn store_recipe(counter: &Rc<Cell<u32>>) -> Recipe {
    let counter = Rc::clone(counter);
    Recipe(Box::new(move |container| {
        counter.set(counter.get() + 1);
        let fruit = container.default(FRUIT)?;
        let meat = container.default(MEAT)?;
        Ok(Part::Store { fruit, meat })
    }))
}

#[test]
fn factory_is_invoked_once() {
    let counter = Rc::new(Cell::new(0));
    let mut container: Container<Part, Recipe> = Container::new();
    container.register_factory(FRUIT, counting(&counter, "banana"));
    assert_eq!(counter.get(), 0);
    for _ in 0..3 {
        assert_eq!(*container.default(FRUIT).unwrap(), Part::Fruit("banana".to_string()));
    }
    assert_eq!(counter.get(), 1);
}

#[test]
fn specialized_factory_is_invoked_once() {
    let counter = Rc::new(Cell::new(0));
    let mut container: Container<Part, Recipe> = Container::new();
    let slot = SpecializedEntryKey::new(FRUIT, STORE_KIND, 2);
    container.register_specialized_factory(slot, counting(&counter, "cherry"));
    for _ in 0..3 {
        assert_eq!(*container.specialized(slot).unwrap(), Part::Fruit("cherry".to_string()));
    }
    assert_eq!(counter.get(), 1);
}

#[test]
fn failed_factory_is_retried() {
    let counter = Rc::new(Cell::new(0));
    let mut container: Container<Part, Recipe> = Container::new();
    container.register_factory(MEAT, failing_until(&counter, 2));
    match container.default(MEAT) {
        Err(ContainerError::FactoryError { error }) => {
            assert!(matches!(*error, ContainerError::MissingEntry));
        }
        _ => panic!("a factory error was expected"),
    }
    assert_eq!(counter.get(), 1);
    assert_eq!(*container.default(MEAT).unwrap(), Part::Meat("chicken".to_string()));
    assert_eq!(counter.get(), 2);
    assert_eq!(*container.default(MEAT).unwrap(), Part::Meat("chicken".to_string()));
    assert_eq!(counter.get(), 2);
}

#[test]
fn failed_specialized_factory_is_retried() {
    let counter = Rc::new(Cell::new(0));
    let mut container: Container<Part, Recipe> = Container::new();
    let slot = SpecializedEntryKey::new(MEAT, STORE_KIND, 0);
    container.register_specialized_factory(slot, failing_until(&counter, 3));
    assert!(matches!(container.specialized(slot), Err(ContainerError::FactoryError { .. })));
    assert!(matches!(container.specialized(slot), Err(ContainerError::FactoryError { .. })));
    assert_eq!(counter.get(), 2);
    assert_eq!(*container.specialized(slot).unwrap(), Part::Meat("chicken".to_string()));
    assert_eq!(*container.specialized(slot).unwrap(), Part::Meat("chicken".to_string()));
    assert_eq!(counter.get(), 3);
}

#[test]
fn missing_keys_give_the_error_of_their_store() {
    let mut container: Container<Part, Recipe> = Container::new();
    container.register_instance(FRUIT, Part::Fruit("banana".to_string()));
    container.register_specialized_instance(SpecializedEntryKey::new(STORE, STORE_KIND, 0), Part::Closed);
    let missing = container.default(MEAT).unwrap_err();
    assert_eq!(missing.message(), "MissingEntry");
    let missing = container.specialized(SpecializedEntryKey::new(STORE, STORE_KIND, 1)).unwrap_err();
    assert_eq!(missing.message(), "MissingSpecializedEntry");
}

#[test]
fn specializations_round_trip_in_either_order() {
    let known = KnownSpecializationKey::new(FRUIT, STORE_KIND);
    let a = SpecializedEntryKey::new_for_specialization(&known, 0);
    let b = SpecializedEntryKey::new_for_specialization(&known, 1);
    let counter = Rc::new(Cell::new(0));

    let mut forward: Container<Part, Recipe> = Container::new();
    forward.register_specialized_factory(a, counting(&counter, "apple"));
    forward.register_specialized_factory(b, counting(&counter, "berry"));
    let mut backward: Container<Part, Recipe> = Container::new();
    backward.register_specialized_factory(b, counting(&counter, "berry"));
    backward.register_specialized_factory(a, counting(&counter, "apple"));

    let first = forward.all_specialized(known).unwrap();
    let second = backward.all_specialized(known).unwrap();
    assert_eq!(first.len(), 2);
    assert_eq!(second.len(), 2);
    assert_eq!(*first[0], Part::Fruit("apple".to_string()));
    assert_eq!(*first[1], Part::Fruit("berry".to_string()));
    assert_eq!(*second[0], Part::Fruit("berry".to_string()));
    assert_eq!(*second[1], Part::Fruit("apple".to_string()));
    assert_eq!(counter.get(), 4);

    let again = forward.all_specialized(known).unwrap();
    assert!(Arc::ptr_eq(&first[0], &again[0]));
    assert!(Arc::ptr_eq(&first[1], &again[1]));
    assert!(Arc::ptr_eq(&first[0], &forward.specialized(a).unwrap()));
    assert_eq!(counter.get(), 4);
}

#[test]
fn enumeration_stops_at_the_first_failure() {
    let known = KnownSpecializationKey::new(MEAT, STORE_KIND);
    let good = Rc::new(Cell::new(0));
    let bad = Rc::new(Cell::new(0));
    let late = Rc::new(Cell::new(0));
    let mut container: Container<Part, Recipe> = Container::new();
    container
        .register_specialized_factory(known_slot(&known, 0), counting(&good, "apple"))
        .register_specialized_factory(known_slot(&known, 1), failing_until(&bad, 2))
        .register_specialized_factory(known_slot(&known, 2), counting(&late, "berry"));
    assert!(matches!(container.all_specialized(known), Err(ContainerError::FactoryError { .. })));
    assert_eq!((good.get(), bad.get(), late.get()), (1, 1, 0));
    let all = container.all_specialized(known).unwrap();
    assert_eq!(all.len(), 3);
    assert_eq!((good.get(), bad.get(), late.get()), (1, 2, 1));
}

fn known_slot(known: &KnownSpecializationKey, value: i32) -> SpecializedEntryKey {
    SpecializedEntryKey::new_for_specialization(known, value)
}

#[test]
fn factory_resolves_its_dependencies() {
    let fruit_calls = Rc::new(Cell::new(0));
    let store_calls = Rc::new(Cell::new(0));
    let mut container: Container<Part, Recipe> = Container::new();
    container
        .register_factory(FRUIT, counting(&fruit_calls, "banana"))
        .register_instance(MEAT, Part::Meat("chicken".to_string()))
        .register_factory(STORE, store_recipe(&store_calls));

    let store = container.default(STORE).unwrap();
    match &*store {
        Part::Store { fruit, meat } => {
            assert_eq!(**fruit, Part::Fruit("banana".to_string()));
            assert_eq!(**meat, Part::Meat("chicken".to_string()));
            assert!(Arc::ptr_eq(fruit, &container.default(FRUIT).unwrap()));
            assert!(Arc::ptr_eq(meat, &container.default(MEAT).unwrap()));
        }
        _ => panic!("a store was expected"),
    }
    let again = container.default(STORE).unwrap();
    assert!(Arc::ptr_eq(&store, &again));
    assert_eq!(store_calls.get(), 1);
    assert_eq!(fruit_calls.get(), 1);
}

#[test]
fn dependency_is_memoized_on_its_own() {
    let fruit_calls = Rc::new(Cell::new(0));
    let store_calls = Rc::new(Cell::new(0));
    let mut container: Container<Part, Recipe> = Container::new();
    container
        .register_factory(FRUIT, counting(&fruit_calls, "banana"))
        .register_factory(STORE, store_recipe(&store_calls));

    let failed = container.default(STORE);
    match failed {
        Err(ContainerError::FactoryError { error }) => {
            assert!(matches!(*error, ContainerError::MissingEntry));
        }
        _ => panic!("a factory error was expected"),
    }
    assert_eq!((store_calls.get(), fruit_calls.get()), (1, 1));

    container.register_instance(MEAT, Part::Meat("beef".to_string()));
    let store = container.default(STORE).unwrap();
    assert_eq!((store_calls.get(), fruit_calls.get()), (2, 1));
    match &*store {
        Part::Store { meat, .. } => assert_eq!(**meat, Part::Meat("beef".to_string())),
        _ => panic!("a store was expected"),
    }
}

#[test]
fn specialized_factory_resolves_defaults() {
    let fruit_calls = Rc::new(Cell::new(0));
    let store_calls = Rc::new(Cell::new(0));
    let known = KnownSpecializationKey::new(STORE, STORE_KIND);
    let mut container: Container<Part, Recipe> = Container::new();
    container
        .register_factory(FRUIT, counting(&fruit_calls, "banana"))
        .register_instance(MEAT, Part::Meat("chicken".to_string()))
        .register_specialized_factory(known_slot(&known, 0), store_recipe(&store_calls))
        .register_specialized_instance(known_slot(&known, 1), Part::Closed);
    let all = container.all_specialized(known).unwrap();
    assert_eq!(all.len(), 2);
    assert!(matches!(*all[0], Part::Store { .. }));
    assert_eq!(*all[1], Part::Closed);
    assert_eq!((store_calls.get(), fruit_calls.get()), (1, 1));
    assert!(matches!(container.default(STORE), Err(ContainerError::MissingEntry)));
}

#[test]
fn resolutions_share_one_object() {
    let counter = Rc::new(Cell::new(0));
    let mut container: Container<Part, Recipe> = Container::new();
    container.register_factory(FRUIT, counting(&counter, "banana"));
    container.register_instance(MEAT, Part::Meat("chicken".to_string()));
    let first = container.default(FRUIT).unwrap();
    let second = container.default(FRUIT).unwrap();
    assert!(Arc::ptr_eq(&first, &second));
    let meat = container.default(MEAT).unwrap();
    let same_meat = container.default(MEAT).unwrap();
    assert!(Arc::ptr_eq(&meat, &same_meat));
    assert!(!Arc::ptr_eq(&first, &meat));
}
