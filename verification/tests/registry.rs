use mock_builder::{Error, Registry};

type Stub = Box<dyn Fn(i32) -> i32>;

fn returning(value: i32) -> Stub {
    Box::new(move |_| value)
}

#[test]
fn a_new_registry_holds_nothing() {
    let registry: Registry<Stub> = Registry::new();
    for id in ["", "a::b,trait=", "a::b,trait=T"] {
        assert_eq!(
            registry.execute(id, 0, "i32->i32"),
            Err(Error::UnregisteredCall(id.to_string()))
        );
        assert!(matches!(registry.find(id, "i32->i32"), Err(Error::UnregisteredCall(name)) if name == id));
    }
}

#[test]
fn what_is_registered_is_executed() {
    let mut registry: Registry<Stub> = Registry::new();
    registry.register("double", Box::new(|x| 2 * x), "i32->i32");
    registry.register("negate", Box::new(|x| -x), "i32->i32");

    assert_eq!(registry.execute("double", 21, "i32->i32"), Ok(42));
    assert_eq!(registry.execute("negate", 21, "i32->i32"), Ok(-21));
    assert_eq!(registry.find("double", "i32->i32").map(|f| f(4)), Ok(8));
}

#[test]
fn the_last_registration_wins() {
    let mut registry = Registry::new();
    registry.register("k", returning(23), "i32->i32");
    assert_eq!(registry.execute("k", 0, "i32->i32"), Ok(23));

    registry.register("k", returning(42), "i32->i32");
    assert_eq!(registry.execute("k", 0, "i32->i32"), Ok(42));
    assert_eq!(registry.execute("k", 0, "i32->i32"), Ok(42));
}

#[test]
fn a_registration_replaces_the_signature_too() {
    let mut registry = Registry::new();
    registry.register("k", returning(23), "i32->i32");
    registry.register("k", returning(42), "i64->i64");

    assert_eq!(registry.execute("k", 0, "i32->i32"), Err(Error::TypeMismatch));
    assert_eq!(registry.execute("k", 0, "i64->i64"), Ok(42));
}

#[test]
fn a_registration_keeps_the_others() {
    let mut registry = Registry::new();
    registry.register("a", returning(1), "i32->i32");
    registry.register("b", returning(2), "i32->i32");
    registry.register("c", returning(3), "i32->i32");
    registry.register("b", returning(20), "i32->i32");

    assert_eq!(registry.execute("a", 0, "i32->i32"), Ok(1));
    assert_eq!(registry.execute("b", 0, "i32->i32"), Ok(20));
    assert_eq!(registry.execute("c", 0, "i32->i32"), Ok(3));
    assert_eq!(
        registry.execute("d", 0, "i32->i32"),
        Err(Error::UnregisteredCall("d".to_string()))
    );
}

#[test]
fn another_signature_is_a_mismatch() {
    let mut registry = Registry::new();
    registry.register("k", returning(23), "i32->i32");

    assert_eq!(registry.execute("k", 0, "i32->i64"), Err(Error::TypeMismatch));
    assert_eq!(registry.execute("k", 0, ""), Err(Error::TypeMismatch));
    assert!(matches!(registry.find("k", "u8->u8"), Err(Error::TypeMismatch)));
}

#[test]
fn registries_do_not_share_their_mocks() {
    let mut first = Registry::new();
    first.register("k", returning(23), "i32->i32");
    let mut second: Registry<Stub> = Registry::new();

    assert_eq!(
        second.execute("k", 0, "i32->i32"),
        Err(Error::UnregisteredCall("k".to_string()))
    );
    second.register("k", returning(42), "i32->i32");
    assert_eq!(first.execute("k", 0, "i32->i32"), Ok(23));
    assert_eq!(second.execute("k", 0, "i32->i32"), Ok(42));
}
