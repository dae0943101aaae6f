use event_pipeline::value::{int_to_text, nat_to_text, render_text, Object, Value};

fn key(s: &str) -> String {
    s.to_string()
}

#[test]
fn render_scalars() {
    assert_eq!(render_text(&Value::Null), "");
    assert_eq!(render_text(&Value::from(true)), "true");
    assert_eq!(render_text(&Value::from(false)), "false");
    assert_eq!(render_text(&Value::from(0i64)), "0");
    assert_eq!(render_text(&Value::from(1234567i64)), "1234567");
    assert_eq!(render_text(&Value::from(-42i64)), "-42");
    assert_eq!(render_text(&Value::from(i64::MIN)), "-9223372036854775808");
    assert_eq!(render_text(&Value::from(i64::MAX)), "9223372036854775807");
    assert_eq!(render_text(&Value::from(key("hello"))), "hello");
    assert_eq!(render_text(&Value::Timestamp(1700000000)), "1700000000");
}

#[test]
fn render_is_deterministic() {
    let v = Value::from(vec![Value::from(1i64), Value::from(key("x"))]);
    assert_eq!(render_text(&v), render_text(&v));
}

#[test]
fn number_text() {
    assert_eq!(nat_to_text(9), "9");
    assert_eq!(nat_to_text(10), "10");
    assert_eq!(nat_to_text(u64::MAX), "18446744073709551615");
    assert_eq!(int_to_text(-1), "-1");
}

#[test]
fn render_containers() {
    assert_eq!(render_text(&Value::from(Vec::<Value>::new())), "[]");
    let arr = Value::from(vec![Value::from(1i64), Value::Null, Value::from(true)]);
    assert_eq!(render_text(&arr), "[1,,true]");
    let mut obj = Object::new();
    obj.insert(key("a"), Value::from(1i64));
    obj.insert(key("b"), Value::from(vec![Value::from(key("x"))]));
    assert_eq!(render_text(&Value::from(obj)), "{a:1,b:[x]}");
    assert_eq!(render_text(&Value::from(Object::new())), "{}");
}

#[test]
fn insert_same_key_twice_keeps_one_entry_in_place() {
    let mut obj = Object::new();
    assert_eq!(obj.insert(key("first"), Value::from(1i64)), None);
    assert_eq!(obj.insert(key("k"), Value::from(2i64)), None);
    assert_eq!(obj.insert(key("last"), Value::from(3i64)), None);
    assert_eq!(obj.insert(key("k"), Value::from(20i64)), Some(Value::from(2i64)));
    assert_eq!(obj.len(), 3);
    assert_eq!(obj.get(&key("k")), Some(&Value::from(20i64)));
    assert_eq!(render_text(&Value::from(obj)), "{first:1,k:20,last:3}");
}

#[test]
fn get_missing_key() {
    let mut obj = Object::new();
    obj.insert(key("a"), Value::Null);
    assert_eq!(obj.get(&key("b")), None);
    assert_eq!(obj.get(&key("a")), Some(&Value::Null));
}
