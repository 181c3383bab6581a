use aidoku_sources::jsonptr::{resolve_ptr_table, JsonValue, PtrError};

fn s(x: &str) -> JsonValue {
    JsonValue::Str(x.to_string())
}

fn obj(es: Vec<(&str, JsonValue)>) -> JsonValue {
    JsonValue::Object(es.into_iter().map(|(k, v)| (k.to_string(), v)).collect())
}

#[test]
fn ptr_table_resolves_objects_arrays_and_nulls() {
    // [{"_1":2},"pages/SearchPage",{"_3":4},"data",[5,-1,6],"a",true]
    let table = vec![
        obj(vec![("_1", JsonValue::Int(2))]),
        s("pages/SearchPage"),
        obj(vec![("_3", JsonValue::Int(4))]),
        s("data"),
        JsonValue::Array(vec![JsonValue::Int(5), JsonValue::Int(-1), JsonValue::Int(6)]),
        s("a"),
        JsonValue::Bool(true),
    ];
    let expect = obj(vec![(
        "pages/SearchPage",
        obj(vec![("data", JsonValue::Array(vec![s("a"), JsonValue::Null, JsonValue::Bool(true)]))]),
    )]);
    assert_eq!(resolve_ptr_table(&table), Ok(expect));
}

#[test]
fn ptr_table_later_keys_overwrite_and_negative_values_are_null() {
    let table = vec![
        obj(vec![("_1", JsonValue::Int(2)), ("_1", JsonValue::Int(-3))]),
        s("k"),
        JsonValue::Number("1.5".to_string()),
    ];
    assert_eq!(resolve_ptr_table(&table), Ok(obj(vec![("k", JsonValue::Null)])));
    let table = vec![obj(vec![("_1", JsonValue::Int(2))]), s("k"), JsonValue::Number("1.5".to_string())];
    assert_eq!(resolve_ptr_table(&table), Ok(obj(vec![("k", JsonValue::Number("1.5".to_string()))])));
}

#[test]
fn ptr_table_errors() {
    assert_eq!(resolve_ptr_table(&vec![]), Err(PtrError::InvalidIndex));
    assert_eq!(resolve_ptr_table(&vec![obj(vec![("_x", JsonValue::Int(0))])]), Err(PtrError::KeyIndex));
    assert_eq!(resolve_ptr_table(&vec![obj(vec![("_0", JsonValue::Int(0))])]), Err(PtrError::KeyNotString));
    assert_eq!(resolve_ptr_table(&vec![obj(vec![("_1", s("x"))]), s("k")]), Err(PtrError::ValueIndex));
    assert_eq!(resolve_ptr_table(&vec![JsonValue::Array(vec![s("x")])]), Err(PtrError::ItemIndex));
    assert_eq!(resolve_ptr_table(&vec![JsonValue::Array(vec![JsonValue::Int(9)])]), Err(PtrError::InvalidIndex));
    assert_eq!(resolve_ptr_table(&vec![JsonValue::Array(vec![JsonValue::Int(0)])]), Err(PtrError::TooDeep));
}
