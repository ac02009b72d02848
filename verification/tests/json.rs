use idmnoads::json::{push_member, take_member, Json};

#[test]
fn get_and_accessors() {
    let v = Json::Obj(vec![
        ("a".to_string(), Json::UInt(1)),
        ("b".to_string(), Json::Str("x".to_string())),
        ("a".to_string(), Json::UInt(2)),
    ]);
    assert_eq!(v.get("a"), Some(&Json::UInt(1)));
    assert_eq!(v.get("c"), None);
    assert_eq!(v.get("b").and_then(|x| x.as_str()), Some("x"));
    assert_eq!(v.get("a").and_then(|x| x.as_u64()), Some(1));
    assert_eq!(Json::NegInt(-1).as_u64(), None);
    assert_eq!(Json::Null.get("a"), None);
    assert!(Json::Arr(vec![]).as_array().is_some());
}

#[test]
fn take_and_push_members() {
    let mut m = Vec::new();
    push_member(&mut m, "k", Json::Bool(true));
    push_member(&mut m, "r", Json::UInt(9));
    assert_eq!(take_member(Json::Obj(m), "r"), Some(Json::UInt(9)));
    assert_eq!(take_member(Json::Null, "r"), None);
}
