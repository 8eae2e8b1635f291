use skytab_cli::json::{as_i64, depth_at_most, path_value, to_compact_string, Json};

fn to_serde(j: &Json) -> serde_json::Value {
    match j {
        Json::Null => serde_json::Value::Null,
        Json::Bool(b) => serde_json::Value::Bool(*b),
        Json::Number(t) => serde_json::from_str(t).unwrap(),
        Json::Str(s) => serde_json::Value::String(s.clone()),
        Json::Array(v) => serde_json::Value::Array(v.iter().map(to_serde).collect()),
        Json::Object(m) => {
            let mut map = serde_json::Map::new();
            for (k, v) in m {
                map.insert(k.clone(), to_serde(v));
            }
            serde_json::Value::Object(map)
        }
    }
}

#[test]
fn compact_text_matches_serde_for_sorted_objects() {
    let v = Json::Object(vec![
        ("a".to_string(), Json::Array(vec![Json::Number("1.5".into()), Json::Null])),
        ("b".to_string(), Json::Str("tab\t quote\" slash\\ ctl\u{1} é".into())),
        ("c".to_string(), Json::Bool(false)),
    ]);
    assert_eq!(to_compact_string(&v), serde_json::to_string(&to_serde(&v)).unwrap());
}

#[test]
fn paths_and_integers() {
    let v = Json::Object(vec![(
        "a".to_string(),
        Json::Object(vec![
            ("b".to_string(), Json::Number("-12".into())),
            ("n".to_string(), Json::Null),
        ]),
    )]);
    assert!(matches!(path_value(&v, "a.b"), Some(Json::Number(t)) if t == "-12"));
    assert!(path_value(&v, "a.n").is_none());
    assert!(path_value(&v, "a.c").is_none());
    assert_eq!(as_i64(path_value(&v, "a.b").unwrap()), Some(-12));
    assert_eq!(as_i64(&Json::Number("1.0".into())), None);
    assert!(depth_at_most(&v, 2));
    assert!(!depth_at_most(&v, 1));
    assert!(depth_at_most(&Json::Null, 0));
}
