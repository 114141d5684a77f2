use running_config::codec::{Document, Fragment};
use running_config::select::Schema;
use running_config::transform::{transform, transform_mapping};

fn value(text: &str) -> serde_json::Value {
    serde_json::from_str(text).unwrap()
}

#[test]
fn mapping_keys_get_the_singular_prefix() {
    let m = vec![("networking".to_string(), value("1")), ("rsyslog".to_string(), value("2"))];
    let r = transform_mapping("/services", m);
    assert_eq!(r, vec![("service networking".to_string(), value("1")), ("service rsyslog".to_string(), value("2"))]);
}

#[test]
fn fixed_shape_is_named_after_the_path() {
    let schema = Schema { additional_properties: false, items: false };
    match transform(schema, "/a/b/", Document::Other(value("3"))) {
        Fragment::Named(k, Document::Other(v)) => {
            assert_eq!(k, "a b");
            assert_eq!(v, value("3"));
        }
        other => panic!("unexpected {:?}", other),
    }
}

#[test]
fn list_shape_value_is_unchanged() {
    let schema = Schema { additional_properties: false, items: true };
    match transform(schema, "/users", Document::Other(value("[1, 2]"))) {
        Fragment::Whole(Document::Other(v)) => assert_eq!(v, value("[1, 2]")),
        other => panic!("unexpected {:?}", other),
    }
}

#[test]
fn list_shape_object_keys_are_prefixed() {
    let schema = Schema { additional_properties: false, items: true };
    let doc = Document::Object(vec![("x".to_string(), value("true"))]);
    match transform(schema, "/users/", doc) {
        Fragment::Whole(Document::Object(m)) => {
            assert_eq!(m, vec![("user x".to_string(), value("true"))])
        }
        other => panic!("unexpected {:?}", other),
    }
}
