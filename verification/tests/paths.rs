use anytype_objects::paths::{list_objects_url, object_path, objects_path, usize_to_decimal};

#[test]
fn decimal_rendering() {
    assert_eq!(usize_to_decimal(0), "0");
    assert_eq!(usize_to_decimal(7), "7");
    assert_eq!(usize_to_decimal(10), "10");
    assert_eq!(usize_to_decimal(42), "42");
    assert_eq!(usize_to_decimal(90210), "90210");
}

#[test]
fn collection_path() {
    assert_eq!(objects_path("space-1"), "/v1/spaces/space-1/objects");
}

#[test]
fn single_object_path() {
    assert_eq!(
        object_path("space-1", "obj-2"),
        "/v1/spaces/space-1/objects/obj-2"
    );
}

#[test]
fn listing_url_without_query() {
    assert_eq!(
        list_objects_url("space-1", None, None),
        "/v1/spaces/space-1/objects"
    );
}

#[test]
fn listing_url_with_limit_only() {
    assert_eq!(
        list_objects_url("space-1", Some(25), None),
        "/v1/spaces/space-1/objects?limit=25"
    );
}

#[test]
fn listing_url_with_offset_only() {
    assert_eq!(
        list_objects_url("space-1", None, Some(50)),
        "/v1/spaces/space-1/objects?offset=50"
    );
}

#[test]
fn listing_url_with_limit_and_offset() {
    assert_eq!(
        list_objects_url("space-1", Some(25), Some(50)),
        "/v1/spaces/space-1/objects?limit=25&offset=50"
    );
}
