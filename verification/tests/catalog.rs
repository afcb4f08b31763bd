use catalog_browser::content_set::{load_content_set, ContentSetMetadata};
use catalog_browser::json::{child, text, Json, LoadError, Member};
use catalog_browser::root_widget::load_collection;

fn s(text: &str) -> Json {
    Json::String(text.to_string())
}

fn obj(members: Vec<(&str, Json)>) -> Json {
    Json::Object(
        members.into_iter().map(|(key, value)| Member { key: key.to_string(), value }).collect(),
    )
}

fn container(title: Json, ref_id: Json) -> Json {
    obj(vec![(
        "set",
        obj(vec![
            ("refId", ref_id),
            (
                "text",
                obj(vec![(
                    "title",
                    obj(vec![(
                        "full",
                        obj(vec![("set", obj(vec![("default", obj(vec![("content", title)]))]))]),
                    )]),
                )]),
            ),
        ]),
    )])
}

fn home(containers: Json) -> Json {
    obj(vec![("data", obj(vec![("StandardCollection", obj(vec![("containers", containers)]))]))])
}

fn tile(url: Json) -> Json {
    obj(vec![("program", obj(vec![("default", obj(vec![("url", url)]))]))])
}

fn item(tiles: Json) -> Json {
    obj(vec![("image", obj(vec![("tile", tiles)]))])
}

fn set(items: Json) -> Json {
    obj(vec![("data", obj(vec![("CuratedSet", obj(vec![("items", items)]))]))])
}

fn record(title: &str, ref_id: &str) -> ContentSetMetadata {
    ContentSetMetadata { title: title.to_string(), ref_id: ref_id.to_string() }
}

#[test]
fn get_finds_the_member_of_an_object() {
    let json = obj(vec![("a", s("1")), ("b", Json::Bool(true)), ("c", Json::Null)]);
    assert_eq!(json.get("a"), Some(&s("1")));
    assert_eq!(json.get("b"), Some(&Json::Bool(true)));
    assert_eq!(json.get("c"), Some(&Json::Null));
    assert_eq!(json.get("d"), None);
    assert_eq!(json.get(""), None);
    assert_eq!(json.get("A"), None);
}

#[test]
fn get_takes_the_first_of_two_members_with_one_key() {
    let json = obj(vec![("a", s("first")), ("a", s("second"))]);
    assert_eq!(json.get("a"), Some(&s("first")));
}

#[test]
fn get_finds_nothing_in_what_is_no_object() {
    for json in [
        Json::Null,
        Json::Bool(false),
        Json::Number("1".to_string()),
        s("a"),
        Json::Array(vec![obj(vec![("a", Json::Null)])]),
        obj(vec![]),
    ] {
        assert_eq!(json.get("a"), None);
    }
}

#[test]
fn child_follows_a_path() {
    let json = obj(vec![("a", obj(vec![("b", s("deep"))]))]);
    assert_eq!(child(json.get("a"), "b"), Some(&s("deep")));
    assert_eq!(child(json.get("a"), "c"), None);
    assert_eq!(child(json.get("x"), "b"), None);
    assert_eq!(child(None, "b"), None);
    assert_eq!(child(child(json.get("a"), "b"), "c"), None);
}

#[test]
fn the_kinds_of_value_are_told_apart() {
    let array = Json::Array(vec![Json::Null]);
    let object = obj(vec![("a", Json::Null)]);
    let string = s("text");
    assert_eq!(array.as_array(), Some(&vec![Json::Null]));
    assert_eq!(array.as_object(), None);
    assert_eq!(array.as_str(), None);
    assert_eq!(object.as_object().map(|m| m.len()), Some(1));
    assert_eq!(object.as_array(), None);
    assert_eq!(object.as_str(), None);
    assert_eq!(string.as_str(), Some("text"));
    assert_eq!(string.as_array(), None);
    assert_eq!(string.as_object(), None);
    assert_eq!(Json::Number("7".to_string()).as_str(), None);
    assert_eq!(Json::Null.as_str(), None);
    assert_eq!(text(Some(&string)), Some("text"));
    assert_eq!(text(Some(&array)), None);
    assert_eq!(text(None), None);
}

#[test]
fn the_rows_come_out_in_the_order_of_the_containers() {
    let json = home(Json::Array(vec![
        container(s("New to Disney+"), s("ref-1")),
        container(s("Collections"), s("ref-2")),
        container(s("Trending"), s("ref-3")),
    ]));
    assert_eq!(
        load_collection(&json),
        Ok(vec![
            record("New to Disney+", "ref-1"),
            record("Collections", "ref-2"),
            record("Trending", "ref-3"),
        ])
    );
}

#[test]
fn a_container_without_title_or_reference_is_passed_over() {
    let json = home(Json::Array(vec![
        container(s("first"), s("ref-1")),
        container(Json::Null, s("ref-2")),
        container(s("third"), Json::Number("3".to_string())),
        obj(vec![("set", obj(vec![("refId", s("ref-4"))]))]),
        s("no container at all"),
        obj(vec![]),
        container(s("last"), s("ref-7")),
    ]));
    assert_eq!(load_collection(&json), Ok(vec![record("first", "ref-1"), record("last", "ref-7")]));
}

#[test]
fn an_empty_list_of_containers_gives_no_rows() {
    assert_eq!(load_collection(&home(Json::Array(vec![]))), Ok(vec![]));
}

#[test]
fn a_document_without_containers_is_an_error() {
    for json in [
        Json::Null,
        obj(vec![]),
        obj(vec![("data", obj(vec![]))]),
        obj(vec![("data", obj(vec![("StandardCollection", obj(vec![]))]))]),
        home(Json::Null),
        home(obj(vec![])),
        home(s("containers")),
        set(Json::Array(vec![])),
        Json::Array(vec![container(s("a"), s("b"))]),
    ] {
        assert_eq!(load_collection(&json), Err(LoadError::NoContainers));
    }
}

#[test]
fn the_images_come_out_in_the_order_of_the_items() {
    let json = set(Json::Array(vec![
        item(obj(vec![("1.78", tile(s("https://img/a.jpg")))])),
        item(obj(vec![("1.78", tile(s("https://img/b.jpg")))])),
        item(obj(vec![("0.71", tile(s("https://img/c.jpg")))])),
    ]));
    assert_eq!(
        load_content_set(&json),
        Ok(vec![
            "https://img/a.jpg".to_string(),
            "https://img/b.jpg".to_string(),
            "https://img/c.jpg".to_string(),
        ])
    );
}

#[test]
fn only_the_first_tile_of_an_item_counts() {
    let json = set(Json::Array(vec![
        item(obj(vec![("0.71", tile(s("first"))), ("1.78", tile(s("second")))])),
        item(obj(vec![("0.71", tile(Json::Null)), ("1.78", tile(s("unused")))])),
        item(obj(vec![("0.71", s("no tile")), ("1.78", tile(s("unused")))])),
        item(obj(vec![("1.78", tile(s("third")))])),
    ]));
    assert_eq!(load_content_set(&json), Ok(vec!["first".to_string(), "third".to_string()]));
}

#[test]
fn an_item_without_tiles_is_passed_over() {
    let json = set(Json::Array(vec![
        item(obj(vec![])),
        item(obj(vec![("1.78", tile(s("only")))])),
        item(obj(vec![("1.78", obj(vec![("program", obj(vec![]))]))])),
    ]));
    assert_eq!(load_content_set(&json), Ok(vec!["only".to_string()]));
}

#[test]
fn a_document_without_items_has_no_images() {
    for json in [
        Json::Null,
        obj(vec![]),
        obj(vec![("data", obj(vec![("CuratedSet", obj(vec![]))]))]),
        set(Json::Null),
        set(obj(vec![])),
        set(Json::Array(vec![])),
        home(Json::Array(vec![container(s("a"), s("b"))])),
    ] {
        assert_eq!(load_content_set(&json), Ok(vec![]));
    }
}

#[test]
fn an_item_whose_tiles_are_no_object_is_an_error() {
    for bad in [
        item(Json::Null),
        item(Json::Array(vec![tile(s("x"))])),
        item(s("tiles")),
        obj(vec![("image", obj(vec![]))]),
        obj(vec![]),
        Json::Null,
    ] {
        let json = set(Json::Array(vec![item(obj(vec![("1.78", tile(s("ok")))])), bad]));
        assert_eq!(load_content_set(&json), Err(LoadError::TileNotAnObject));
    }
    let first_bad = set(Json::Array(vec![Json::Null, item(obj(vec![("1.78", tile(s("ok")))]))]));
    assert_eq!(load_content_set(&first_bad), Err(LoadError::TileNotAnObject));
}
