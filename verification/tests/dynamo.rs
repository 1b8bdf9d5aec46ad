use node_rankings::dtos::{NewNodeDTO, Node};
use node_rankings::dynamo::{
    create_node, find_many_nodes, node_to_item, project_node, project_nodes, ranked_query,
    stored_node, Item, NameAlias,
};
use node_rankings::dynamo_utils::{AttrEntry, AttrValue, JsonMember, JsonValue};

fn text(name: &str, value: &str) -> AttrEntry {
    AttrEntry { name: name.to_string(), value: AttrValue::S(value.to_string()) }
}

fn number(name: &str, value: &str) -> AttrEntry {
    AttrEntry { name: name.to_string(), value: AttrValue::N(value.to_string()) }
}

fn string_member(name: &str, value: &str) -> JsonMember {
    JsonMember { name: name.to_string(), value: JsonValue::String(value.to_string()) }
}

fn alice() -> NewNodeDTO {
    NewNodeDTO {
        channels: 42,
        public_key: "03c".to_string(),
        alias: "Alice".to_string(),
        capacity_in_btc: "5".to_string(),
        first_seen_iso: "2021-01-01T00:00:00Z".to_string(),
        updated_at: 1700000000,
    }
}

fn ranked(public_key: &str, channels: u64) -> Item {
    let mut node = alice();
    node.public_key = public_key.to_string();
    node.channels = channels;
    create_node("NodesRankingTable", node).item
}

#[test]
fn stored_node_has_the_key_schema() {
    assert_eq!(
        stored_node(alice()),
        Node {
            pk: "NODE".to_string(),
            sk: "PUBLIC_KEY#03c".to_string(),
            lsi1: 42,
            channels: 42,
            public_key: "03c".to_string(),
            alias: "Alice".to_string(),
            capacity: "5".to_string(),
            first_seen: "2021-01-01T00:00:00Z".to_string(),
            updated_at: 1700000000,
        }
    );
}

#[test]
fn stored_node_of_an_empty_public_key() {
    let mut node = alice();
    node.public_key = String::new();
    assert_eq!(stored_node(node).sk, "PUBLIC_KEY#");
}

#[test]
fn create_node_writes_all_attributes() {
    let request = create_node("NodesRankingTable", alice());
    assert_eq!(request.table_name, "NodesRankingTable");
    assert_eq!(
        request.item.attributes,
        vec![
            text("PK", "NODE"),
            text("SK", "PUBLIC_KEY#03c"),
            number("LSI1", "42"),
            number("channels", "42"),
            number("updated_at", "1700000000"),
            text("public_key", "03c"),
            text("alias", "Alice"),
            text("capacity", "5"),
            text("first_seen", "2021-01-01T00:00:00Z"),
        ]
    );
}

#[test]
fn rank_mirrors_the_channels() {
    for channels in [0u64, 1, 42, 4294967295, u64::MAX] {
        let mut node = alice();
        node.channels = channels;
        let item = create_node("t", node).item;
        assert_eq!(item.get("LSI1"), Some(&AttrValue::N(channels.to_string())));
        assert_eq!(item.get("LSI1"), item.get("channels"));
    }
}

#[test]
fn attribute_names_are_distinct() {
    let item = create_node("t", alice()).item;
    for (i, a) in item.attributes.iter().enumerate() {
        for b in item.attributes.iter().skip(i + 1) {
            assert_ne!(a.name, b.name);
        }
    }
}

#[test]
fn node_to_item_writes_the_fields_it_is_given() {
    let node = Node {
        pk: "P".to_string(),
        sk: "S".to_string(),
        lsi1: 1,
        channels: 2,
        public_key: "k".to_string(),
        alias: "a".to_string(),
        capacity: "c".to_string(),
        first_seen: "f".to_string(),
        updated_at: 3,
    };
    assert_eq!(
        node_to_item(&node).attributes,
        vec![
            text("PK", "P"),
            text("SK", "S"),
            number("LSI1", "1"),
            number("channels", "2"),
            number("updated_at", "3"),
            text("public_key", "k"),
            text("alias", "a"),
            text("capacity", "c"),
            text("first_seen", "f"),
        ]
    );
}

#[test]
fn get_finds_an_attribute_by_name() {
    let item = Item { attributes: vec![text("a", "1"), text("b", "2"), text("a", "3")] };
    assert_eq!(item.get("a"), Some(&AttrValue::S("1".to_string())));
    assert_eq!(item.get("b"), Some(&AttrValue::S("2".to_string())));
    assert_eq!(item.get("c"), None);
    assert_eq!(Item { attributes: vec![] }.get("a"), None);
}

#[test]
fn ranked_query_reads_the_index_downwards() {
    let request = ranked_query("NodesRankingTable");
    assert_eq!(request.table_name, "NodesRankingTable");
    assert_eq!(request.index_name, "LSI1");
    assert!(!request.scan_index_forward);
    assert_eq!(request.key_condition_expression, "#PK = :PK");
    assert_eq!(
        request.expression_attribute_names,
        vec![NameAlias { placeholder: "#PK".to_string(), name: "PK".to_string() }]
    );
    assert_eq!(request.expression_attribute_values, vec![text(":PK", "NODE")]);
}

#[test]
fn project_node_reads_four_fields() {
    let item = create_node("t", alice()).item;
    assert_eq!(
        project_node(&item),
        JsonValue::Object(vec![
            string_member("public_key", "03c"),
            string_member("alias", "Alice"),
            string_member("capacity", "5"),
            string_member("first_seen", "2021-01-01T00:00:00Z"),
        ])
    );
}

#[test]
fn project_node_fills_in_missing_fields() {
    let item = Item { attributes: vec![text("public_key", "02b")] };
    assert_eq!(
        project_node(&item),
        JsonValue::Object(vec![
            string_member("public_key", "02b"),
            string_member("alias", ""),
            string_member("capacity", "0"),
            string_member("first_seen", ""),
        ])
    );
}

#[test]
fn project_node_of_an_empty_record() {
    assert_eq!(
        project_node(&Item { attributes: vec![] }),
        JsonValue::Object(vec![
            string_member("public_key", ""),
            string_member("alias", ""),
            string_member("capacity", "0"),
            string_member("first_seen", ""),
        ])
    );
}

#[test]
fn project_node_converts_whatever_tag_it_finds() {
    let item = Item {
        attributes: vec![
            AttrEntry { name: "public_key".to_string(), value: AttrValue::Bool(true) },
            AttrEntry { name: "alias".to_string(), value: AttrValue::Unknown },
            number("capacity", "7"),
            AttrEntry {
                name: "first_seen".to_string(),
                value: AttrValue::L(vec![AttrValue::Null(true)]),
            },
        ],
    };
    assert_eq!(
        project_node(&item),
        JsonValue::Object(vec![
            JsonMember { name: "public_key".to_string(), value: JsonValue::Bool(true) },
            JsonMember { name: "alias".to_string(), value: JsonValue::Null },
            string_member("capacity", "7"),
            JsonMember {
                name: "first_seen".to_string(),
                value: JsonValue::Array(vec![JsonValue::Null]),
            },
        ])
    );
}

#[test]
fn project_nodes_keeps_the_order_of_the_index() {
    let items = vec![ranked("high", 90), ranked("middle", 50), ranked("low", 10)];
    let json = project_nodes(&items);
    let keys: Vec<String> = match json {
        JsonValue::Array(nodes) => nodes
            .into_iter()
            .map(|node| match node {
                JsonValue::Object(members) => match &members[0].value {
                    JsonValue::String(key) => key.clone(),
                    other => panic!("unexpected public key {:?}", other),
                },
                other => panic!("unexpected node {:?}", other),
            })
            .collect(),
        other => panic!("unexpected body {:?}", other),
    };
    assert_eq!(keys, vec!["high", "middle", "low"]);
}

#[test]
fn find_many_nodes_of_no_list_is_the_empty_array() {
    assert_eq!(find_many_nodes(None), "[]");
    assert_eq!(find_many_nodes(Some(vec![])), "[]");
}

#[test]
fn find_many_nodes_writes_the_response_body() {
    let items = vec![ranked("03c", 42), Item { attributes: vec![text("public_key", "02b")] }];
    assert_eq!(
        find_many_nodes(Some(items)),
        "[{\"public_key\":\"03c\",\"alias\":\"Alice\",\
         \"capacity\":\"5\",\"first_seen\":\"2021-01-01T00:00:00Z\"},\
         {\"public_key\":\"02b\",\"alias\":\"\",\"capacity\":\"0\",\"first_seen\":\"\"}]"
    );
}

#[test]
fn response_body_leaves_out_rank_and_update_time() {
    let body = find_many_nodes(Some(vec![ranked("03c", 42)]));
    assert!(!body.contains("channels"));
    assert!(!body.contains("LSI1"));
    assert!(!body.contains("updated_at"));
    assert!(!body.contains("1700000000"));
}

#[test]
fn get_does_not_depend_on_the_order_of_distinct_names() {
    let forwards = Item { attributes: vec![text("a", "1"), text("b", "2"), text("c", "3")] };
    let backwards = Item { attributes: vec![text("c", "3"), text("b", "2"), text("a", "1")] };
    for name in ["a", "b", "c", "d"] {
        assert_eq!(forwards.get(name), backwards.get(name));
    }
}
