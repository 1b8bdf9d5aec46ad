//! The ranking store: the key schema under which nodes are written, the
//! query that lists them by rank, and the shape in which they are read back.

use crate::decimal::{decimal_text, decimal_value, lemma_decimal_value_of_text, to_decimal};
use crate::dtos::{NewNodeDTO, Node};
use crate::dynamo_utils::{
    attr_to_json, attribute_value_to_json, distinct_member_names, distinct_names, entries_view,
    json_member_views_upto,
    json_views_upto, lemma_attr_entry_views, lemma_json_member_views, lemma_json_views,
    maps_well_formed, objects_well_formed, AttrEntry, AttrMemberModel, AttrModel, AttrValue,
    JsonMember, JsonMemberModel, JsonModel, JsonValue,
};
use crate::json_text::{json_text, to_json_text};
use vstd::prelude::*;

verus! {

/// One stored record: its attributes by name.
#[derive(Debug, PartialEq, Eq)]
pub struct Item {
    pub attributes: Vec<AttrEntry>,
}

impl View for Item {
    type V = Seq<AttrMemberModel>;

    open spec fn view(&self) -> Seq<AttrMemberModel> {
        entries_view(self.attributes@)
    }
}

/// The value of the first entry named `name` at or after position `from`.
pub open spec fn attr_get_from(entries: Seq<AttrMemberModel>, name: Seq<char>, from: nat) -> Option<
    AttrModel,
>
    decreases entries.len() - from,
{
    if from >= entries.len() {
        None
    } else if entries[from as int].name == name {
        Some(entries[from as int].value)
    } else {
        attr_get_from(entries, name, from + 1)
    }
}

/// The value of the attribute named `name`, if the record has one.
pub open spec fn attr_get(entries: Seq<AttrMemberModel>, name: Seq<char>) -> Option<AttrModel> {
    attr_get_from(entries, name, 0)
}

/// Whether a record names each attribute once, and so does every map in it.
pub open spec fn well_formed_record(entries: Seq<AttrMemberModel>) -> bool {
    maps_well_formed(AttrModel::M(entries))
}

/// The first entry named `name` at or after `from` is an entry of the
/// record, and where there is none, no entry from there on has that name.
pub proof fn lemma_attr_get_from(entries: Seq<AttrMemberModel>, name: Seq<char>, from: nat)
    ensures
        match attr_get_from(entries, name, from) {
            Some(value) => exists|i: int|
                {
                    &&& from <= i < entries.len()
                    &&& (#[trigger] entries[i]).name == name
                    &&& entries[i].value == value
                },
            None => forall|i: int|
                from <= i < entries.len() ==> (#[trigger] entries[i]).name != name,
        },
    decreases entries.len() - from,
{
    if from < entries.len() {
        if entries[from as int].name != name {
            lemma_attr_get_from(entries, name, from + 1);
        }
    }
}

/// In a record that names each attribute once, a lookup finds the entry of
/// that name wherever it stands: the order of the entries does not matter.
pub proof fn lemma_attr_get_of_distinct(entries: Seq<AttrMemberModel>, at: int)
    requires
        distinct_names(entries),
        0 <= at < entries.len(),
    ensures
        attr_get(entries, entries[at].name) == Some(entries[at].value),
{
    lemma_attr_get_from(entries, entries[at].name, 0);
}

impl Item {
    /// The attribute named `name`, if the record has one.
    pub fn get(&self, name: &str) -> (found: Option<&AttrValue>)
        ensures
            match found {
                Some(value) => attr_get(self@, name@) == Some(value@),
                None => attr_get(self@, name@) is None,
            },
    {
        let wanted = name.to_owned();
        let ghost models = self@;
        proof {
            lemma_attr_entry_views(self.attributes@, self.attributes@.len());
        }
        let mut i: usize = 0;
        while i < self.attributes.len()
            invariant
                i <= self.attributes.len(),
                wanted@ == name@,
                models == self@,
                models.len() == self.attributes.len(),
                forall|k: int|
                    0 <= k < self.attributes.len() ==> #[trigger] models[k]
                        == self.attributes[k]@,
                attr_get(models, name@) == attr_get_from(models, name@, i as nat),
            decreases self.attributes.len() - i,
        {
            if self.attributes[i].name == wanted {
                return Some(&self.attributes[i].value);
            }
            i += 1;
        }
        None
    }
}

/// The sort key of the node with the public key `public_key`.
pub open spec fn sort_key(public_key: Seq<char>) -> Seq<char> {
    "PUBLIC_KEY#"@ + public_key
}

/// Two nodes share a sort key exactly when they share a public key: a
/// second write of a node replaces the first, and no two nodes replace one
/// another.
pub proof fn lemma_sort_key_identifies_node(a: Seq<char>, b: Seq<char>)
    ensures
        sort_key(a) == sort_key(b) <==> a == b,
{
    let prefix = "PUBLIC_KEY#"@;
    if sort_key(a) == sort_key(b) {
        assert(a.len() == b.len()) by {
            assert(sort_key(a).len() == prefix.len() + a.len());
            assert(sort_key(b).len() == prefix.len() + b.len());
        }
        assert forall|i: int| 0 <= i < a.len() implies a[i] == b[i] by {
            assert(sort_key(a)[prefix.len() + i] == a[i]);
            assert(sort_key(b)[prefix.len() + i] == b[i]);
        }
        assert(a =~= b);
    }
}

/// The record under which a new node is stored: the node's own fields, the
/// partition key shared by all nodes, the sort key made of the node's
/// public key, and the rank, which mirrors the number of channels.
pub open spec fn stored_node_of(new_node: NewNodeDTO, node: Node) -> bool {
    &&& node.pk@ == "NODE"@
    &&& node.sk@ == sort_key(new_node.public_key@)
    &&& node.lsi1 == new_node.channels
    &&& node.channels == new_node.channels
    &&& node.public_key@ == new_node.public_key@
    &&& node.alias@ == new_node.alias@
    &&& node.capacity@ == new_node.capacity_in_btc@
    &&& node.first_seen@ == new_node.first_seen_iso@
    &&& node.updated_at == new_node.updated_at
}

/// Whether a stored record keeps the key schema: the fixed partition key,
/// the sort key made of its public key, and a rank equal to its channels.
pub open spec fn well_keyed(node: Node) -> bool {
    &&& node.pk@ == "NODE"@
    &&& node.sk@ == sort_key(node.public_key@)
    &&& node.lsi1 == node.channels
}

/// The record under which `new_node` is stored.
pub fn stored_node(new_node: NewNodeDTO) -> (node: Node)
    ensures
        stored_node_of(new_node, node),
        well_keyed(node),
{
    let mut sk = "PUBLIC_KEY#".to_owned();
    sk.append(new_node.public_key.as_str());
    Node {
        pk: "NODE".to_owned(),
        sk,
        lsi1: new_node.channels,
        channels: new_node.channels,
        public_key: new_node.public_key,
        alias: new_node.alias,
        capacity: new_node.capacity_in_btc,
        first_seen: new_node.first_seen_iso,
        updated_at: new_node.updated_at,
    }
}

/// A string attribute named `name`.
pub open spec fn text_attribute(name: Seq<char>, text: Seq<char>) -> AttrMemberModel {
    AttrMemberModel { name: name, value: AttrModel::S(text) }
}

/// A numeric attribute named `name`, carrying the decimal text of `n`.
pub open spec fn number_attribute(name: Seq<char>, n: nat) -> AttrMemberModel {
    AttrMemberModel { name: name, value: AttrModel::N(decimal_text(n)) }
}

/// The attributes under which a record is written, in the order of writing.
pub open spec fn node_attributes(node: Node) -> Seq<AttrMemberModel> {
    seq![
        text_attribute("PK"@, node.pk@),
        text_attribute("SK"@, node.sk@),
        number_attribute("LSI1"@, node.lsi1 as nat),
        number_attribute("channels"@, node.channels as nat),
        number_attribute("updated_at"@, node.updated_at as nat),
        text_attribute("public_key"@, node.public_key@),
        text_attribute("alias"@, node.alias@),
        text_attribute("capacity"@, node.capacity@),
        text_attribute("first_seen"@, node.first_seen@),
    ]
}

/// The attributes under which a new node is written: those of its stored
/// record, with the fixed partition key, the sort key made of the public
/// key, and the rank equal to the channels.
pub open spec fn new_node_attributes(new_node: NewNodeDTO) -> Seq<AttrMemberModel> {
    seq![
        text_attribute("PK"@, "NODE"@),
        text_attribute("SK"@, sort_key(new_node.public_key@)),
        number_attribute("LSI1"@, new_node.channels as nat),
        number_attribute("channels"@, new_node.channels as nat),
        number_attribute("updated_at"@, new_node.updated_at as nat),
        text_attribute("public_key"@, new_node.public_key@),
        text_attribute("alias"@, new_node.alias@),
        text_attribute("capacity"@, new_node.capacity_in_btc@),
        text_attribute("first_seen"@, new_node.first_seen_iso@),
    ]
}

/// The entry of a string attribute.
fn text_entry(name: &str, text: &String) -> (entry: AttrEntry)
    ensures
        entry@ == text_attribute(name@, text@),
{
    AttrEntry { name: name.to_owned(), value: AttrValue::S(text.clone()) }
}

/// The entry of a numeric attribute.
fn number_entry(name: &str, n: u64) -> (entry: AttrEntry)
    ensures
        entry@ == number_attribute(name@, n as nat),
{
    AttrEntry { name: name.to_owned(), value: AttrValue::N(to_decimal(n)) }
}

/// The attributes under which `node` is written.
pub fn node_to_item(node: &Node) -> (item: Item)
    ensures
        item@ == node_attributes(*node),
        well_formed_record(item@),
{
    let mut attributes: Vec<AttrEntry> = Vec::new();
    attributes.push(text_entry("PK", &node.pk));
    attributes.push(text_entry("SK", &node.sk));
    attributes.push(number_entry("LSI1", node.lsi1));
    attributes.push(number_entry("channels", node.channels));
    attributes.push(number_entry("updated_at", node.updated_at));
    attributes.push(text_entry("public_key", &node.public_key));
    attributes.push(text_entry("alias", &node.alias));
    attributes.push(text_entry("capacity", &node.capacity));
    attributes.push(text_entry("first_seen", &node.first_seen));
    proof {
        lemma_attr_entry_views(attributes@, attributes@.len());
        assert(entries_view(attributes@) =~= node_attributes(*node));
        lemma_attribute_names_distinct(*node);
    }
    Item { attributes }
}

/// One write of a whole record to a table: it replaces whatever the table
/// held under the record's keys.
#[derive(Debug, PartialEq, Eq)]
pub struct PutRequest {
    pub table_name: String,
    pub item: Item,
}

/// The write that stores `new_node` in the table `table_name`.
///
/// The record is written whole, with the duplicated rank, under the keys
/// made from the node's public key.
pub fn create_node(table_name: &str, new_node: NewNodeDTO) -> (request: PutRequest)
    ensures
        request.table_name@ == table_name@,
        request.item@ == new_node_attributes(new_node),
        well_formed_record(request.item@),
        attr_get(request.item@, "PK"@) == Some(AttrModel::S("NODE"@)),
        attr_get(request.item@, "SK"@) == Some(AttrModel::S(sort_key(new_node.public_key@))),
        attr_get(request.item@, "LSI1"@) == Some(
            AttrModel::N(decimal_text(new_node.channels as nat)),
        ),
        attr_get(request.item@, "channels"@) == attr_get(request.item@, "LSI1"@),
{
    let node = stored_node(new_node);
    let item = node_to_item(&node);
    proof {
        lemma_written_keys(node);
        assert(node_attributes(node) =~= new_node_attributes(new_node));
    }
    PutRequest { table_name: table_name.to_owned(), item }
}

/// The names of the nine attributes of a written record differ from one another.
pub proof fn lemma_attribute_names_distinct(node: Node)
    ensures
        distinct_names(node_attributes(node)),
        well_formed_record(node_attributes(node)),
{
    reveal_strlit("PK");
    reveal_strlit("SK");
    reveal_strlit("LSI1");
    reveal_strlit("channels");
    reveal_strlit("updated_at");
    reveal_strlit("public_key");
    reveal_strlit("alias");
    reveal_strlit("capacity");
    reveal_strlit("first_seen");
    let a = node_attributes(node);
    assert(a[0].name.len() == 2 && a[0].name[0] == 'P');
    assert(a[1].name.len() == 2 && a[1].name[0] == 'S');
    assert(a[2].name.len() == 4);
    assert(a[3].name.len() == 8 && a[3].name[1] == 'h');
    assert(a[4].name.len() == 10 && a[4].name[1] == 'p');
    assert(a[5].name.len() == 10 && a[5].name[1] == 'u');
    assert(a[6].name.len() == 5);
    assert(a[7].name.len() == 8 && a[7].name[1] == 'a');
    assert(a[8].name.len() == 10 && a[8].name[1] == 'i');
    assert forall|i: int| 0 <= i < a.len() implies maps_well_formed((#[trigger] a[i]).value) by {
        assert(a[i].value is S || a[i].value is N);
    }
}

/// A written record is found again under each of its names. In particular
/// the rank is written together with the channels and equals them: the
/// secondary index never orders a record by a stale number.
pub proof fn lemma_written_keys(node: Node)
    ensures
        attr_get(node_attributes(node), "PK"@) == Some(AttrModel::S(node.pk@)),
        attr_get(node_attributes(node), "SK"@) == Some(AttrModel::S(node.sk@)),
        attr_get(node_attributes(node), "LSI1"@) == Some(
            AttrModel::N(decimal_text(node.lsi1 as nat)),
        ),
        attr_get(node_attributes(node), "channels"@) == Some(
            AttrModel::N(decimal_text(node.channels as nat)),
        ),
        attr_get(node_attributes(node), "updated_at"@) == Some(
            AttrModel::N(decimal_text(node.updated_at as nat)),
        ),
        attr_get(node_attributes(node), "public_key"@) == Some(AttrModel::S(node.public_key@)),
        attr_get(node_attributes(node), "alias"@) == Some(AttrModel::S(node.alias@)),
        attr_get(node_attributes(node), "capacity"@) == Some(AttrModel::S(node.capacity@)),
        attr_get(node_attributes(node), "first_seen"@) == Some(AttrModel::S(node.first_seen@)),
        well_keyed(node) ==> attr_get(node_attributes(node), "LSI1"@) == attr_get(
            node_attributes(node),
            "channels"@,
        ),
{
    lemma_attribute_names_distinct(node);
    let a = node_attributes(node);
    reveal_with_fuel(attr_get_from, 10);
    assert(a[0].name == "PK"@);
    assert(a[1].name == "SK"@);
    assert(a[2].name == "LSI1"@);
    assert(a[3].name == "channels"@);
    assert(a[4].name == "updated_at"@);
    assert(a[5].name == "public_key"@);
    assert(a[6].name == "alias"@);
    assert(a[7].name == "capacity"@);
    assert(a[8].name == "first_seen"@);
}

/// The rank under which the secondary index orders a record: the number
/// that its `LSI1` attribute denotes, if it has one.
pub open spec fn rank_of(entries: Seq<AttrMemberModel>) -> Option<nat> {
    match attr_get(entries, "LSI1"@) {
        Some(AttrModel::N(text)) => Some(decimal_value(text)),
        _ => None,
    }
}

/// The rank of a written record is the number of channels that was supplied
/// at the write: the two never drift apart.
pub proof fn lemma_rank_of_written(new_node: NewNodeDTO)
    ensures
        rank_of(new_node_attributes(new_node)) == Some(new_node.channels as nat),
        attr_get(new_node_attributes(new_node), "LSI1"@) == attr_get(
            new_node_attributes(new_node),
            "channels"@,
        ),
{
    let a = new_node_attributes(new_node);
    reveal_strlit("PK");
    reveal_strlit("SK");
    reveal_strlit("LSI1");
    reveal_strlit("channels");
    reveal_with_fuel(attr_get_from, 5);
    assert(a[0].name == "PK"@);
    assert(a[1].name == "SK"@);
    assert(a[2].name == "LSI1"@);
    assert(a[3].name == "channels"@);
    assert(a[0].name.len() == 2);
    assert(a[1].name.len() == 2);
    assert(a[2].name.len() == 4);
    assert(a[3].name.len() == 8);
    lemma_decimal_value_of_text(new_node.channels as nat);
}

/// Where the index delivers written records by descending rank, records
/// with distinct channel counts come in strictly descending order of their
/// channels.
pub proof fn lemma_descending_rank_orders_channels(
    written: Seq<NewNodeDTO>,
    delivered: Seq<Seq<AttrMemberModel>>,
)
    requires
        delivered.len() == written.len(),
        forall|i: int|
            0 <= i < written.len() ==> #[trigger] delivered[i] == new_node_attributes(written[i]),
        forall|i: int, j: int|
            0 <= i < j < delivered.len() ==> rank_of(#[trigger] delivered[i])->Some_0 >= rank_of(
                #[trigger] delivered[j],
            )->Some_0,
        forall|i: int, j: int|
            0 <= i < j < written.len() ==> (#[trigger] written[i]).channels
                != (#[trigger] written[j]).channels,
    ensures
        forall|i: int, j: int|
            0 <= i < j < written.len() ==> (#[trigger] written[i]).channels
                > (#[trigger] written[j]).channels,
{
    assert forall|i: int, j: int| 0 <= i < j < written.len() implies
        (#[trigger] written[i]).channels > (#[trigger] written[j]).channels by {
        lemma_rank_of_written(written[i]);
        lemma_rank_of_written(written[j]);
        assert(delivered[i] == new_node_attributes(written[i]));
        assert(delivered[j] == new_node_attributes(written[j]));
    }
}

/// A placeholder of a query expression and the attribute name it stands for.
#[derive(Debug, Clone, PartialEq, Eq)]
pub struct NameAlias {
    pub placeholder: String,
    pub name: String,
}

/// One query of a table through a secondary index.
#[derive(Debug, PartialEq, Eq)]
pub struct QueryRequest {
    pub table_name: String,
    pub index_name: String,
    /// `true` for ascending order of the index's sort key, `false` for descending.
    pub scan_index_forward: bool,
    pub key_condition_expression: String,
    pub expression_attribute_names: Vec<NameAlias>,
    pub expression_attribute_values: Vec<AttrEntry>,
}

/// Whether `request` lists every node of the table `table_name` by rank,
/// highest first: all records under the partition key of the nodes, through
/// the index on the rank, in descending order.
pub open spec fn is_ranked_query(request: QueryRequest, table_name: Seq<char>) -> bool {
    &&& request.table_name@ == table_name
    &&& request.index_name@ == "LSI1"@
    &&& !request.scan_index_forward
    &&& request.key_condition_expression@ == "#PK = :PK"@
    &&& request.expression_attribute_names@.len() == 1
    &&& request.expression_attribute_names@[0].placeholder@ == "#PK"@
    &&& request.expression_attribute_names@[0].name@ == "PK"@
    &&& entries_view(request.expression_attribute_values@) == seq![
        text_attribute(":PK"@, "NODE"@),
    ]
}

/// The query that lists every node of the table `table_name` by rank, highest first.
pub fn ranked_query(table_name: &str) -> (request: QueryRequest)
    ensures
        is_ranked_query(request, table_name@),
{
    let mut names: Vec<NameAlias> = Vec::new();
    names.push(NameAlias { placeholder: "#PK".to_owned(), name: "PK".to_owned() });
    let mut values: Vec<AttrEntry> = Vec::new();
    let partition = "NODE".to_owned();
    values.push(text_entry(":PK", &partition));
    proof {
        lemma_attr_entry_views(values@, values@.len());
        assert(entries_view(values@) =~= seq![text_attribute(":PK"@, "NODE"@)]);
    }
    QueryRequest {
        table_name: table_name.to_owned(),
        index_name: "LSI1".to_owned(),
        scan_index_forward: false,
        key_condition_expression: "#PK = :PK".to_owned(),
        expression_attribute_names: names,
        expression_attribute_values: values,
    }
}

/// The attribute named `name`, or the string `fallback` where the record has none.
pub open spec fn field_or(
    entries: Seq<AttrMemberModel>,
    name: Seq<char>,
    fallback: Seq<char>,
) -> AttrModel {
    match attr_get(entries, name) {
        Some(value) => value,
        None => AttrModel::S(fallback),
    }
}

/// The JSON member that a read gives for the attribute `name` of a record.
pub open spec fn projected_member(
    entries: Seq<AttrMemberModel>,
    name: Seq<char>,
    fallback: Seq<char>,
) -> JsonMemberModel {
    JsonMemberModel { name: name, value: attr_to_json(field_or(entries, name, fallback)) }
}

/// The JSON object that a read gives for one record: its public key, alias,
/// capacity and first-seen time, in this order. A record without an alias or
/// a first-seen time gives the empty string there, one without a capacity
/// the string `0`. The rank and the time of the update are not part of it.
pub open spec fn node_projection(entries: Seq<AttrMemberModel>) -> JsonModel {
    JsonModel::Object(
        seq![
            projected_member(entries, "public_key"@, ""@),
            projected_member(entries, "alias"@, ""@),
            projected_member(entries, "capacity"@, "0"@),
            projected_member(entries, "first_seen"@, ""@),
        ],
    )
}

/// The contents of a list of records, in their order.
pub open spec fn items_view(items: Seq<Item>) -> Seq<Seq<AttrMemberModel>> {
    Seq::new(items.len(), |i: int| items[i]@)
}

/// The JSON array that a read gives for the records of a query: the object
/// of each record, in the order in which the index delivered them.
pub open spec fn nodes_projection(items: Seq<Seq<AttrMemberModel>>) -> JsonModel {
    JsonModel::Array(Seq::new(items.len(), |i: int| node_projection(items[i])))
}

/// The four members of a node's object differ in their names.
pub proof fn lemma_projected_names_distinct(entries: Seq<AttrMemberModel>)
    ensures
        node_projection(entries) matches JsonModel::Object(members)
            && distinct_member_names(members),
{
    reveal_strlit("public_key");
    reveal_strlit("alias");
    reveal_strlit("capacity");
    reveal_strlit("first_seen");
    match node_projection(entries) {
        JsonModel::Object(members) => {
            assert(members[0].name.len() == 10 && members[0].name[0] == 'p');
            assert(members[1].name.len() == 5);
            assert(members[2].name.len() == 8);
            assert(members[3].name.len() == 10 && members[3].name[0] == 'f');
        },
        _ => {},
    }
}

/// The JSON member for the attribute `name` of `item`, with `fallback` for
/// a record that has no such attribute.
fn project_member(item: &Item, name: &str, fallback: &str) -> (member: JsonMember)
    ensures
        member@ == projected_member(item@, name@, fallback@),
        well_formed_record(item@) ==> objects_well_formed(member@.value),
{
    proof {
        lemma_attr_get_from(item@, name@, 0);
    }
    let value = match item.get(name) {
        Some(found) => attribute_value_to_json(found),
        None => attribute_value_to_json(&AttrValue::S(fallback.to_owned())),
    };
    JsonMember { name: name.to_owned(), value }
}

/// The JSON object that a read gives for one record.
pub fn project_node(item: &Item) -> (json: JsonValue)
    ensures
        json@ == node_projection(item@),
        well_formed_record(item@) ==> objects_well_formed(json@),
{
    let mut members: Vec<JsonMember> = Vec::new();
    members.push(project_member(item, "public_key", ""));
    members.push(project_member(item, "alias", ""));
    members.push(project_member(item, "capacity", "0"));
    members.push(project_member(item, "first_seen", ""));
    proof {
        lemma_json_member_views(members@, members@.len());
        assert(json_member_views_upto(members@, members@.len())
            =~= seq![
            projected_member(item@, "public_key"@, ""@),
            projected_member(item@, "alias"@, ""@),
            projected_member(item@, "capacity"@, "0"@),
            projected_member(item@, "first_seen"@, ""@),
        ]);
        lemma_projected_names_distinct(item@);
    }
    JsonValue::Object(members)
}

/// The JSON array that a read gives for the records of a query, in their order.
pub fn project_nodes(items: &Vec<Item>) -> (json: JsonValue)
    ensures
        json@ == nodes_projection(items_view(items@)),
        (forall|i: int| 0 <= i < items.len() ==> well_formed_record(#[trigger] items[i]@))
            ==> objects_well_formed(json@),
{
    let mut out: Vec<JsonValue> = Vec::new();
    let mut i: usize = 0;
    while i < items.len()
        invariant
            i <= items.len(),
            out.len() == i,
            forall|k: int| 0 <= k < i ==> (#[trigger] out[k])@ == node_projection(items[k]@),
            forall|k: int|
                0 <= k < i && well_formed_record(items[k]@) ==> objects_well_formed(
                    (#[trigger] out[k])@,
                ),
        decreases items.len() - i,
    {
        out.push(project_node(&items[i]));
        i += 1;
    }
    proof {
        lemma_json_views(out@, out@.len());
        assert(json_views_upto(out@, out@.len()) =~= Seq::new(
            items_view(items@).len(),
            |i: int| node_projection(items_view(items@)[i]),
        ));
    }
    JsonValue::Array(out)
}

/// The response body of a read: the compact JSON text of the array of the
/// records' objects, in the order in which the index delivered them. A
/// query that delivered no list of records gives the empty array.
pub fn find_many_nodes(items: Option<Vec<Item>>) -> (body: String)
    ensures
        body@ == json_text(
            nodes_projection(
                match items {
                    Some(list) => items_view(list@),
                    None => Seq::empty(),
                },
            ),
        ),
{
    let list = match items {
        Some(list) => list,
        None => Vec::new(),
    };
    assert(items is None ==> items_view(list@) =~= Seq::<Seq<AttrMemberModel>>::empty());
    let json = project_nodes(&list);
    to_json_text(&json)
}

/// What was written is read back: the object that a read gives for a
/// written record holds the record's public key, alias, capacity and
/// first-seen time as strings, and nothing else.
pub proof fn lemma_read_back(node: Node)
    ensures
        node_projection(node_attributes(node)) == JsonModel::Object(
            seq![
                JsonMemberModel { name: "public_key"@, value: JsonModel::String(node.public_key@) },
                JsonMemberModel { name: "alias"@, value: JsonModel::String(node.alias@) },
                JsonMemberModel { name: "capacity"@, value: JsonModel::String(node.capacity@) },
                JsonMemberModel { name: "first_seen"@, value: JsonModel::String(node.first_seen@) },
            ],
        ),
{
    lemma_written_keys(node);
    let a = node_attributes(node);
    assert(projected_member(a, "public_key"@, ""@) == JsonMemberModel {
        name: "public_key"@,
        value: JsonModel::String(node.public_key@),
    });
    assert(projected_member(a, "alias"@, ""@) == JsonMemberModel {
        name: "alias"@,
        value: JsonModel::String(node.alias@),
    });
    assert(projected_member(a, "capacity"@, "0"@) == JsonMemberModel {
        name: "capacity"@,
        value: JsonModel::String(node.capacity@),
    });
    assert(projected_member(a, "first_seen"@, ""@) == JsonMemberModel {
        name: "first_seen"@,
        value: JsonModel::String(node.first_seen@),
    });
}

/// A record that lacks the alias, the capacity or the first-seen time is
/// read with the empty string, the string `0` and the empty string in their
/// places.
pub proof fn lemma_missing_fields_default(entries: Seq<AttrMemberModel>)
    ensures
        attr_get(entries, "public_key"@) is None ==> projected_member(
            entries,
            "public_key"@,
            ""@,
        ).value == JsonModel::String(Seq::<char>::empty()),
        attr_get(entries, "alias"@) is None ==> projected_member(entries, "alias"@, ""@).value
            == JsonModel::String(Seq::<char>::empty()),
        attr_get(entries, "capacity"@) is None ==> projected_member(
            entries,
            "capacity"@,
            "0"@,
        ).value == JsonModel::String(seq!['0']),
        attr_get(entries, "first_seen"@) is None ==> projected_member(
            entries,
            "first_seen"@,
            ""@,
        ).value == JsonModel::String(Seq::<char>::empty()),
{
    reveal_strlit("");
    reveal_strlit("0");
    assert(""@ =~= Seq::<char>::empty());
    assert("0"@ =~= seq!['0']);
}

/// The records of a query are read in the order in which the index
/// delivered them, one object for each.
pub proof fn lemma_projection_keeps_order(items: Seq<Seq<AttrMemberModel>>)
    ensures
        nodes_projection(items) is Array,
        nodes_projection(items)->Array_0.len() == items.len(),
        forall|i: int|
            0 <= i < items.len() ==> #[trigger] nodes_projection(items)->Array_0[i]
                == node_projection(items[i]),
{
}

} // verus!
