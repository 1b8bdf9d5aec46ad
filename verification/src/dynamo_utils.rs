//! The attribute-value codec: the store's tagged wire values and their JSON form.

use crate::decimal::{decimal_text, to_decimal};
use vstd::prelude::*;

verus! {

/// A tagged value as the store holds it.
#[derive(Debug, PartialEq, Eq)]
pub enum AttrValue {
    /// A string.
    S(String),
    /// A number, carried as its text.
    N(String),
    /// A binary blob.
    B(Vec<u8>),
    /// A boolean.
    Bool(bool),
    /// The null marker.
    Null(bool),
    /// An ordered list of tagged values.
    L(Vec<AttrValue>),
    /// A map of named tagged values.
    M(Vec<AttrEntry>),
    /// A set of strings.
    Ss(Vec<String>),
    /// A set of numbers, each carried as its text.
    Ns(Vec<String>),
    /// A set of binary blobs.
    Bs(Vec<Vec<u8>>),
    /// A tag that this library does not know.
    Unknown,
}

/// One named value of a map attribute or of a stored item.
#[derive(Debug, PartialEq, Eq)]
pub struct AttrEntry {
    pub name: String,
    pub value: AttrValue,
}

/// The mathematical content of an [`AttrValue`].
pub enum AttrModel {
    S(Seq<char>),
    N(Seq<char>),
    B(Seq<u8>),
    Bool(bool),
    Null(bool),
    L(Seq<AttrModel>),
    M(Seq<AttrMemberModel>),
    Ss(Seq<Seq<char>>),
    Ns(Seq<Seq<char>>),
    Bs(Seq<Seq<u8>>),
    Unknown,
}

/// The mathematical content of an [`AttrEntry`].
pub struct AttrMemberModel {
    pub name: Seq<char>,
    pub value: AttrModel,
}

/// The contents of the first `n` values of `items`, in their order.
pub open spec fn attr_views_upto(items: Seq<AttrValue>, n: nat) -> Seq<AttrModel>
    decreases items, n,
{
    if n == 0 || n > items.len() {
        Seq::empty()
    } else {
        attr_views_upto(items, (n - 1) as nat).push(items[n - 1]@)
    }
}

/// The contents of the first `n` entries of `entries`, in their order.
pub open spec fn attr_entry_views_upto(entries: Seq<AttrEntry>, n: nat) -> Seq<AttrMemberModel>
    decreases entries, n,
{
    if n == 0 || n > entries.len() {
        Seq::empty()
    } else {
        attr_entry_views_upto(entries, (n - 1) as nat).push(
            AttrMemberModel { name: entries[n - 1].name@, value: entries[n - 1].value@ },
        )
    }
}

/// The character sequences of a list of strings.
pub open spec fn text_views(items: Seq<String>) -> Seq<Seq<char>> {
    Seq::new(items.len(), |i: int| items[i]@)
}

/// The byte sequences of a list of blobs.
pub open spec fn blob_views(items: Seq<Vec<u8>>) -> Seq<Seq<u8>> {
    Seq::new(items.len(), |i: int| items[i]@)
}

impl View for AttrValue {
    type V = AttrModel;

    open spec fn view(&self) -> AttrModel
        decreases self, 0nat,
    {
        match self {
            AttrValue::S(s) => AttrModel::S(s@),
            AttrValue::N(n) => AttrModel::N(n@),
            AttrValue::B(b) => AttrModel::B(b@),
            AttrValue::Bool(b) => AttrModel::Bool(*b),
            AttrValue::Null(b) => AttrModel::Null(*b),
            AttrValue::L(items) => AttrModel::L(attr_views_upto(items@, items@.len())),
            AttrValue::M(entries) => AttrModel::M(attr_entry_views_upto(entries@, entries@.len())),
            AttrValue::Ss(items) => AttrModel::Ss(text_views(items@)),
            AttrValue::Ns(items) => AttrModel::Ns(text_views(items@)),
            AttrValue::Bs(items) => AttrModel::Bs(blob_views(items@)),
            AttrValue::Unknown => AttrModel::Unknown,
        }
    }
}

impl View for AttrEntry {
    type V = AttrMemberModel;

    open spec fn view(&self) -> AttrMemberModel {
        AttrMemberModel { name: self.name@, value: self.value@ }
    }
}

/// Whether no two entries share a name.
pub open spec fn distinct_names(entries: Seq<AttrMemberModel>) -> bool {
    forall|i: int, j: int|
        0 <= i < j < entries.len() ==> (#[trigger] entries[i]).name != (#[trigger] entries[j]).name
}

/// Whether every map in `a`, at any depth, names each of its values once.
pub open spec fn maps_well_formed(a: AttrModel) -> bool
    decreases a,
{
    match a {
        AttrModel::L(items) => forall|i: int|
            0 <= i < items.len() ==> maps_well_formed(#[trigger] items[i]),
        AttrModel::M(entries) => distinct_names(entries) && forall|i: int|
            0 <= i < entries.len() ==> maps_well_formed((#[trigger] entries[i]).value),
        _ => true,
    }
}

/// The contents of a list of entries, in their order.
pub open spec fn entries_view(entries: Seq<AttrEntry>) -> Seq<AttrMemberModel> {
    attr_entry_views_upto(entries, entries.len())
}

/// The view of a list is as long as the list and holds the view of each value.
pub proof fn lemma_attr_views(items: Seq<AttrValue>, n: nat)
    requires
        n <= items.len(),
    ensures
        attr_views_upto(items, n).len() == n,
        forall|k: int| 0 <= k < n ==> #[trigger] attr_views_upto(items, n)[k] == items[k]@,
    decreases n,
{
    if n > 0 {
        lemma_attr_views(items, (n - 1) as nat);
        assert(attr_views_upto(items, n) == attr_views_upto(items, (n - 1) as nat).push(
            items[n - 1]@,
        ));
    } else {
        assert(attr_views_upto(items, n) == Seq::<AttrModel>::empty());
    }
}

/// The view of a map is as long as the map and holds the view of each entry.
pub proof fn lemma_attr_entry_views(entries: Seq<AttrEntry>, n: nat)
    requires
        n <= entries.len(),
    ensures
        attr_entry_views_upto(entries, n).len() == n,
        forall|k: int|
            0 <= k < n ==> #[trigger] attr_entry_views_upto(entries, n)[k] == entries[k]@,
    decreases n,
{
    if n > 0 {
        lemma_attr_entry_views(entries, (n - 1) as nat);
        assert(attr_entry_views_upto(entries, n) == attr_entry_views_upto(
            entries,
            (n - 1) as nat,
        ).push(entries[n - 1]@));
    } else {
        assert(attr_entry_views_upto(entries, n) == Seq::<AttrMemberModel>::empty());
    }
}

/// A JSON value as the codec produces it.
#[derive(Debug, PartialEq, Eq)]
pub enum JsonValue {
    Null,
    Bool(bool),
    /// A non-negative whole number.
    Number(u64),
    String(String),
    Array(Vec<JsonValue>),
    /// An object; the members keep the order in which they were added.
    Object(Vec<JsonMember>),
}

/// One member of a JSON object.
#[derive(Debug, PartialEq, Eq)]
pub struct JsonMember {
    pub name: String,
    pub value: JsonValue,
}

/// The mathematical content of a [`JsonValue`].
pub enum JsonModel {
    Null,
    Bool(bool),
    Number(nat),
    String(Seq<char>),
    Array(Seq<JsonModel>),
    Object(Seq<JsonMemberModel>),
}

/// The mathematical content of a [`JsonMember`].
pub struct JsonMemberModel {
    pub name: Seq<char>,
    pub value: JsonModel,
}

/// Whether no two members share a name.
pub open spec fn distinct_member_names(members: Seq<JsonMemberModel>) -> bool {
    forall|i: int, j: int|
        0 <= i < j < members.len() ==> (#[trigger] members[i]).name != (#[trigger] members[j]).name
}

/// Whether every object in `j`, at any depth, names each of its members once.
pub open spec fn objects_well_formed(j: JsonModel) -> bool
    decreases j,
{
    match j {
        JsonModel::Array(items) => forall|i: int|
            0 <= i < items.len() ==> objects_well_formed(#[trigger] items[i]),
        JsonModel::Object(members) => distinct_member_names(members) && forall|i: int|
            0 <= i < members.len() ==> objects_well_formed((#[trigger] members[i]).value),
        _ => true,
    }
}

/// The contents of the first `n` values of `items`, in their order.
pub open spec fn json_views_upto(items: Seq<JsonValue>, n: nat) -> Seq<JsonModel>
    decreases items, n,
{
    if n == 0 || n > items.len() {
        Seq::empty()
    } else {
        json_views_upto(items, (n - 1) as nat).push(items[n - 1]@)
    }
}

/// The contents of the first `n` members of `members`, in their order.
pub open spec fn json_member_views_upto(members: Seq<JsonMember>, n: nat) -> Seq<JsonMemberModel>
    decreases members, n,
{
    if n == 0 || n > members.len() {
        Seq::empty()
    } else {
        json_member_views_upto(members, (n - 1) as nat).push(
            JsonMemberModel { name: members[n - 1].name@, value: members[n - 1].value@ },
        )
    }
}

impl View for JsonValue {
    type V = JsonModel;

    open spec fn view(&self) -> JsonModel
        decreases self, 0nat,
    {
        match self {
            JsonValue::Null => JsonModel::Null,
            JsonValue::Bool(b) => JsonModel::Bool(*b),
            JsonValue::Number(n) => JsonModel::Number(*n as nat),
            JsonValue::String(s) => JsonModel::String(s@),
            JsonValue::Array(items) => JsonModel::Array(json_views_upto(items@, items@.len())),
            JsonValue::Object(members) => JsonModel::Object(
                json_member_views_upto(members@, members@.len()),
            ),
        }
    }
}

impl View for JsonMember {
    type V = JsonMemberModel;

    open spec fn view(&self) -> JsonMemberModel {
        JsonMemberModel { name: self.name@, value: self.value@ }
    }
}

/// The view of an array is as long as the array and holds the view of each value.
pub proof fn lemma_json_views(items: Seq<JsonValue>, n: nat)
    requires
        n <= items.len(),
    ensures
        json_views_upto(items, n).len() == n,
        forall|k: int| 0 <= k < n ==> #[trigger] json_views_upto(items, n)[k] == items[k]@,
    decreases n,
{
    if n > 0 {
        lemma_json_views(items, (n - 1) as nat);
        assert(json_views_upto(items, n) == json_views_upto(items, (n - 1) as nat).push(
            items[n - 1]@,
        ));
    } else {
        assert(json_views_upto(items, n) == Seq::<JsonModel>::empty());
    }
}

/// The view of an object is as long as the object and holds the view of each member.
pub proof fn lemma_json_member_views(members: Seq<JsonMember>, n: nat)
    requires
        n <= members.len(),
    ensures
        json_member_views_upto(members, n).len() == n,
        forall|k: int|
            0 <= k < n ==> #[trigger] json_member_views_upto(members, n)[k] == members[k]@,
    decreases n,
{
    if n > 0 {
        lemma_json_member_views(members, (n - 1) as nat);
        assert(json_member_views_upto(members, n) == json_member_views_upto(
            members,
            (n - 1) as nat,
        ).push(members[n - 1]@));
    } else {
        assert(json_member_views_upto(members, n) == Seq::<JsonMemberModel>::empty());
    }
}

/// The JSON numbers of the bytes of a blob.
pub open spec fn bytes_to_json(bytes: Seq<u8>) -> Seq<JsonModel> {
    Seq::new(bytes.len(), |i: int| JsonModel::Number(bytes[i] as nat))
}

/// The JSON forms of the first `n` values of `items`, in their order.
pub open spec fn attrs_to_json_upto(items: Seq<AttrModel>, n: nat) -> Seq<JsonModel>
    decreases items, n,
{
    if n == 0 || n > items.len() {
        Seq::empty()
    } else {
        attrs_to_json_upto(items, (n - 1) as nat).push(attr_to_json(items[n - 1]))
    }
}

/// The JSON members of the first `n` entries of `entries`, in their order.
pub open spec fn entries_to_json_upto(entries: Seq<AttrMemberModel>, n: nat) -> Seq<
    JsonMemberModel,
>
    decreases entries, n,
{
    if n == 0 || n > entries.len() {
        Seq::empty()
    } else {
        entries_to_json_upto(entries, (n - 1) as nat).push(
            JsonMemberModel {
                name: entries[n - 1].name,
                value: attr_to_json(entries[n - 1].value),
            },
        )
    }
}

/// The JSON form of a tagged value.
///
/// Strings and numbers both become JSON strings, a blob becomes the array of
/// its bytes, lists and maps are converted member by member in their order,
/// and every other tag becomes `null`.
pub open spec fn attr_to_json(a: AttrModel) -> JsonModel
    decreases a, 0nat,
{
    match a {
        AttrModel::S(s) => JsonModel::String(s),
        AttrModel::N(n) => JsonModel::String(n),
        AttrModel::B(bytes) => JsonModel::Array(bytes_to_json(bytes)),
        AttrModel::Bool(b) => JsonModel::Bool(b),
        AttrModel::Null(_) => JsonModel::Null,
        AttrModel::L(items) => JsonModel::Array(attrs_to_json_upto(items, items.len())),
        AttrModel::M(entries) => JsonModel::Object(entries_to_json_upto(entries, entries.len())),
        _ => JsonModel::Null,
    }
}

/// The JSON form of a list is as long as the list and holds the JSON form of each value.
pub proof fn lemma_attrs_to_json(items: Seq<AttrModel>, n: nat)
    requires
        n <= items.len(),
    ensures
        attrs_to_json_upto(items, n).len() == n,
        forall|k: int|
            0 <= k < n ==> #[trigger] attrs_to_json_upto(items, n)[k] == attr_to_json(items[k]),
    decreases n,
{
    if n > 0 {
        lemma_attrs_to_json(items, (n - 1) as nat);
        assert(attrs_to_json_upto(items, n) == attrs_to_json_upto(items, (n - 1) as nat).push(
            attr_to_json(items[n - 1]),
        ));
    } else {
        assert(attrs_to_json_upto(items, n) == Seq::<JsonModel>::empty());
    }
}

/// The JSON form of a map is as long as the map; each member keeps its name
/// and holds the JSON form of its value.
pub proof fn lemma_entries_to_json(entries: Seq<AttrMemberModel>, n: nat)
    requires
        n <= entries.len(),
    ensures
        entries_to_json_upto(entries, n).len() == n,
        forall|k: int|
            0 <= k < n ==> #[trigger] entries_to_json_upto(entries, n)[k] == (JsonMemberModel {
                name: entries[k].name,
                value: attr_to_json(entries[k].value),
            }),
    decreases n,
{
    if n > 0 {
        lemma_entries_to_json(entries, (n - 1) as nat);
        assert(entries_to_json_upto(entries, n) == entries_to_json_upto(
            entries,
            (n - 1) as nat,
        ).push(
            JsonMemberModel {
                name: entries[n - 1].name,
                value: attr_to_json(entries[n - 1].value),
            },
        ));
    } else {
        assert(entries_to_json_upto(entries, n) == Seq::<JsonMemberModel>::empty());
    }
}

/// The JSON form of a value whose maps name each value once has objects
/// that name each member once.
pub proof fn lemma_json_keeps_names(a: AttrModel)
    requires
        maps_well_formed(a),
    ensures
        objects_well_formed(attr_to_json(a)),
    decreases a,
{
    match a {
        AttrModel::B(bytes) => {
            assert forall|i: int| 0 <= i < bytes_to_json(bytes).len() implies objects_well_formed(
                #[trigger] bytes_to_json(bytes)[i],
            ) by {}
        },
        AttrModel::L(items) => {
            let there = attrs_to_json_upto(items, items.len());
            lemma_attrs_to_json(items, items.len());
            assert forall|i: int| 0 <= i < there.len() implies objects_well_formed(
                #[trigger] there[i],
            ) by {
                lemma_json_keeps_names(items[i]);
            }
        },
        AttrModel::M(entries) => {
            let there = entries_to_json_upto(entries, entries.len());
            lemma_entries_to_json(entries, entries.len());
            assert forall|i: int| 0 <= i < there.len() implies objects_well_formed(
                (#[trigger] there[i]).value,
            ) by {
                lemma_json_keeps_names(entries[i].value);
            }
            assert forall|i: int, j: int| 0 <= i < j < there.len() implies
                (#[trigger] there[i]).name != (#[trigger] there[j]).name by {
                assert(there[i].name == entries[i].name);
                assert(there[j].name == entries[j].name);
            }
        },
        _ => {},
    }
}

/// Convert a tagged value of the store to its JSON form.
pub fn attribute_value_to_json(value: &AttrValue) -> (json: JsonValue)
    ensures
        json@ == attr_to_json(value@),
        maps_well_formed(value@) ==> objects_well_formed(json@),
    decreases value,
{
    proof {
        if maps_well_formed(value@) {
            lemma_json_keeps_names(value@);
        }
    }
    match value {
        AttrValue::S(s) => JsonValue::String(s.clone()),
        AttrValue::N(n) => JsonValue::String(n.clone()),
        AttrValue::B(bytes) => {
            let mut out: Vec<JsonValue> = Vec::new();
            let mut i: usize = 0;
            while i < bytes.len()
                invariant
                    i <= bytes.len(),
                    out.len() == i,
                    forall|k: int|
                        0 <= k < i ==> (#[trigger] out[k])@ == JsonModel::Number(bytes[k] as nat),
                decreases bytes.len() - i,
            {
                out.push(JsonValue::Number(bytes[i] as u64));
                i += 1;
            }
            proof {
                lemma_json_views(out@, out@.len());
                assert(json_views_upto(out@, out@.len()) =~= bytes_to_json(bytes@));
            }
            JsonValue::Array(out)
        },
        AttrValue::Bool(b) => JsonValue::Bool(*b),
        AttrValue::Null(_) => JsonValue::Null,
        AttrValue::L(items) => {
            let mut out: Vec<JsonValue> = Vec::new();
            let mut i: usize = 0;
            while i < items.len()
                invariant
                    i <= items.len(),
                    out.len() == i,
                    decreases_to!(value => items),
                    forall|k: int| 0 <= k < i ==> (#[trigger] out[k])@ == attr_to_json(items[k]@),
                decreases items.len() - i,
            {
                assert(decreases_to!(items => items[i as int]));
                out.push(attribute_value_to_json(&items[i]));
                i += 1;
            }
            proof {
                let models = attr_views_upto(items@, items@.len());
                lemma_json_views(out@, out@.len());
                lemma_attr_views(items@, items@.len());
                lemma_attrs_to_json(models, models.len());
                assert(json_views_upto(out@, out@.len()) =~= attrs_to_json_upto(
                    models,
                    models.len(),
                ));
            }
            JsonValue::Array(out)
        },
        AttrValue::M(entries) => {
            let mut out: Vec<JsonMember> = Vec::new();
            let mut i: usize = 0;
            while i < entries.len()
                invariant
                    i <= entries.len(),
                    out.len() == i,
                    decreases_to!(value => entries),
                    forall|k: int|
                        0 <= k < i ==> (#[trigger] out[k]).name@ == entries[k].name@
                            && out[k].value@ == attr_to_json(entries[k].value@),
                decreases entries.len() - i,
            {
                assert(decreases_to!(entries => entries[i as int]));
                let member = JsonMember {
                    name: entries[i].name.clone(),
                    value: attribute_value_to_json(&entries[i].value),
                };
                out.push(member);
                i += 1;
            }
            proof {
                let models = attr_entry_views_upto(entries@, entries@.len());
                lemma_json_member_views(out@, out@.len());
                lemma_attr_entry_views(entries@, entries@.len());
                lemma_entries_to_json(models, models.len());
                assert(json_member_views_upto(out@, out@.len()) =~= entries_to_json_upto(
                    models,
                    models.len(),
                ));
            }
            JsonValue::Object(out)
        },
        _ => JsonValue::Null,
    }
}

/// The tagged values of the first `n` JSON values of `items`, in their order.
pub open spec fn jsons_to_attr_upto(items: Seq<JsonModel>, n: nat) -> Seq<AttrModel>
    decreases items, n,
{
    if n == 0 || n > items.len() {
        Seq::empty()
    } else {
        jsons_to_attr_upto(items, (n - 1) as nat).push(json_to_attr(items[n - 1]))
    }
}

/// The map entries of the first `n` members of `members`, in their order.
pub open spec fn members_to_attr_upto(members: Seq<JsonMemberModel>, n: nat) -> Seq<
    AttrMemberModel,
>
    decreases members, n,
{
    if n == 0 || n > members.len() {
        Seq::empty()
    } else {
        members_to_attr_upto(members, (n - 1) as nat).push(
            AttrMemberModel {
                name: members[n - 1].name,
                value: json_to_attr(members[n - 1].value),
            },
        )
    }
}

/// The tagged value that stands for a JSON value.
///
/// A JSON string becomes a string attribute, a number a numeric attribute
/// with its decimal text, `null` the null marker, and arrays and objects
/// lists and maps, member by member in their order.
pub open spec fn json_to_attr(j: JsonModel) -> AttrModel
    decreases j, 0nat,
{
    match j {
        JsonModel::Null => AttrModel::Null(true),
        JsonModel::Bool(b) => AttrModel::Bool(b),
        JsonModel::Number(n) => AttrModel::N(decimal_text(n)),
        JsonModel::String(s) => AttrModel::S(s),
        JsonModel::Array(items) => AttrModel::L(jsons_to_attr_upto(items, items.len())),
        JsonModel::Object(members) => AttrModel::M(members_to_attr_upto(members, members.len())),
    }
}

/// The list for an array is as long as the array and holds the tagged value of each item.
pub proof fn lemma_jsons_to_attr(items: Seq<JsonModel>, n: nat)
    requires
        n <= items.len(),
    ensures
        jsons_to_attr_upto(items, n).len() == n,
        forall|k: int|
            0 <= k < n ==> #[trigger] jsons_to_attr_upto(items, n)[k] == json_to_attr(items[k]),
    decreases n,
{
    if n > 0 {
        lemma_jsons_to_attr(items, (n - 1) as nat);
        assert(jsons_to_attr_upto(items, n) == jsons_to_attr_upto(items, (n - 1) as nat).push(
            json_to_attr(items[n - 1]),
        ));
    } else {
        assert(jsons_to_attr_upto(items, n) == Seq::<AttrModel>::empty());
    }
}

/// The map for an object is as long as the object; each entry keeps its name
/// and holds the tagged value of the member.
pub proof fn lemma_members_to_attr(members: Seq<JsonMemberModel>, n: nat)
    requires
        n <= members.len(),
    ensures
        members_to_attr_upto(members, n).len() == n,
        forall|k: int|
            0 <= k < n ==> #[trigger] members_to_attr_upto(members, n)[k] == (AttrMemberModel {
                name: members[k].name,
                value: json_to_attr(members[k].value),
            }),
    decreases n,
{
    if n > 0 {
        lemma_members_to_attr(members, (n - 1) as nat);
        assert(members_to_attr_upto(members, n) == members_to_attr_upto(
            members,
            (n - 1) as nat,
        ).push(
            AttrMemberModel {
                name: members[n - 1].name,
                value: json_to_attr(members[n - 1].value),
            },
        ));
    } else {
        assert(members_to_attr_upto(members, n) == Seq::<AttrMemberModel>::empty());
    }
}

/// The tagged value of a JSON value whose objects name each member once has
/// maps that name each value once.
pub proof fn lemma_attr_keeps_names(j: JsonModel)
    requires
        objects_well_formed(j),
    ensures
        maps_well_formed(json_to_attr(j)),
    decreases j,
{
    match j {
        JsonModel::Array(items) => {
            let there = jsons_to_attr_upto(items, items.len());
            lemma_jsons_to_attr(items, items.len());
            assert forall|i: int| 0 <= i < there.len() implies maps_well_formed(
                #[trigger] there[i],
            ) by {
                lemma_attr_keeps_names(items[i]);
            }
        },
        JsonModel::Object(members) => {
            let there = members_to_attr_upto(members, members.len());
            lemma_members_to_attr(members, members.len());
            assert forall|i: int| 0 <= i < there.len() implies maps_well_formed(
                (#[trigger] there[i]).value,
            ) by {
                lemma_attr_keeps_names(members[i].value);
            }
            assert forall|i: int, j: int| 0 <= i < j < there.len() implies
                (#[trigger] there[i]).name != (#[trigger] there[j]).name by {
                assert(there[i].name == members[i].name);
                assert(there[j].name == members[j].name);
            }
        },
        _ => {},
    }
}

/// Convert a JSON value to the tagged value that stands for it in the store.
pub fn json_to_attribute_value(json: &JsonValue) -> (value: AttrValue)
    ensures
        value@ == json_to_attr(json@),
        objects_well_formed(json@) ==> maps_well_formed(value@),
    decreases json,
{
    proof {
        if objects_well_formed(json@) {
            lemma_attr_keeps_names(json@);
        }
    }
    match json {
        JsonValue::Null => AttrValue::Null(true),
        JsonValue::Bool(b) => AttrValue::Bool(*b),
        JsonValue::Number(n) => AttrValue::N(to_decimal(*n)),
        JsonValue::String(s) => AttrValue::S(s.clone()),
        JsonValue::Array(items) => {
            let mut out: Vec<AttrValue> = Vec::new();
            let mut i: usize = 0;
            while i < items.len()
                invariant
                    i <= items.len(),
                    out.len() == i,
                    decreases_to!(json => items),
                    forall|k: int| 0 <= k < i ==> (#[trigger] out[k])@ == json_to_attr(items[k]@),
                decreases items.len() - i,
            {
                assert(decreases_to!(items => items[i as int]));
                out.push(json_to_attribute_value(&items[i]));
                i += 1;
            }
            proof {
                let models = json_views_upto(items@, items@.len());
                lemma_attr_views(out@, out@.len());
                lemma_json_views(items@, items@.len());
                lemma_jsons_to_attr(models, models.len());
                assert(attr_views_upto(out@, out@.len()) =~= jsons_to_attr_upto(
                    models,
                    models.len(),
                ));
            }
            AttrValue::L(out)
        },
        JsonValue::Object(members) => {
            let mut out: Vec<AttrEntry> = Vec::new();
            let mut i: usize = 0;
            while i < members.len()
                invariant
                    i <= members.len(),
                    out.len() == i,
                    decreases_to!(json => members),
                    forall|k: int|
                        0 <= k < i ==> (#[trigger] out[k]).name@ == members[k].name@
                            && out[k].value@ == json_to_attr(members[k].value@),
                decreases members.len() - i,
            {
                assert(decreases_to!(members => members[i as int]));
                let entry = AttrEntry {
                    name: members[i].name.clone(),
                    value: json_to_attribute_value(&members[i].value),
                };
                out.push(entry);
                i += 1;
            }
            proof {
                let models = json_member_views_upto(members@, members@.len());
                lemma_attr_entry_views(out@, out@.len());
                lemma_json_member_views(members@, members@.len());
                lemma_members_to_attr(models, models.len());
                assert(attr_entry_views_upto(out@, out@.len()) =~= members_to_attr_upto(
                    models,
                    models.len(),
                ));
            }
            AttrValue::M(out)
        },
    }
}

/// Whether a tagged value is built from strings, booleans, the null marker
/// set to `true`, and lists and maps of such values.
pub open spec fn json_shaped(a: AttrModel) -> bool
    decreases a,
{
    match a {
        AttrModel::S(_) => true,
        AttrModel::Bool(_) => true,
        AttrModel::Null(flag) => flag,
        AttrModel::L(items) => forall|i: int|
            0 <= i < items.len() ==> json_shaped(#[trigger] items[i]),
        AttrModel::M(entries) => forall|i: int|
            0 <= i < entries.len() ==> json_shaped((#[trigger] entries[i]).value),
        _ => false,
    }
}

/// Whether a JSON value holds no number at any depth.
pub open spec fn number_free(j: JsonModel) -> bool
    decreases j,
{
    match j {
        JsonModel::Number(_) => false,
        JsonModel::Array(items) => forall|i: int|
            0 <= i < items.len() ==> number_free(#[trigger] items[i]),
        JsonModel::Object(members) => forall|i: int|
            0 <= i < members.len() ==> number_free((#[trigger] members[i]).value),
        _ => true,
    }
}

/// A tagged value comes back unchanged from the trip to JSON and back
/// exactly when it is made of strings, booleans, the null marker set to
/// `true`, and nested lists and maps of these. A number does not: it comes
/// back as a string.
pub proof fn lemma_attr_round_trip(a: AttrModel)
    ensures
        json_to_attr(attr_to_json(a)) == a <==> json_shaped(a),
    decreases a,
{
    match a {
        AttrModel::L(items) => {
            let there = attrs_to_json_upto(items, items.len());
            let back = jsons_to_attr_upto(there, there.len());
            lemma_attrs_to_json(items, items.len());
            lemma_jsons_to_attr(there, there.len());
            assert(json_to_attr(attr_to_json(a)) == AttrModel::L(back));
            assert forall|k: int| 0 <= k < items.len() implies (back[k] == items[k]
                <==> json_shaped(#[trigger] items[k])) by {
                lemma_attr_round_trip(items[k]);
            }
            if json_shaped(a) {
                assert(back =~= items);
            }
        },
        AttrModel::M(entries) => {
            let there = entries_to_json_upto(entries, entries.len());
            let back = members_to_attr_upto(there, there.len());
            lemma_entries_to_json(entries, entries.len());
            lemma_members_to_attr(there, there.len());
            assert(json_to_attr(attr_to_json(a)) == AttrModel::M(back));
            assert forall|k: int| 0 <= k < entries.len() implies (back[k] == entries[k]
                <==> json_shaped((#[trigger] entries[k]).value)) by {
                lemma_attr_round_trip(entries[k].value);
            }
            if json_shaped(a) {
                assert(back =~= entries);
            }
        },
        _ => {},
    }
}

/// A JSON value comes back unchanged from the trip to a tagged value and
/// back exactly when it holds no number. A number does not: it comes back as
/// the string of its decimal text.
pub proof fn lemma_json_round_trip(j: JsonModel)
    ensures
        attr_to_json(json_to_attr(j)) == j <==> number_free(j),
    decreases j,
{
    match j {
        JsonModel::Array(items) => {
            let there = jsons_to_attr_upto(items, items.len());
            let back = attrs_to_json_upto(there, there.len());
            lemma_jsons_to_attr(items, items.len());
            lemma_attrs_to_json(there, there.len());
            assert(attr_to_json(json_to_attr(j)) == JsonModel::Array(back));
            assert forall|k: int| 0 <= k < items.len() implies (back[k] == items[k]
                <==> number_free(#[trigger] items[k])) by {
                lemma_json_round_trip(items[k]);
            }
            if number_free(j) {
                assert(back =~= items);
            }
        },
        JsonModel::Object(members) => {
            let there = members_to_attr_upto(members, members.len());
            let back = entries_to_json_upto(there, there.len());
            lemma_members_to_attr(members, members.len());
            lemma_entries_to_json(there, there.len());
            assert(attr_to_json(json_to_attr(j)) == JsonModel::Object(back));
            assert forall|k: int| 0 <= k < members.len() implies (back[k] == members[k]
                <==> number_free((#[trigger] members[k]).value)) by {
                lemma_json_round_trip(members[k].value);
            }
            if number_free(j) {
                assert(back =~= members);
            }
        },
        _ => {},
    }
}

} // verus!
