//! The compact JSON text of a value.

use crate::decimal::{decimal_text, push_decimal};
use crate::dynamo_utils::{
    json_member_views_upto, json_views_upto, lemma_json_member_views, lemma_json_views,
    JsonMemberModel, JsonModel, JsonValue,
};
use vstd::prelude::*;

verus! {

/// The text that serde_json writes for a JSON string with the content `s`:
/// the quoted and escaped form.
pub uninterp spec fn json_string_text(s: Seq<char>) -> Seq<char>;

/// Calls serde_json's `Display` of `Value::String`.
///
/// Trusted: the text is a function of the string's characters alone.
#[verifier::external_body]
fn quote_json_string(s: &str) -> (text: String)
    ensures
        text@ == json_string_text(s@),
{
    serde_json::Value::String(s.to_owned()).to_string()
}

/// The texts of the first `n` values of `items`, with a comma between two.
pub open spec fn items_text_upto(items: Seq<JsonModel>, n: nat) -> Seq<char>
    decreases items, n,
{
    if n == 0 || n > items.len() {
        Seq::empty()
    } else if n == 1 {
        json_text(items[0])
    } else {
        items_text_upto(items, (n - 1) as nat) + seq![','] + json_text(items[n - 1])
    }
}

/// The texts of the first `n` members of `members`, each as its quoted name,
/// a colon and its value, with a comma between two.
pub open spec fn members_text_upto(members: Seq<JsonMemberModel>, n: nat) -> Seq<char>
    decreases members, n,
{
    if n == 0 || n > members.len() {
        Seq::empty()
    } else if n == 1 {
        json_string_text(members[0].name) + seq![':'] + json_text(members[0].value)
    } else {
        members_text_upto(members, (n - 1) as nat) + seq![','] + json_string_text(
            members[n - 1].name,
        ) + seq![':'] + json_text(members[n - 1].value)
    }
}

/// The compact JSON text of a value: no space between tokens, the members
/// of arrays and objects in their order.
pub open spec fn json_text(j: JsonModel) -> Seq<char>
    decreases j, 0nat,
{
    match j {
        JsonModel::Null => seq!['n', 'u', 'l', 'l'],
        JsonModel::Bool(b) => if b {
            seq!['t', 'r', 'u', 'e']
        } else {
            seq!['f', 'a', 'l', 's', 'e']
        },
        JsonModel::Number(n) => decimal_text(n),
        JsonModel::String(s) => json_string_text(s),
        JsonModel::Array(items) => seq!['['] + items_text_upto(items, items.len()) + seq![']'],
        JsonModel::Object(members) => seq!['{'] + members_text_upto(members, members.len())
            + seq!['}'],
    }
}

/// Appends the compact JSON text of `value` to `out`.
pub fn write_json(out: &mut String, value: &JsonValue)
    ensures
        final(out)@ == old(out)@ + json_text(value@),
    decreases value,
{
    proof {
        reveal_strlit("null");
        reveal_strlit("true");
        reveal_strlit("false");
        reveal_strlit("[");
        reveal_strlit("]");
        reveal_strlit("{");
        reveal_strlit("}");
        reveal_strlit(",");
        reveal_strlit(":");
    }
    match value {
        JsonValue::Null => {
            out.append("null");
            assert(out@ =~= old(out)@ + json_text(value@));
        },
        JsonValue::Bool(b) => {
            if *b {
                out.append("true");
            } else {
                out.append("false");
            }
            assert(out@ =~= old(out)@ + json_text(value@));
        },
        JsonValue::Number(n) => {
            push_decimal(out, *n);
        },
        JsonValue::String(s) => {
            let quoted = quote_json_string(s.as_str());
            out.append(quoted.as_str());
        },
        JsonValue::Array(items) => {
            let ghost models = json_views_upto(items@, items@.len());
            proof {
                lemma_json_views(items@, items@.len());
            }
            out.append("[");
            let mut i: usize = 0;
            while i < items.len()
                invariant
                    i <= items.len(),
                    decreases_to!(value => items),
                    models == json_views_upto(items@, items@.len()),
                    models.len() == items.len(),
                    forall|k: int| 0 <= k < items.len() ==> #[trigger] models[k] == items[k]@,
                    out@ == old(out)@ + seq!['['] + items_text_upto(models, i as nat),
                decreases items.len() - i,
            {
                let ghost head = old(out)@ + seq!['['];
                let ghost done = items_text_upto(models, i as nat);
                let ghost item = json_text(models[i as int]);
                proof {
                    reveal_strlit(",");
                }
                if i > 0 {
                    out.append(",");
                }
                assert(decreases_to!(items => items[i as int]));
                write_json(out, &items[i]);
                proof {
                    if i == 0 {
                        assert(done =~= Seq::<char>::empty());
                        assert(items_text_upto(models, 1) == item);
                        assert(out@ =~= head + item);
                    } else {
                        assert(items_text_upto(models, (i + 1) as nat) == done + seq![','] + item);
                        assert(out@ =~= head + (done + seq![','] + item));
                    }
                }
                i += 1;
            }
            out.append("]");
            assert(out@ =~= old(out)@ + json_text(value@));
        },
        JsonValue::Object(members) => {
            let ghost models = json_member_views_upto(members@, members@.len());
            proof {
                lemma_json_member_views(members@, members@.len());
            }
            out.append("{");
            let mut i: usize = 0;
            while i < members.len()
                invariant
                    i <= members.len(),
                    decreases_to!(value => members),
                    models == json_member_views_upto(members@, members@.len()),
                    models.len() == members.len(),
                    forall|k: int| 0 <= k < members.len() ==> #[trigger] models[k] == members[k]@,
                    out@ == old(out)@ + seq!['{'] + members_text_upto(models, i as nat),
                decreases members.len() - i,
            {
                let ghost head = old(out)@ + seq!['{'];
                let ghost done = members_text_upto(models, i as nat);
                let ghost member = json_string_text(models[i as int].name) + seq![':'] + json_text(
                    models[i as int].value,
                );
                proof {
                    reveal_strlit(",");
                    reveal_strlit(":");
                }
                if i > 0 {
                    out.append(",");
                }
                let quoted = quote_json_string(members[i].name.as_str());
                out.append(quoted.as_str());
                out.append(":");
                assert(decreases_to!(members => members[i as int]));
                write_json(out, &members[i].value);
                proof {
                    if i == 0 {
                        assert(done =~= Seq::<char>::empty());
                        assert(members_text_upto(models, 1) == member);
                        assert(out@ =~= head + member);
                    } else {
                        assert(members_text_upto(models, (i + 1) as nat) == done + seq![',']
                            + json_string_text(models[i as int].name) + seq![':'] + json_text(
                            models[i as int].value,
                        ));
                        assert(out@ =~= head + (done + seq![','] + json_string_text(
                            models[i as int].name,
                        ) + seq![':'] + json_text(models[i as int].value)));
                    }
                }
                i += 1;
            }
            out.append("}");
            assert(out@ =~= old(out)@ + json_text(value@));
        },
    }
}

/// The compact JSON text of `value`.
pub fn to_json_text(value: &JsonValue) -> (text: String)
    ensures
        text@ == json_text(value@),
{
    let mut text = String::new();
    write_json(&mut text, value);
    assert(text@ =~= json_text(value@));
    text
}

} // verus!
