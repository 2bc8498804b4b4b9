//! The compact text of a JSON value.

use crate::json::{items_view, lemma_json_view, members_view, Json, JsonValue, Member};
use vstd::prelude::*;
use vstd::string::*;

verus! {

/// The text that `serde_json` writes for a string: the string between double
/// quotes, with the characters escaped that JSON does not take as they are.
pub uninterp spec fn json_string_text(text: Seq<char>) -> Seq<char>;

/// `serde_json::to_string` on a string slice. Writing a string cannot fail,
/// so the result is always the text that the call gives for `text`.
#[verifier::external_body]
fn quoted(text: &str) -> (out: String)
    ensures
        out@ == json_string_text(text@),
{
    serde_json::to_string(text).unwrap_or_default()
}

/// The compact text of a value: no white space, the items of an array and
/// the members of an object in their order, separated by commas.
pub open spec fn json_text(value: JsonValue) -> Seq<char>
    decreases value, 0nat,
{
    match value {
        JsonValue::Null => "null"@,
        JsonValue::Bool(b) => if b {
            "true"@
        } else {
            "false"@
        },
        JsonValue::Number(text) => text,
        JsonValue::Str(text) => json_string_text(text),
        JsonValue::Array(items) => "["@ + items_text(items, items.len()) + "]"@,
        JsonValue::Object(members) => "{"@ + members_text(members, members.len()) + "}"@,
    }
}

/// The text of the first `n` of `items`, with commas between them.
pub open spec fn items_text(items: Seq<JsonValue>, n: nat) -> Seq<char>
    decreases items, n,
{
    if n == 0 || n > items.len() {
        Seq::empty()
    } else if n == 1 {
        json_text(items[0])
    } else {
        items_text(items, (n - 1) as nat) + ","@ + json_text(items[n - 1])
    }
}

/// The text of one member: its name as a string, a colon, its value.
pub open spec fn member_text(name: Seq<char>, value: Seq<char>) -> Seq<char> {
    json_string_text(name) + ":"@ + value
}

/// The text of the first `n` of `members`, with commas between them.
pub open spec fn members_text(members: Seq<(Seq<char>, JsonValue)>, n: nat) -> Seq<char>
    decreases members, n,
{
    if n == 0 || n > members.len() {
        Seq::empty()
    } else if n == 1 {
        member_text(members[0].0, json_text(members[0].1))
    } else {
        members_text(members, (n - 1) as nat) + ","@ + member_text(
            members[n - 1].0,
            json_text(members[n - 1].1),
        )
    }
}

/// Appends the compact text of `value` to `out`.
pub fn write_json(value: &Json, out: &mut String)
    ensures
        final(out)@ == old(out)@ + json_text(value@),
    decreases value,
{
    let ghost start = out@;
    match value {
        Json::Null => {
            out.append("null");
        },
        Json::Bool(b) => {
            if *b {
                out.append("true");
            } else {
                out.append("false");
            }
        },
        Json::Number(text) => {
            out.append(text.as_str());
        },
        Json::Str(text) => {
            let q = quoted(text.as_str());
            out.append(q.as_str());
        },
        Json::Array(items) => {
            proof {
                lemma_json_view(*value);
            }
            let ghost models = items_view(items@);
            out.append("[");
            let mut i: usize = 0;
            while i < items.len()
                invariant
                    i <= items.len(),
                    *value == Json::Array(*items),
                    models == items_view(items@),
                    out@ == start + "["@ + items_text(models, i as nat),
                decreases items.len() - i,
            {
                let ghost before = out@;
                if i > 0 {
                    out.append(",");
                }
                assert(value->Array_0 == *items);
                assert(decreases_to!(*items => items[i as int]));
                write_json(&items[i], out);
                assert(out@ =~= start + "["@ + items_text(models, (i + 1) as nat)) by {
                    assert(models[i as int] == items@[i as int]@);
                    if i > 0 {
                        assert(out@ == before + ","@ + json_text(models[i as int]));
                    } else {
                        assert(before + json_text(models[0]) =~= start + "["@ + json_text(
                            models[0],
                        ));
                    }
                }
                i += 1;
            }
            out.append("]");
            assert(out@ =~= start + json_text(value@));
        },
        Json::Object(members) => {
            proof {
                lemma_json_view(*value);
            }
            let ghost models = members_view(members@);
            out.append("{");
            let mut i: usize = 0;
            while i < members.len()
                invariant
                    i <= members.len(),
                    *value == Json::Object(*members),
                    models == members_view(members@),
                    out@ == start + "{"@ + members_text(models, i as nat),
                decreases members.len() - i,
            {
                let ghost before = out@;
                if i > 0 {
                    out.append(",");
                }
                let ghost comma = out@;
                let name = quoted(members[i].name.as_str());
                out.append(name.as_str());
                out.append(":");
                assert(value->Object_0 == *members);
                assert(decreases_to!(*members => members[i as int]));
                write_json(&members[i].value, out);
                assert(out@ =~= start + "{"@ + members_text(models, (i + 1) as nat)) by {
                    assert(models[i as int] == members@[i as int]@);
                    assert(out@ =~= comma + member_text(
                        models[i as int].0,
                        json_text(models[i as int].1),
                    ));
                    if i > 0 {
                        assert(comma == before + ","@);
                    } else {
                        assert(comma == before);
                    }
                }
                i += 1;
            }
            out.append("}");
            assert(out@ =~= start + json_text(value@));
        },
    }
}

/// The compact text of `value`.
pub fn to_text(value: &Json) -> (text: String)
    ensures
        text@ == json_text(value@),
{
    let mut text = String::new();
    write_json(value, &mut text);
    assert(Seq::<char>::empty() + json_text(value@) =~= json_text(value@));
    text
}

} // verus!
