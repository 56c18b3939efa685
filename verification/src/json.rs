//! JSON messages, read one level at a time.

use crate::text::{same_text, text_view};
use vstd::prelude::*;
use vstd::string::*;

verus! {

broadcast use vstd::string::group_string_axioms;

/// The error of a text that is not JSON.
#[verifier::external_type_specification]
#[verifier::external_body]
pub struct ExJsonError(serde_json::Error);

/// The top level of a JSON value. What lies inside an array or an object is
/// held as JSON text. No message handler reads a number, so a number carries
/// no value.
#[derive(Debug)]
pub enum JsonNode {
    Null,
    Bool(bool),
    Number,
    Text(String),
    Array(Vec<String>),
    Object(Vec<(String, String)>),
}

/// What a [`JsonNode`] says.
pub enum NodeModel {
    Null,
    Bool(bool),
    Number,
    Text(Seq<char>),
    Array(Seq<Seq<char>>),
    Object(Seq<(Seq<char>, Seq<char>)>),
}

impl View for JsonNode {
    type V = NodeModel;

    open spec fn view(&self) -> NodeModel {
        match self {
            JsonNode::Null => NodeModel::Null,
            JsonNode::Bool(b) => NodeModel::Bool(*b),
            JsonNode::Number => NodeModel::Number,
            JsonNode::Text(s) => NodeModel::Text(s@),
            JsonNode::Array(items) => NodeModel::Array(items@.map_values(|s: String| s@)),
            JsonNode::Object(members) => NodeModel::Object(
                members@.map_values(|m: (String, String)| (m.0@, m.1@)),
            ),
        }
    }
}

/// The value that a text denotes in JSON, if it is JSON.
pub uninterp spec fn json_node(text: Seq<char>) -> Option<NodeModel>;

/// `serde_json::from_str` into a `serde_json::Value`, whose variants are
/// handed on one for one; the elements of an array and the members of an
/// object are handed on as the texts that `Value::to_string` gives. What the
/// call returns is a function of the text alone, and is named [`json_node`].
#[verifier::external_body]
pub(crate) fn read_node(text: &str) -> (r: Result<JsonNode, serde_json::Error>)
    ensures
        match r {
            Ok(node) => json_node(text@) == Some(node@),
            Err(_) => json_node(text@) is None,
        },
{
    Ok(match serde_json::from_str::<serde_json::Value>(text)? {
        serde_json::Value::Null => JsonNode::Null,
        serde_json::Value::Bool(b) => JsonNode::Bool(b),
        serde_json::Value::Number(_) => JsonNode::Number,
        serde_json::Value::String(s) => JsonNode::Text(s),
        serde_json::Value::Array(items) => JsonNode::Array(items.iter().map(|v| v.to_string()).collect()),
        serde_json::Value::Object(members) => JsonNode::Object(members.iter().map(|(k, v)| (k.clone(), v.to_string())).collect()),
    })
}

/// A hexadecimal digit, in lower case.
pub open spec fn hex_digit(d: int) -> char {
    if d < 10 {
        ('0' as int + d) as char
    } else {
        ('a' as int + d - 10) as char
    }
}

/// A character inside a JSON string: quotes, backslashes and control
/// characters are escaped, every other one stands for itself.
pub open spec fn json_escaped(c: char) -> Seq<char> {
    let u = c as int;
    if c == '"' || c == '\\' {
        seq!['\\', c]
    } else if u == 0x08 {
        seq!['\\', 'b']
    } else if u == 0x09 {
        seq!['\\', 't']
    } else if u == 0x0a {
        seq!['\\', 'n']
    } else if u == 0x0c {
        seq!['\\', 'f']
    } else if u == 0x0d {
        seq!['\\', 'r']
    } else if u < 0x20 {
        seq!['\\', 'u', '0', '0', hex_digit(u / 16), hex_digit(u % 16)]
    } else {
        seq![c]
    }
}

/// Characters inside a JSON string.
pub open spec fn json_body(text: Seq<char>) -> Seq<char>
    decreases text.len(),
{
    if text.len() == 0 {
        Seq::empty()
    } else {
        json_body(text.drop_last()) + json_escaped(text.last())
    }
}

/// The JSON notation of a string.
pub open spec fn json_quoted(text: Seq<char>) -> Seq<char> {
    seq!['"'] + json_body(text) + seq!['"']
}

/// `serde_json::Value::to_string` of a string value: the string in JSON
/// notation, quoted and escaped; read back as JSON, it is that string.
#[verifier::external_body]
pub(crate) fn quote(text: &str) -> (r: String)
    ensures
        r@ == json_quoted(text@),
        json_node(r@) == Some(NodeModel::Text(text@)),
{
    serde_json::Value::from(text).to_string()
}

/// The text of the first member with the given name.
pub open spec fn find_member(members: Seq<(Seq<char>, Seq<char>)>, name: Seq<char>) -> Option<
    Seq<char>,
>
    decreases members.len(),
{
    if members.len() == 0 {
        None
    } else if members[0].0 == name {
        Some(members[0].1)
    } else {
        find_member(members.skip(1), name)
    }
}

impl NodeModel {
    /// The text of a member; nothing but an object has members.
    pub open spec fn member(self, name: Seq<char>) -> Option<Seq<char>> {
        match self {
            NodeModel::Object(members) => find_member(members, name),
            _ => None,
        }
    }

    /// The string that a member holds.
    pub open spec fn text_member(self, name: Seq<char>) -> Option<Seq<char>> {
        match self.member(name) {
            Some(t) => match json_node(t) {
                Some(NodeModel::Text(s)) => Some(s),
                _ => None,
            },
            None => None,
        }
    }

    /// The truth value that a member holds.
    pub open spec fn bool_member(self, name: Seq<char>) -> Option<bool> {
        match self.member(name) {
            Some(t) => match json_node(t) {
                Some(NodeModel::Bool(b)) => Some(b),
                _ => None,
            },
            None => None,
        }
    }
}

impl JsonNode {
    /// The JSON text of a member.
    pub fn member(&self, name: &str) -> (r: Option<String>)
        ensures
            text_view(r) == self@.member(name@),
    {
        match self {
            JsonNode::Object(members) => {
                let n: usize = members.len();
                let mut i: usize = 0;
                let ghost all = self@->Object_0;
                assert(all.skip(0) =~= all);
                while i < n
                    invariant
                        n == members@.len(),
                        i <= n,
                        self@ == NodeModel::Object(all),
                        all == members@.map_values(|m: (String, String)| (m.0@, m.1@)),
                        self@.member(name@) == find_member(all.skip(i as int), name@),
                    decreases n - i,
                {
                    assert(all.skip(i as int).skip(1) =~= all.skip(i + 1));
                    if same_text(members[i].0.as_str(), name) {
                        return Some(members[i].1.clone());
                    }
                    i = i + 1;
                }
                None
            },
            _ => None,
        }
    }

    /// The string that a member holds, if it holds one.
    pub fn text_member(&self, name: &str) -> (r: Option<String>)
        ensures
            text_view(r) == self@.text_member(name@),
    {
        match self.member(name) {
            None => None,
            Some(t) => match read_node(t.as_str()) {
                Ok(JsonNode::Text(s)) => Some(s),
                _ => None,
            },
        }
    }

    /// The truth value that a member holds, if it holds one.
    pub fn bool_member(&self, name: &str) -> (r: Option<bool>)
        ensures
            r == self@.bool_member(name@),
    {
        match self.member(name) {
            None => None,
            Some(t) => match read_node(t.as_str()) {
                Ok(JsonNode::Bool(b)) => Some(b),
                _ => None,
            },
        }
    }
}

/// A member of an object is the first one with its name, and is missing where
/// none has it.
pub proof fn member_is_the_first(members: Seq<(Seq<char>, Seq<char>)>, name: Seq<char>)
    ensures
        match find_member(members, name) {
            Some(value) => exists|i: int|
                0 <= i < members.len() && #[trigger] members[i] == (name, value) && forall|j: int|
                    0 <= j < i ==> (#[trigger] members[j]).0 != name,
            None => forall|j: int| 0 <= j < members.len() ==> (#[trigger] members[j]).0 != name,
        },
    decreases members.len(),
{
    if members.len() > 0 && members[0].0 != name {
        let rest = members.skip(1);
        member_is_the_first(rest, name);
        match find_member(rest, name) {
            Some(value) => {
                let i = choose|i: int|
                    0 <= i < rest.len() && #[trigger] rest[i] == (name, value) && forall|j: int|
                        0 <= j < i ==> (#[trigger] rest[j]).0 != name;
                assert(members[i + 1] == (name, value));
                assert forall|j: int| 0 <= j < i + 1 implies (#[trigger] members[j]).0 != name by {
                    if j > 0 {
                        assert(rest[j - 1].0 != name);
                    }
                }
            },
            None => {
                assert forall|j: int| 0 <= j < members.len() implies (#[trigger] members[j]).0
                    != name by {
                    if j > 0 {
                        assert(rest[j - 1].0 != name);
                    }
                }
            },
        }
    } else if members.len() > 0 {
        assert(members[0] == (name, members[0].1));
    }
}

/// A member is read where it is there, as a string or a truth value where it is
/// one, and nothing but an object has members.
pub proof fn members_are_read(
    node: &JsonNode,
    name: &str,
    member: Option<String>,
    text: Option<String>,
    flag: Option<bool>,
)
    requires
        call_ensures(JsonNode::member, (node, name), member),
        call_ensures(JsonNode::text_member, (node, name), text),
        call_ensures(JsonNode::bool_member, (node, name), flag),
    ensures
        text_view(member) == match node@ {
            NodeModel::Object(members) => find_member(members, name@),
            _ => None,
        },
        member is None ==> text is None && flag is None,
        member matches Some(m) ==> {
            &&& json_node(m@) matches Some(NodeModel::Text(s)) ==> text_view(text) == Some(s)
            &&& !(json_node(m@) matches Some(NodeModel::Text(_))) ==> text is None
            &&& json_node(m@) matches Some(NodeModel::Bool(b)) ==> flag == Some(b)
            &&& !(json_node(m@) matches Some(NodeModel::Bool(_))) ==> flag is None
        },
{
}

} // verus!
