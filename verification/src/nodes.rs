//! Audio nodes: which objects of a registry are audio nodes, what is known of
//! them, and the table that lists them.

use crate::text::{decimal_text, has_prefix, pad_left, pad_right, same_text};
use vstd::prelude::*;
use vstd::string::*;
use vstd::utf8::{decode_utf8, encode_utf8, is_char_boundary};

verus! {

broadcast use vstd::string::group_string_axioms;

#[derive(Debug, Clone, Copy, PartialEq, Eq, Structural)]
pub enum MediaClass {
    /// A real audio input: microphone, line-in, USB capture device. Also
    /// virtual sources, so a virtual microphone shows up here.
    Source,
    /// An audio output. What it is playing is captured from this same node;
    /// there is no separate monitor node.
    Sink,
    /// An application that is playing audio.
    StreamOutput,
    /// An application that is reading from a microphone.
    StreamInput,
    /// Something related to audio that has no category here.
    Other,
}

/// An audio node.
#[derive(Debug)]
pub struct NodeInfo {
    pub id: u32,
    /// Stable identifier.
    pub name: String,
    /// Label for people. The name, where the node did not set one.
    pub description: String,
    pub media_class: MediaClass,
}

impl Clone for NodeInfo {
    fn clone(&self) -> (r: Self)
        ensures
            r == *self,
    {
        NodeInfo {
            id: self.id,
            name: self.name.clone(),
            description: self.description.clone(),
            media_class: self.media_class,
        }
    }
}

/// What a [`NodeInfo`] says.
pub struct NodeFacts {
    pub id: u32,
    pub name: Seq<char>,
    pub description: Seq<char>,
    pub media_class: MediaClass,
}

impl View for NodeInfo {
    type V = NodeFacts;

    open spec fn view(&self) -> NodeFacts {
        NodeFacts {
            id: self.id,
            name: self.name@,
            description: self.description@,
            media_class: self.media_class,
        }
    }
}

/// The class that a `media.class` property stands for.
pub open spec fn class_of(media_class: Seq<char>) -> MediaClass {
    if media_class == "Audio/Source"@ || media_class == "Audio/Source/Virtual"@ {
        MediaClass::Source
    } else if media_class == "Audio/Sink"@ {
        MediaClass::Sink
    } else if media_class == "Stream/Output/Audio"@ {
        MediaClass::StreamOutput
    } else if media_class == "Stream/Input/Audio"@ {
        MediaClass::StreamInput
    } else {
        MediaClass::Other
    }
}

/// Whether a `media.class` property has to do with audio.
pub open spec fn audio_class(media_class: Seq<char>) -> bool {
    "Audio/"@.is_prefix_of(media_class) || "Stream/"@.is_prefix_of(media_class)
}

/// Whether a `media.class` property has to do with audio.
pub fn is_audio(media_class: &str) -> (r: bool)
    ensures
        r == audio_class(media_class@),
{
    has_prefix(media_class, "Audio/") || has_prefix(media_class, "Stream/")
}

/// The class that a `media.class` property stands for.
pub fn classify(media_class: &str) -> (r: MediaClass)
    ensures
        r == class_of(media_class@),
{
    if same_text(media_class, "Audio/Source") || same_text(media_class, "Audio/Source/Virtual") {
        MediaClass::Source
    } else if same_text(media_class, "Audio/Sink") {
        MediaClass::Sink
    } else if same_text(media_class, "Stream/Output/Audio") {
        MediaClass::StreamOutput
    } else if same_text(media_class, "Stream/Input/Audio") {
        MediaClass::StreamInput
    } else {
        MediaClass::Other
    }
}

/// The properties of a registry object that matter here.
#[derive(Debug)]
pub struct NodeProps {
    /// `media.class`
    pub media_class: Option<String>,
    /// `node.name`
    pub name: Option<String>,
    /// `node.description`
    pub description: Option<String>,
}

/// An object of the registry.
#[derive(Debug)]
pub struct GlobalObject {
    pub id: u32,
    pub is_node: bool,
    pub props: Option<NodeProps>,
}

/// A property, or the given text where it is missing.
pub open spec fn prop_or(prop: Option<String>, default: Seq<char>) -> Seq<char> {
    match prop {
        Some(s) => s@,
        None => default,
    }
}

/// The audio node that an object is, if it is one: a node with properties
/// whose class is known or has to do with audio.
pub open spec fn node_of(obj: GlobalObject) -> Option<NodeFacts> {
    match obj.props {
        Some(props) => {
            let raw = prop_or(props.media_class, ""@);
            let name = prop_or(props.name, "<unnamed>"@);
            if obj.is_node && (class_of(raw) != MediaClass::Other || audio_class(raw)) {
                Some(
                    NodeFacts {
                        id: obj.id,
                        name,
                        description: prop_or(props.description, name),
                        media_class: class_of(raw),
                    },
                )
            } else {
                None
            }
        },
        None => None,
    }
}

/// What an optional node says.
pub open spec fn node_view(o: Option<NodeInfo>) -> Option<NodeFacts> {
    match o {
        Some(n) => Some(n@),
        None => None,
    }
}

fn text_or(prop: Option<String>, default: &str) -> (r: String)
    ensures
        r@ == prop_or(prop, default@),
{
    match prop {
        Some(s) => s,
        None => default.to_owned(),
    }
}

/// The audio node that an object is, if it is one.
pub fn audio_node(obj: GlobalObject) -> (r: Option<NodeInfo>)
    ensures
        node_view(r) == node_of(obj),
{
    if !obj.is_node {
        return None;
    }
    let props: NodeProps = match obj.props {
        Some(props) => props,
        None => return None,
    };
    let raw: String = text_or(props.media_class, "");
    let media_class: MediaClass = classify(raw.as_str());
    if media_class == MediaClass::Other && !is_audio(raw.as_str()) {
        return None;
    }
    let name: String = text_or(props.name, "<unnamed>");
    let description: String = text_or(props.description, name.as_str());
    Some(NodeInfo { id: obj.id, name, description, media_class })
}

/// The id of the core object of the registry.
pub const CORE_ID: u32 = 0;

/// A snapshot of the audio nodes, being taken: it is complete once the core
/// object has answered the request with the awaited number.
pub struct NodeSnapshot {
    pub nodes: Vec<NodeInfo>,
    pub pending: i32,
    pub done: bool,
}

/// What a list of nodes says.
pub open spec fn nodes_view(nodes: Seq<NodeInfo>) -> Seq<NodeFacts> {
    nodes.map_values(|n: NodeInfo| n@)
}

/// The audio nodes among objects, in their order.
pub open spec fn listed(objects: Seq<GlobalObject>) -> Seq<NodeFacts>
    decreases objects.len(),
{
    if objects.len() == 0 {
        Seq::empty()
    } else {
        match node_of(objects.last()) {
            Some(n) => listed(objects.drop_last()).push(n),
            None => listed(objects.drop_last()),
        }
    }
}

impl NodeSnapshot {
    /// A snapshot that has seen no object and awaits the answer `pending`.
    pub fn new(pending: i32) -> (r: NodeSnapshot)
        ensures
            r.nodes@.len() == 0,
            r.pending == pending,
            !r.done,
    {
        NodeSnapshot { nodes: Vec::new(), pending, done: false }
    }

    /// Takes an object of the registry into the snapshot.
    pub fn on_global(&mut self, obj: GlobalObject)
        ensures
            nodes_view(final(self).nodes@) == match node_of(obj) {
                Some(n) => nodes_view(old(self).nodes@).push(n),
                None => nodes_view(old(self).nodes@),
            },
            final(self).pending == old(self).pending,
            final(self).done == old(self).done,
    {
        let ghost before = self.nodes@;
        if let Some(n) = audio_node(obj) {
            self.nodes.push(n);
            assert(nodes_view(self.nodes@) =~= nodes_view(before).push(n@));
        }
    }

    /// Takes an answer into the snapshot.
    pub fn on_done(&mut self, id: u32, seq: i32)
        ensures
            *final(self) == (NodeSnapshot {
                done: old(self).done || (id == CORE_ID && seq == old(self).pending),
                ..*old(self)
            }),
    {
        if id == CORE_ID && seq == self.pending {
            self.done = true;
        }
    }
}

/// A snapshot lists exactly the audio nodes among the objects that it has seen.
pub proof fn snapshot_holds_the_audio_nodes(objects: Seq<GlobalObject>, n: NodeFacts)
    ensures
        listed(objects).contains(n) <==> exists|i: int|
            0 <= i < objects.len() && #[trigger] node_of(objects[i]) == Some(n),
    decreases objects.len(),
{
    if objects.len() > 0 {
        let before = objects.drop_last();
        snapshot_holds_the_audio_nodes(before, n);
        let last = objects.len() - 1;
        if listed(objects).contains(n) {
            let k = choose|k: int| 0 <= k < listed(objects).len() && listed(objects)[k] == n;
            if k < listed(before).len() {
                assert(listed(before)[k] == n);
                let i = choose|i: int|
                    0 <= i < before.len() && #[trigger] node_of(before[i]) == Some(n);
                assert(node_of(objects[i]) == Some(n));
            } else {
                assert(node_of(objects[last]) == Some(n));
            }
        }
        if exists|i: int| 0 <= i < objects.len() && #[trigger] node_of(objects[i]) == Some(n) {
            let i = choose|i: int|
                0 <= i < objects.len() && #[trigger] node_of(objects[i]) == Some(n);
            if i < last {
                assert(node_of(before[i]) == Some(n));
                let k = choose|k: int| 0 <= k < listed(before).len() && listed(before)[k] == n;
                assert(listed(objects)[k] == n);
            } else {
                assert(listed(objects).last() == n);
            }
        }
    }
}

/// The place of a class in the table.
pub open spec fn class_rank(c: MediaClass) -> int {
    match c {
        MediaClass::Source => 0,
        MediaClass::Sink => 1,
        MediaClass::StreamOutput => 2,
        MediaClass::StreamInput => 3,
        MediaClass::Other => 4,
    }
}

/// The place of a class in the table.
pub fn class_order(c: MediaClass) -> (r: u8)
    ensures
        r == class_rank(c),
{
    match c {
        MediaClass::Source => 0,
        MediaClass::Sink => 1,
        MediaClass::StreamOutput => 2,
        MediaClass::StreamInput => 3,
        MediaClass::Other => 4,
    }
}

/// The word for a class in the table.
pub open spec fn class_word(c: MediaClass) -> Seq<char> {
    match c {
        MediaClass::Source => "source"@,
        MediaClass::Sink => "sink"@,
        MediaClass::StreamOutput => "stream-out"@,
        MediaClass::StreamInput => "stream-in"@,
        MediaClass::Other => "other"@,
    }
}

/// The word for a class in the table.
pub fn class_label(c: MediaClass) -> (r: &'static str)
    ensures
        r@ == class_word(c),
{
    match c {
        MediaClass::Source => "source",
        MediaClass::Sink => "sink",
        MediaClass::StreamOutput => "stream-out",
        MediaClass::StreamInput => "stream-in",
        MediaClass::Other => "other",
    }
}

/// Whether a text of more than `max` bytes can be cut to make room for an ellipsis.
pub open spec fn can_cut(s: Seq<char>, max: int) -> bool {
    encode_utf8(s).len() <= max || (max >= 1 && is_char_boundary(encode_utf8(s), max - 1))
}

/// A text of at most `max` bytes, or else its first `max - 1` bytes and an ellipsis.
pub open spec fn cut(s: Seq<char>, max: int) -> Seq<char> {
    if encode_utf8(s).len() <= max {
        s
    } else {
        decode_utf8(encode_utf8(s).subrange(0, max - 1)) + "…"@
    }
}

/// Cuts a text of more than `max` bytes.
pub fn truncate(s: &str, max: usize) -> (r: String)
    requires
        can_cut(s@, max as int),
    ensures
        r@ == cut(s@, max as int),
{
    if s.as_bytes().len() <= max {
        s.to_owned()
    } else {
        let (head, _) = s.split_at(max - 1);
        proof {
            vstd::utf8::encode_utf8_decode_utf8(head@);
        }
        let mut out: String = head.to_owned();
        out.append("…");
        out
    }
}

/// The row of a node in the table.
pub open spec fn row_text(n: NodeFacts) -> Seq<char> {
    crate::text::padded_left(crate::text::decimal(n.id as nat), ' ', 5) + "  "@
        + crate::text::padded_right(class_word(n.media_class), 14) + "  "@
        + crate::text::padded_right(cut(n.name, 48), 48) + "  "@ + n.description
}

/// The row of a node in the table.
pub fn node_row(n: &NodeInfo) -> (r: String)
    requires
        can_cut(n.name@, 48),
    ensures
        r@ == row_text(n@),
{
    let mut out: String = pad_left(decimal_text(n.id as u64).as_str(), ' ', 5);
    out.append("  ");
    out.append(pad_right(class_label(n.media_class), 14).as_str());
    out.append("  ");
    out.append(pad_right(truncate(n.name.as_str(), 48).as_str(), 48).as_str());
    out.append("  ");
    out.append(n.description.as_str());
    out
}

/// The first line of the table.
pub fn table_header() -> (r: String)
    ensures
        r@ == crate::text::padded_left("id"@, ' ', 5) + "  "@ + crate::text::padded_right(
            "class"@,
            14,
        ) + "  "@ + crate::text::padded_right("name"@, 48) + "  "@ + "description"@,
{
    let mut out: String = pad_left("id", ' ', 5);
    out.append("  ");
    out.append(pad_right("class", 14).as_str());
    out.append("  ");
    out.append(pad_right("name", 48).as_str());
    out.append("  ");
    out.append("description");
    out
}

/// What the table is ordered by: the class, then the id.
pub open spec fn node_key(n: NodeInfo) -> int {
    class_rank(n.media_class) * 0x1_0000_0000 + n.id
}

/// Whether nodes are in the order of the table.
pub open spec fn in_table_order(nodes: Seq<NodeInfo>) -> bool {
    forall|i: int, j: int| 0 <= i <= j < nodes.len() ==> node_key(nodes[i]) <= node_key(nodes[j])
}

/// The nodes with a given key, in their order.
pub open spec fn with_key(nodes: Seq<NodeInfo>, key: int) -> Seq<NodeInfo> {
    nodes.filter(|n: NodeInfo| node_key(n) == key)
}

proof fn lemma_none_with_key(nodes: Seq<NodeInfo>, key: int)
    requires
        forall|i: int| 0 <= i < nodes.len() ==> node_key(#[trigger] nodes[i]) != key,
    ensures
        with_key(nodes, key).len() == 0,
    decreases nodes.len(),
{
    reveal(Seq::filter);
    if nodes.len() > 0 {
        lemma_none_with_key(nodes.drop_last(), key);
    }
}

proof fn lemma_insert_keeps_keys(nodes: Seq<NodeInfo>, at: int, n: NodeInfo, key: int)
    requires
        0 <= at <= nodes.len(),
        forall|i: int| at <= i < nodes.len() ==> node_key(n) < node_key(#[trigger] nodes[i]),
    ensures
        with_key(nodes.insert(at, n), key) == with_key(nodes.push(n), key),
{
    let is_key = |x: NodeInfo| node_key(x) == key;
    let head = nodes.take(at);
    let tail = nodes.skip(at);
    let one = seq![n];
    assert(nodes.insert(at, n) =~= head + one + tail);
    assert(nodes.push(n) =~= head + tail + one);
    Seq::filter_distributes_over_add(head + one, tail, is_key);
    Seq::filter_distributes_over_add(head, one, is_key);
    Seq::filter_distributes_over_add(head + tail, one, is_key);
    Seq::filter_distributes_over_add(head, tail, is_key);
    if node_key(n) == key {
        lemma_none_with_key(tail, key);
        assert(tail.filter(is_key) =~= Seq::empty());
    } else {
        lemma_none_with_key(one, key);
        assert(one.filter(is_key) =~= Seq::empty());
    }
}

/// Puts nodes in the order of the table; nodes with the same class and id keep
/// their order.
pub fn sort_nodes(nodes: Vec<NodeInfo>) -> (r: Vec<NodeInfo>)
    ensures
        in_table_order(r@),
        forall|key: int| with_key(r@, key) == with_key(nodes@, key),
{
    let mut rest: Vec<NodeInfo> = nodes;
    let mut out: Vec<NodeInfo> = Vec::new();
    let ghost mut seen: int = 0;
    assert(nodes@.take(0) =~= out@);
    while rest.len() > 0
        invariant
            0 <= seen <= nodes@.len(),
            rest@ == nodes@.skip(seen),
            in_table_order(out@),
            forall|key: int| with_key(out@, key) == with_key(nodes@.take(seen), key),
        decreases rest@.len(),
    {
        let n: NodeInfo = rest.remove(0);
        let rank: u8 = class_order(n.media_class);
        let mut at: usize = out.len();
        while at > 0 && (class_order(out[at - 1].media_class) > rank || (class_order(
            out[at - 1].media_class,
        ) == rank && out[at - 1].id > n.id))
            invariant
                at <= out@.len(),
                rank == class_rank(n.media_class),
                forall|i: int| at <= i < out@.len() ==> node_key(n) < node_key(#[trigger] out@[i]),
            decreases at,
        {
            at = at - 1;
        }
        let ghost before = out@;
        out.insert(at, n);
        proof {
            assert forall|key: int| with_key(out@, key) == with_key(nodes@.take(seen + 1), key) by {
                lemma_insert_keeps_keys(before, at as int, n, key);
                let is_key = |x: NodeInfo| node_key(x) == key;
                assert(nodes@.take(seen + 1) =~= nodes@.take(seen) + seq![n]);
                assert(before.push(n) =~= before + seq![n]);
                Seq::filter_distributes_over_add(before, seq![n], is_key);
                Seq::filter_distributes_over_add(nodes@.take(seen), seq![n], is_key);
                assert(with_key(before, key) == with_key(nodes@.take(seen), key));
            }
            assert(rest@ =~= nodes@.skip(seen + 1));
            seen = seen + 1;
        }
    }
    assert(nodes@.take(seen) =~= nodes@);
    out
}

/// The last line of the table.
pub fn table_summary(count: usize) -> (r: String)
    ensures
        r@ == crate::text::decimal(count as nat) + " audio nodes"@,
{
    let mut out: String = decimal_text(count as u64);
    out.append(" audio nodes");
    out
}

/// The classes of nodes, by the property that names them: anything else is of
/// no class here, and is about audio where the property begins with `Audio/`
/// or `Stream/`.
pub proof fn classes_are_named(media_class: &str, class: MediaClass, audio: bool)
    requires
        call_ensures(classify, (media_class,), class),
        call_ensures(is_audio, (media_class,), audio),
    ensures
        class == MediaClass::Source <==> media_class@ == "Audio/Source"@ || media_class@
            == "Audio/Source/Virtual"@,
        class == MediaClass::Sink <==> media_class@ == "Audio/Sink"@,
        class == MediaClass::StreamOutput <==> media_class@ == "Stream/Output/Audio"@,
        class == MediaClass::StreamInput <==> media_class@ == "Stream/Input/Audio"@,
        class != MediaClass::Other ==> audio,
        audio <==> (media_class@.len() >= 6 && media_class@.take(6) == "Audio/"@) || (
        media_class@.len() >= 7 && media_class@.take(7) == "Stream/"@),
{
    reveal_strlit("Audio/");
    reveal_strlit("Stream/");
    reveal_strlit("Audio/Source");
    reveal_strlit("Audio/Source/Virtual");
    reveal_strlit("Audio/Sink");
    reveal_strlit("Stream/Output/Audio");
    reveal_strlit("Stream/Input/Audio");
    assert("Audio/Source"@[6] == 'S' && "Audio/Source"@[7] == 'o' && "Audio/Sink"@[7] == 'i');
    assert("Stream/Output/Audio"@[0] == 'S' && "Audio/Sink"@[0] == 'A');
    assert("Stream/Output/Audio"@[7] == 'O' && "Stream/Input/Audio"@[7] == 'I');
    assert("Audio/Source"@.take(6) =~= "Audio/"@);
    assert("Audio/Source/Virtual"@.take(6) =~= "Audio/"@);
    assert("Audio/Sink"@.take(6) =~= "Audio/"@);
    assert("Stream/Output/Audio"@.take(7) =~= "Stream/"@);
    assert("Stream/Input/Audio"@.take(7) =~= "Stream/"@);
    if media_class@.len() >= 6 {
        assert(media_class@.take(6) =~= media_class@.subrange(0, 6));
    }
    if media_class@.len() >= 7 {
        assert(media_class@.take(7) =~= media_class@.subrange(0, 7));
    }
}

/// Which objects are listed: nodes with properties that are about audio, with
/// their id and class. One without a name is listed as unnamed, one without a
/// description by its name.
pub proof fn audio_nodes_are_listed(obj: GlobalObject, r: Option<NodeInfo>)
    requires
        call_ensures(audio_node, (obj,), r),
    ensures
        r is Some ==> obj.is_node && obj.props is Some,
        obj.is_node ==> match obj.props {
            Some(props) => {
                let raw = match props.media_class {
                    Some(s) => s@,
                    None => ""@,
                };
                &&& r is Some <==> class_of(raw) != MediaClass::Other || audio_class(raw)
                &&& r matches Some(n) ==> {
                    &&& n.id == obj.id
                    &&& n.media_class == class_of(raw)
                    &&& n.name@ == match props.name {
                        Some(s) => s@,
                        None => "<unnamed>"@,
                    }
                    &&& n.description@ == match props.description {
                        Some(s) => s@,
                        None => n.name@,
                    }
                }
            },
            None => r is None,
        },
{
}

/// A snapshot takes in one object at a time, behind those it has, and is
/// complete once the core has answered with the awaited number.
pub proof fn snapshot_grows_until_answered(
    seen: &mut NodeSnapshot,
    obj: GlobalObject,
    answered: &mut NodeSnapshot,
    id: u32,
    seq: i32,
)
    requires
        call_ensures(NodeSnapshot::on_global, (seen, obj), ()),
        call_ensures(NodeSnapshot::on_done, (answered, id, seq), ()),
    ensures
        node_of(obj) is None ==> nodes_view(final(seen).nodes@) == nodes_view(old(seen).nodes@),
        node_of(obj) matches Some(n) ==> nodes_view(final(seen).nodes@) == nodes_view(
            old(seen).nodes@,
        ).push(n),
        final(seen).done == old(seen).done,
        final(answered).nodes@ == old(answered).nodes@,
        final(answered).done <==> old(answered).done || (id == 0 && seq == old(answered).pending),
{
}

/// The order of the table: microphones, then sinks, then applications that
/// play, then those that record, then the rest; within each by their ids.
pub proof fn table_is_ordered(nodes: Vec<NodeInfo>, r: Vec<NodeInfo>, i: int, j: int)
    requires
        call_ensures(sort_nodes, (nodes,), r),
        0 <= i < j < r@.len(),
    ensures
        ({
            let place = |c: MediaClass|
                match c {
                    MediaClass::Source => 0int,
                    MediaClass::Sink => 1,
                    MediaClass::StreamOutput => 2,
                    MediaClass::StreamInput => 3,
                    MediaClass::Other => 4,
                };
            let a = place(r@[i].media_class);
            let b = place(r@[j].media_class);
            a < b || (a == b && r@[i].id <= r@[j].id)
        }),
{
    assert(node_key(r@[i]) <= node_key(r@[j]));
}

/// The table lists the nodes it was given, and no others.
pub proof fn table_lists_the_nodes(nodes: Vec<NodeInfo>, r: Vec<NodeInfo>, n: NodeInfo)
    requires
        call_ensures(sort_nodes, (nodes,), r),
    ensures
        r@.contains(n) <==> nodes@.contains(n),
{
    let key = node_key(n);
    assert(with_key(r@, key) == with_key(nodes@, key));
    lemma_with_key_contains(r@, key, n);
    lemma_with_key_contains(nodes@, key, n);
}

proof fn lemma_with_key_contains(nodes: Seq<NodeInfo>, key: int, n: NodeInfo)
    requires
        node_key(n) == key,
    ensures
        with_key(nodes, key).contains(n) <==> nodes.contains(n),
    decreases nodes.len(),
{
    reveal(Seq::filter);
    if nodes.len() > 0 {
        let before = nodes.drop_last();
        let last = nodes.last();
        lemma_with_key_contains(before, key, n);
        assert(nodes =~= before.push(last));
        let past = with_key(before, key);
        let all = with_key(nodes, key);
        if node_key(last) == key {
            assert(all == past.push(last));
        } else {
            assert(all == past);
        }
        if nodes.contains(n) {
            let k = choose|k: int| 0 <= k < nodes.len() && nodes[k] == n;
            if k < before.len() {
                assert(before[k] == n);
                let p = choose|p: int| 0 <= p < past.len() && past[p] == n;
                assert(all[p] == n);
            } else {
                assert(all[all.len() - 1] == n);
            }
        }
        if all.contains(n) {
            let p = choose|p: int| 0 <= p < all.len() && all[p] == n;
            if p < past.len() {
                assert(past[p] == n);
                let k = choose|k: int| 0 <= k < before.len() && before[k] == n;
                assert(nodes[k] == n);
            } else {
                assert(nodes[nodes.len() - 1] == n);
            }
        }
    }
}

/// The row of a node tells its id, its class, its name and its description, in
/// columns; a name that fits is told in full.
pub proof fn rows_tell_the_node(n: &NodeInfo, row: String)
    requires
        call_ensures(node_row, (n,), row),
        encode_utf8(n.name@).len() <= 48,
    ensures
        row@ == crate::text::padded_left(crate::text::decimal(n.id as nat), ' ', 5) + "  "@
            + crate::text::padded_right(
            match n.media_class {
                MediaClass::Source => "source"@,
                MediaClass::Sink => "sink"@,
                MediaClass::StreamOutput => "stream-out"@,
                MediaClass::StreamInput => "stream-in"@,
                MediaClass::Other => "other"@,
            },
            14,
        ) + "  "@ + crate::text::padded_right(n.name@, 48) + "  "@ + n.description@,
{
}

/// A name that is too long is cut to its beginning, with an ellipsis behind it.
pub proof fn long_names_are_cut(s: &str, max: usize, r: String)
    requires
        call_ensures(truncate, (s, max), r),
        can_cut(s@, max as int),
    ensures
        encode_utf8(s@).len() <= max ==> r@ == s@,
        encode_utf8(s@).len() > max ==> r@ == decode_utf8(encode_utf8(s@).subrange(0, max - 1))
            + "…"@,
{
}

} // verus!
