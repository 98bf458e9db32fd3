//! The registry of audio nodes seen on the PipeWire graph.
use std::collections::HashMap;
use vstd::prelude::*;
use vstd::std_specs::iter::IteratorSpec;

use crate::pipewire::global::{Global, ObjectKind};
use crate::strings::{get_prop, has_prefix, lookup, opt_view, starts_with, str_eq, to_owned};

verus! {

broadcast use vstd::std_specs::hash::group_hash_axioms;

/// The role of an audio node, from its `media.class`.
#[derive(Debug, Clone, Copy, PartialEq, Eq, Structural)]
pub enum NodeType {
    AudioSink,
    AudioSource,
    StreamSink,
    StreamSource,
    VirtualSink,
    Unknown,
}

/// An audio node tracked by the registry.
#[derive(Debug, Clone)]
pub struct AudioNode {
    pub id: u32,
    pub name: String,
    pub app_name: Option<String>,
    pub binary_name: Option<String>,
    pub media_class: String,
    pub node_type: NodeType,
}

/// The node type that the `media.class` text `c` stands for.
pub open spec fn spec_classify(c: Seq<char>) -> NodeType {
    if c == "Audio/Sink"@ {
        NodeType::AudioSink
    } else if c == "Audio/Source"@ {
        NodeType::AudioSource
    } else if c == "Stream/Output/Audio"@ {
        NodeType::StreamSink
    } else if c == "Stream/Input/Audio"@ {
        NodeType::StreamSource
    } else {
        NodeType::Unknown
    }
}

/// The `media.class` text of a global: empty when absent.
pub open spec fn class_text(props: Option<HashMap<String, String>>) -> Seq<char> {
    match props {
        Some(p) => match lookup(p@, "media.class"@) {
            Some(c) => c,
            None => Seq::empty(),
        },
        None => Seq::empty(),
    }
}

/// Whether the registry keeps a global: a node whose class is an audio or
/// stream class.
pub open spec fn spec_is_audio_global(g: Global) -> bool {
    &&& g.kind == ObjectKind::Node
    &&& (has_prefix(class_text(g.props), "Audio/"@) || has_prefix(class_text(g.props), "Stream/"@))
}

/// The text of property `key` of a global, if it has properties.
pub open spec fn global_prop(props: Option<HashMap<String, String>>, key: Seq<char>) -> Option<Seq<char>> {
    match props {
        Some(p) => lookup(p@, key),
        None => None,
    }
}

/// The node that the registry builds for an audio global.
pub open spec fn spec_node_matches(n: AudioNode, g: Global) -> bool {
    &&& n.id == g.id
    &&& n.name@ == match global_prop(g.props, "node.name"@) {
        Some(s) => s,
        None => "Unknown"@,
    }
    &&& opt_view(n.app_name) == global_prop(g.props, "application.name"@)
    &&& opt_view(n.binary_name) == global_prop(g.props, "application.process.binary"@)
    &&& n.media_class@ == class_text(g.props)
    &&& n.node_type == spec_classify(class_text(g.props))
}


/// The audio nodes of the graph, keyed by their global id.
pub struct PwRegistry {
    nodes: HashMap<u32, AudioNode>,
}

impl View for PwRegistry {
    type V = Map<u32, AudioNode>;

    closed spec fn view(&self) -> Map<u32, AudioNode> {
        self.nodes@
    }
}

impl PwRegistry {
    /// Every node is stored under its own id.
    pub open spec fn wf(&self) -> bool {
        forall|k: u32| #[trigger] self@.contains_key(k) ==> self@[k].id == k
    }

    /// The node type that a `media.class` text stands for.
    fn classify_node(media_class: &str) -> (r: NodeType)
        ensures
            r == spec_classify(media_class@),
    {
        if str_eq(media_class, "Audio/Sink") {
            NodeType::AudioSink
        } else if str_eq(media_class, "Audio/Source") {
            NodeType::AudioSource
        } else if str_eq(media_class, "Stream/Output/Audio") {
            NodeType::StreamSink
        } else if str_eq(media_class, "Stream/Input/Audio") {
            NodeType::StreamSource
        } else {
            NodeType::Unknown
        }
    }

    pub fn new() -> (r: PwRegistry)
        ensures
            r@ == Map::<u32, AudioNode>::empty(),
            r.wf(),
    {
        PwRegistry { nodes: HashMap::new() }
    }

    fn class_of(global: &Global) -> (r: String)
        ensures
            r@ == class_text(global.props),
    {
        proof {
            reveal_strlit("");
        }
        match &global.props {
            Some(p) => match get_prop(p, "media.class") {
                Some(c) => c,
                None => to_owned(""),
            },
            None => to_owned(""),
        }
    }

    fn prop_of(global: &Global, key: &str) -> (r: Option<String>)
        ensures
            opt_view(r) == global_prop(global.props, key@),
    {
        match &global.props {
            Some(p) => get_prop(p, key),
            None => None,
        }
    }

    /// Records an audio node global; other globals leave the registry as it
    /// was.
    pub fn add_node(&mut self, global: &Global)
        requires
            old(self).wf(),
        ensures
            final(self).wf(),
            spec_is_audio_global(*global) ==> {
                &&& final(self)@.dom() == old(self)@.dom().insert(global.id)
                &&& spec_node_matches(final(self)@[global.id], *global)
                &&& forall|k: u32| k != global.id && #[trigger] old(self)@.contains_key(k) ==> final(self)@[k] == old(self)@[k]
            },
            !spec_is_audio_global(*global) ==> final(self)@ == old(self)@,
    {
        if global.kind != ObjectKind::Node {
            return;
        }
        let media_class = Self::class_of(global);
        if !starts_with(media_class.as_str(), "Audio/") && !starts_with(media_class.as_str(), "Stream/") {
            return;
        }
        let name = match Self::prop_of(global, "node.name") {
            Some(n) => n,
            None => to_owned("Unknown"),
        };
        let node_type = Self::classify_node(media_class.as_str());
        let node = AudioNode {
            id: global.id,
            name,
            app_name: Self::prop_of(global, "application.name"),
            binary_name: Self::prop_of(global, "application.process.binary"),
            media_class,
            node_type,
        };
        self.nodes.insert(global.id, node);
    }

    /// Forgets the node with id `id`, if there is one.
    pub fn remove_node(&mut self, id: &u32)
        requires
            old(self).wf(),
        ensures
            final(self).wf(),
            final(self)@ == old(self)@.remove(*id),
    {
        self.nodes.remove(id);
    }

    pub fn get_node(&self, id: u32) -> (r: Option<&AudioNode>)
        ensures
            r matches Some(n) ==> self@.contains_key(id) && *n == self@[id],
            r is None ==> !self@.contains_key(id),
    {
        self.nodes.get(&id)
    }

    /// The nodes of applications that play audio, each once, in no
    /// particular order.
    pub fn get_playback_stream(&self) -> (r: Vec<&AudioNode>)
        requires
            self.wf(),
        ensures
            forall|i: int| 0 <= i < r.len() ==> {
                &&& self@.contains_key(#[trigger] r[i].id)
                &&& self@[r[i].id] == *r[i]
                &&& r[i].node_type == NodeType::StreamSink
            },
            forall|k: u32| #[trigger] self@.contains_key(k) && self@[k].node_type == NodeType::StreamSink
                ==> exists|i: int| 0 <= i < r.len() && r[i].id == k,
            forall|i: int, j: int| 0 <= i < j < r.len() ==> r[i].id != r[j].id,
    {
        let mut out: Vec<&AudioNode> = Vec::new();
        let ghost keys = vstd::std_specs::hash::spec_keys_iter(&self.nodes).remaining();
        // `from[i]`: the position in `keys` that `out[i]` came from;
        // `at[k]`: the position in `out` of the node with id `k`.
        let ghost mut from: Seq<int> = Seq::empty();
        let ghost mut at: Map<u32, int> = Map::empty();
        for k in it: self.nodes.keys()
            invariant
                self.wf(),
                it.seq() == keys,
                keys.no_duplicates(),
                keys.unref().to_set() == self@.dom(),
                from.len() == out.len(),
                forall|i: int| 0 <= i < out.len() ==> self@.contains_key(#[trigger] out[i].id),
                forall|i: int| 0 <= i < out.len() ==> self@[out[i].id] == *#[trigger] out[i],
                forall|i: int| 0 <= i < out.len() ==> (#[trigger] out[i]).node_type == NodeType::StreamSink,
                forall|i: int| 0 <= i < out.len() ==> 0 <= #[trigger] from[i] < it.index(),
                forall|i: int| 0 <= i < out.len() ==> *keys[from[i]] == (#[trigger] out[i]).id,
                forall|j: int| 0 <= j < it.index() && self@[*#[trigger] keys[j]].node_type == NodeType::StreamSink
                    ==> at.contains_key(*keys[j]),
                forall|k: u32| #[trigger] at.contains_key(k) ==> 0 <= at[k] < out.len() && out[at[k]].id == k,
                forall|i: int, j: int| 0 <= i < j < out.len() ==> out[i].id != out[j].id,
        {
            let ghost idx = it.index();
            assert(*k == *keys[idx]);
            assert(keys.unref()[idx] == *k);
            assert(self@.contains_key(*k));
            match self.nodes.get(k) {
                Some(n) => {
                    if n.node_type == NodeType::StreamSink {
                        proof {
                            assert forall|i: int| 0 <= i < out.len() implies out[i].id != n.id by {
                                assert(*keys[from[i]] == out[i].id);
                                assert(from[i] < idx);
                            }
                            from = from.push(idx);
                            at = at.insert(*k, out.len() as int);
                        }
                        out.push(n);
                        assert(*keys[from[out.len() - 1]] == out[out.len() - 1].id);
                    }
                },
                None => {},
            }
        }
        proof {
            assert forall|k: u32| #[trigger] self@.contains_key(k) && self@[k].node_type == NodeType::StreamSink
                implies exists|i: int| 0 <= i < out.len() && out[i].id == k by {
                assert(keys.unref().to_set().contains(k));
                let j = choose|j: int| 0 <= j < keys.len() && keys.unref()[j] == k;
                assert(*keys[j] == k);
                assert(out[at[k]].id == k);
            }
        }
        out
    }
}

/// Law: the `media.class` texts name the node types one to one: each of the
/// four audio types is read from exactly one text, no text gives a virtual
/// sink, and every other text is `Unknown`.
pub proof fn law_node_types_by_text(c: Seq<char>)
    ensures
        (spec_classify(c) == NodeType::AudioSink) == (c == "Audio/Sink"@),
        (spec_classify(c) == NodeType::AudioSource) == (c == "Audio/Source"@),
        (spec_classify(c) == NodeType::StreamSink) == (c == "Stream/Output/Audio"@),
        (spec_classify(c) == NodeType::StreamSource) == (c == "Stream/Input/Audio"@),
        spec_classify(c) != NodeType::VirtualSink,
        (spec_classify(c) == NodeType::Unknown) == !(c == "Audio/Sink"@ || c == "Audio/Source"@
            || c == "Stream/Output/Audio"@ || c == "Stream/Input/Audio"@),
{
    reveal_strlit("Audio/Sink");
    reveal_strlit("Audio/Source");
    reveal_strlit("Stream/Output/Audio");
    reveal_strlit("Stream/Input/Audio");
    assert("Audio/Sink"@.len() == 10);
    assert("Audio/Source"@.len() == 12);
    assert("Stream/Output/Audio"@.len() == 19);
    assert("Stream/Input/Audio"@.len() == 18);
}

/// Law: a node the registry builds for a global counts as a playback stream
/// (what `get_playback_stream` lists) exactly when the global's
/// `media.class` is `Stream/Output/Audio`; a recording stream
/// (`Stream/Input/Audio`) never does.
pub proof fn law_playback_streams_are_output_streams(n: AudioNode, g: Global)
    requires
        spec_node_matches(n, g),
    ensures
        (n.node_type == NodeType::StreamSink) == (class_text(g.props) == "Stream/Output/Audio"@),
        class_text(g.props) == "Stream/Input/Audio"@ ==> n.node_type == NodeType::StreamSource,
{
    law_node_types_by_text(class_text(g.props));
}

} // verus!
