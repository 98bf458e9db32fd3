//! The decisions of the PipeWire backend thread: what a command asks of
//! PipeWire, and which registry globals answer a pending sink or link
//! creation. The thread, its PipeWire objects and the reply channels are
//! driven by the application, which performs the actions and sends the
//! replies that come back from here.
use std::collections::HashMap;
use vstd::prelude::*;
use vstd::string::StrSliceExecFns;

use crate::mixer::audio::backend::{BackendCommand, BackendEvent, LinkReply, SinkReply};
use crate::mixer::audio::node::{MediaClass, NodeInfo};
use crate::strings::{
    ascii_upper, char_to_uppercase, decimal, get_prop, has_prefix, lemma_parse_u64_decimal, lookup, opt_view, parse_u64,
    parse_u64_spec, starts_with, str_eq, u64_to_string, unicode_uppercase,
};

verus! {

/// Prefix of the `node.name` of every node the mixer creates.
pub const AMPLITUDE_PREFIX: &'static str = "amplitude-";

/// `s` with its first character upper-cased (by Unicode rules, which may
/// give several characters).
pub open spec fn capitalised(s: Seq<char>) -> Seq<char> {
    if s.len() == 0 {
        Seq::empty()
    } else {
        unicode_uppercase(s[0]) + s.subrange(1, s.len() as int)
    }
}

/// Upper-cases the first character of `s`.
pub fn capitalise(s: &str) -> (r: String)
    ensures
        r@ == capitalised(s@),
        s@.len() > 0 && (s@[0] as u32) < 128 ==> r@ == seq![ascii_upper(s@[0])] + s@.subrange(1, s@.len() as int),
{
    let n = s.unicode_len();
    if n == 0 {
        return String::new();
    }
    let first = char_to_uppercase(s.get_char(0));
    let rest = s.substring_char(1, n);
    first.concat(rest)
}

/// The key under which the object of a creation that waits for PipeWire's
/// answer is kept, until the answer gives the object its id.
pub const PENDING_OBJECT_KEY: u64 = 0xffff_ffff_ffff_ffff;

/// What to do when PipeWire answers a waiting creation: send `result` on
/// `reply`, and file the object kept under `from` under `to`.
#[derive(Debug)]
pub struct CreationAnswer<R> {
    pub reply: R,
    pub result: Result<u64, String>,
    pub from: u64,
    pub to: u64,
}

/// What the PipeWire thread must do for a command.
#[derive(Debug, Clone)]
pub enum PwThreadAction {
    /// Create an object from `factory` with the properties `props`, in
    /// order: a null audio sink with this node name and description; keep
    /// the object under `keep_under` until PipeWire answers.
    CreateNullSink {
        factory: String,
        node_name: String,
        description: String,
        props: Vec<(String, String)>,
        keep_under: u64,
    },
    /// Drop the sink object with this id, which destroys the node.
    ForgetSink { external_id: u64 },
    /// Create a link between the two nodes, given as decimal numerals; keep
    /// the object under `keep_under` until PipeWire answers.
    CreateLink { output_node: String, input_node: String, keep_under: u64 },
    /// Drop the link object with this id, which destroys the link.
    ForgetLink { link_id: u64 },
}

/// The object factory that sinks are made from.
pub const SINK_FACTORY: &'static str = "adapter";

/// The properties of a null audio sink named `node_name` and described as
/// `description`, in order.
pub open spec fn null_sink_props(node_name: Seq<char>, description: Seq<char>) -> Seq<(Seq<char>, Seq<char>)> {
    seq![
        ("factory.name"@, "support.null-audio-sink"@),
        ("node.name"@, node_name),
        ("node.description"@, description),
        ("media.class"@, "Audio/Sink"@),
        ("audio.position"@, "[ FL FR ]"@),
        ("node.virtual"@, "true"@),
        ("node.driver"@, "true"@),
    ]
}

/// The views of a list of text properties.
pub open spec fn props_view(props: Seq<(String, String)>) -> Seq<(Seq<char>, Seq<char>)> {
    props.map_values(|p: (String, String)| (p.0@, p.1@))
}

/// A property made of two texts.
fn prop(key: &str, value: &str) -> (r: (String, String))
    ensures
        r.0@ == key@,
        r.1@ == value@,
{
    (String::from_str(key), String::from_str(value))
}

/// The properties of a null audio sink named `node_name` and described as
/// `description`.
fn null_sink_prop_list(node_name: &str, description: &str) -> (r: Vec<(String, String)>)
    ensures
        props_view(r@) == null_sink_props(node_name@, description@),
{
    let mut v: Vec<(String, String)> = Vec::new();
    v.push(prop("factory.name", "support.null-audio-sink"));
    v.push(prop("node.name", node_name));
    v.push(prop("node.description", description));
    v.push(prop("media.class", "Audio/Sink"));
    v.push(prop("audio.position", "[ FL FR ]"));
    v.push(prop("node.virtual", "true"));
    v.push(prop("node.driver", "true"));
    assert(props_view(v@) =~= null_sink_props(node_name@, description@));
    v
}

/// The answer to a waiting creation that PipeWire gave the id `id`.
fn answer<R>(reply: R, id: u64) -> (r: CreationAnswer<R>)
    ensures
        r == (CreationAnswer { reply, result: Ok::<u64, String>(id), from: PENDING_OBJECT_KEY, to: id }),
{
    CreationAnswer { reply, result: Ok(id), from: PENDING_OBJECT_KEY, to: id }
}

/// The number that property `key` holds, 0 when it is missing or is not a
/// `u64` numeral.
pub open spec fn prop_u64(props: Map<String, String>, key: Seq<char>) -> u64 {
    match lookup(props, key) {
        Some(v) => match parse_u64_spec(v) {
            Some(n) => n,
            None => 0,
        },
        None => 0,
    }
}

/// The text of property `key`, or the empty text.
pub open spec fn prop_text(props: Map<String, String>, key: Seq<char>) -> Seq<char> {
    match lookup(props, key) {
        Some(v) => v,
        None => Seq::empty(),
    }
}

/// Whether `n` is what a node global with `id` and `props` reports.
pub open spec fn reported_node(n: NodeInfo, id: u32, props: Map<String, String>) -> bool {
    &&& n.id == id
    &&& n.name@ == prop_text(props, "node.name"@)
    &&& opt_view(n.description) == lookup(props, "node.description"@)
    &&& opt_view(n.app_name) == lookup(props, "application.name"@)
    &&& opt_view(n.app_binary) == lookup(props, "application.process.binary"@)
    &&& opt_view(n.media_class) == Some(prop_text(props, "media.class"@))
    &&& opt_view(n.icon) == lookup(props, "application.icon-name"@)
    &&& n.is_amplitude_virtual == has_prefix(n.name@, AMPLITUDE_PREFIX@)
}

/// The number `props` holds under `key` (see `prop_u64`).
fn prop_number(props: &HashMap<String, String>, key: &str) -> (r: u64)
    ensures
        r == prop_u64(props@, key@),
{
    match get_prop(props, key) {
        Some(v) => match parse_u64(v.as_str()) {
            Some(n) => n,
            None => 0,
        },
        None => 0,
    }
}

/// The creations that wait for PipeWire to announce their result: a sink
/// by its requested name, a link by the nodes it joins; each with the
/// channel that takes the reply.
#[derive(Debug)]
pub struct PwThreadState {
    pub pending_sink: Option<(String, SinkReply)>,
    pub pending_link: Option<(u64, u64, LinkReply)>,
}

impl PwThreadState {
    /// Nothing waits.
    pub fn new() -> (r: PwThreadState)
        ensures
            r.pending_sink is None,
            r.pending_link is None,
    {
        PwThreadState { pending_sink: None, pending_link: None }
    }

    /// What a command asks of PipeWire. A sink is created under the node
    /// name `amplitude-<name>` with the description `Amplitude <Name>`, and
    /// waits under its name (replacing whatever waited); a link waits under
    /// the nodes it joins. Destroying drops the object that keeps the node
    /// or link alive.
    pub fn handle_command(&mut self, cmd: BackendCommand) -> (r: PwThreadAction)
        ensures
            match cmd {
                BackendCommand::CreateVirtualSink { name, reply } => {
                    &&& final(self).pending_sink == Some((name, reply))
                    &&& final(self).pending_link == old(self).pending_link
                    &&& r matches PwThreadAction::CreateNullSink { factory, node_name, description, props, keep_under }
                        && keep_under == PENDING_OBJECT_KEY && node_name@
                        == AMPLITUDE_PREFIX@ + name@ && description@ == "Amplitude "@ + capitalised(name@)
                        && factory@ == SINK_FACTORY@ && props_view(props@) == null_sink_props(node_name@, description@)
                },
                BackendCommand::DestroyVirtualSink { external_id } => {
                    &&& *final(self) == *old(self)
                    &&& r == PwThreadAction::ForgetSink { external_id }
                },
                BackendCommand::CreateLink { output_node_id, input_node_id, reply } => {
                    &&& final(self).pending_link == Some((output_node_id, input_node_id, reply))
                    &&& final(self).pending_sink == old(self).pending_sink
                    &&& r matches PwThreadAction::CreateLink { output_node, input_node, keep_under }
                        && keep_under == PENDING_OBJECT_KEY && output_node@ == decimal(
                        output_node_id as nat,
                    ) && input_node@ == decimal(input_node_id as nat)
                },
                BackendCommand::DestroyLink { link_id } => {
                    &&& *final(self) == *old(self)
                    &&& r == PwThreadAction::ForgetLink { link_id }
                },
            },
    {
        match cmd {
            BackendCommand::CreateVirtualSink { name, reply } => {
                let node_name = String::from_str(AMPLITUDE_PREFIX).concat(name.as_str());
                let description = String::from_str("Amplitude ").concat(capitalise(name.as_str()).as_str());
                self.pending_sink = Some((name, reply));
                let props = null_sink_prop_list(node_name.as_str(), description.as_str());
                PwThreadAction::CreateNullSink {
                    factory: String::from_str(SINK_FACTORY),
                    node_name,
                    description,
                    props,
                    keep_under: PENDING_OBJECT_KEY,
                }
            },
            BackendCommand::DestroyVirtualSink { external_id } => PwThreadAction::ForgetSink { external_id },
            BackendCommand::CreateLink { output_node_id, input_node_id, reply } => {
                self.pending_link = Some((output_node_id, input_node_id, reply));
                let output_node = u64_to_string(output_node_id);
                let input_node = u64_to_string(input_node_id);
                PwThreadAction::CreateLink { output_node, input_node, keep_under: PENDING_OBJECT_KEY }
            },
            BackendCommand::DestroyLink { link_id } => PwThreadAction::ForgetLink { link_id },
        }
    }

    /// When creating the sink object failed: the waiting sink stops waiting
    /// and its channel gets the error `create_object failed: <error>`.
    pub fn sink_creation_failed(&mut self, error: &str) -> (r: Option<(SinkReply, Result<u64, String>)>)
        ensures
            final(self).pending_sink is None,
            final(self).pending_link == old(self).pending_link,
            match old(self).pending_sink {
                Some((_, reply)) => r matches Some((ch, Err(e))) && ch == reply && e@ == "create_object failed: "@
                    + error@,
                None => r is None,
            },
    {
        match self.pending_sink.take() {
            Some((_, reply)) => {
                let msg = String::from_str("create_object failed: ").concat(error);
                Some((reply, Err(msg)))
            },
            None => None,
        }
    }

    /// When creating the link object failed: the waiting link stops waiting
    /// and its channel gets the error `link create_object failed: <error>`.
    pub fn link_creation_failed(&mut self, error: &str) -> (r: Option<(LinkReply, Result<u64, String>)>)
        ensures
            final(self).pending_link is None,
            final(self).pending_sink == old(self).pending_sink,
            match old(self).pending_link {
                Some((_, _, reply)) => r matches Some((ch, Err(e))) && ch == reply && e@
                    == "link create_object failed: "@ + error@,
                None => r is None,
            },
    {
        match self.pending_link.take() {
            Some((_, _, reply)) => {
                let msg = String::from_str("link create_object failed: ").concat(error);
                Some((reply, Err(msg)))
            },
            None => None,
        }
    }

    /// A node appeared. When it is the mixer's node for the waiting sink
    /// (`amplitude-<name>` with the waiting name), that sink stops waiting:
    /// its channel is to get `Ok` of the node's id, and the sink object kept
    /// under the pending key is to be filed under that id. Audio devices and application streams
    /// are reported to the engine. A node without properties is ignored.
    pub fn handle_node_global(&mut self, id: u32, props: &Option<HashMap<String, String>>) -> (r: (
        Option<CreationAnswer<SinkReply>>,
        Option<BackendEvent>,
    ))
        ensures
            final(self).pending_link == old(self).pending_link,
            match *props {
                None => *final(self) == *old(self) && r.0 is None && r.1 is None,
                Some(p) => {
                    let name = prop_text(p@, "node.name"@);
                    let answers = has_prefix(name, AMPLITUDE_PREFIX@) && match old(self).pending_sink {
                        Some((expected, _)) => name.subrange(AMPLITUDE_PREFIX@.len() as int, name.len() as int)
                            == expected@,
                        None => false,
                    };
                    &&& answers ==> final(self).pending_sink is None && match old(self).pending_sink {
                        Some((_, ch)) => r.0 == Some(
                            (CreationAnswer { reply: ch, result: Ok::<u64, String>(id as u64), from: PENDING_OBJECT_KEY, to: id as u64 }),
                        ),
                        None => false,
                    }
                    &&& !answers ==> final(self).pending_sink == old(self).pending_sink && r.0 is None
                    &&& MediaClass::spec_parse(prop_text(p@, "media.class"@)).spec_is_relevant() ==> (r.1 matches Some(
                        BackendEvent::NodeAdded(n),
                    ) && reported_node(n, id, p@))
                    &&& !MediaClass::spec_parse(prop_text(p@, "media.class"@)).spec_is_relevant() ==> r.1 is None
                },
            },
    {
        let props = match props {
            Some(p) => p,
            None => {
                return (None, None);
            },
        };
        let raw_class = match get_prop(props, "media.class") {
            Some(v) => v,
            None => String::new(),
        };
        let media_class = MediaClass::parse(raw_class.as_str());
        let node_name = match get_prop(props, "node.name") {
            Some(v) => v,
            None => String::new(),
        };
        let is_amplitude_virtual = starts_with(node_name.as_str(), AMPLITUDE_PREFIX);
        let mut reply: Option<CreationAnswer<SinkReply>> = None;
        if is_amplitude_virtual {
            let suffix = node_name.as_str().substring_char(AMPLITUDE_PREFIX.unicode_len(), node_name.as_str().unicode_len());
            let matches_pending = match &self.pending_sink {
                Some((expected, _)) => str_eq(suffix, expected.as_str()),
                None => false,
            };
            if matches_pending {
                match self.pending_sink.take() {
                    Some((_, ch)) => {
                        reply = Some(answer(ch, id as u64));
                    },
                    None => {},
                }
            }
        }
        if !media_class.is_relevant() {
            return (reply, None);
        }
        let info = NodeInfo {
            id,
            name: node_name,
            description: get_prop(props, "node.description"),
            app_name: get_prop(props, "application.name"),
            app_binary: get_prop(props, "application.process.binary"),
            media_class: Some(raw_class),
            icon: get_prop(props, "application.icon-name"),
            is_amplitude_virtual,
        };
        (reply, Some(BackendEvent::NodeAdded(info)))
    }

    /// A link appeared. When it joins the nodes the waiting link was asked
    /// for, that link stops waiting: its channel is to get `Ok` of the link's
    /// id, and the link object kept under the pending key is to be filed
    /// under that id. Other links,
    /// and links without properties (read as joining node 0 to node 0)
    /// that do not match, change nothing.
    pub fn handle_link_global(&mut self, id: u32, props: &Option<HashMap<String, String>>) -> (r: Option<
        CreationAnswer<LinkReply>,
    >)
        ensures
            final(self).pending_sink == old(self).pending_sink,
            ({
                let (out, inp) = match *props {
                    Some(p) => (prop_u64(p@, "link.output.node"@), prop_u64(p@, "link.input.node"@)),
                    None => (0u64, 0u64),
                };
                let answers = match old(self).pending_link {
                    Some((o, i, _)) => o == out && i == inp,
                    None => false,
                };
                &&& answers ==> final(self).pending_link is None && match old(self).pending_link {
                    Some((_, _, ch)) => r == Some(
                        (CreationAnswer { reply: ch, result: Ok::<u64, String>(id as u64), from: PENDING_OBJECT_KEY, to: id as u64 }),
                    ),
                    None => false,
                }
                &&& !answers ==> final(self).pending_link == old(self).pending_link && r is None
            }),
    {
        let (link_out, link_in) = match props {
            Some(p) => (prop_number(p, "link.output.node"), prop_number(p, "link.input.node")),
            None => (0u64, 0u64),
        };
        let matches_pending = match &self.pending_link {
            Some((o, i, _)) => *o == link_out && *i == link_in,
            None => false,
        };
        if matches_pending {
            match self.pending_link.take() {
                Some((_, _, ch)) => Some(answer(ch, id as u64)),
                None => None,
            }
        } else {
            None
        }
    }

    /// A global went away: the engine is told a node was removed.
    pub fn handle_global_removed(&self, id: u32) -> (r: BackendEvent)
        ensures
            r == BackendEvent::NodeRemoved(id),
    {
        BackendEvent::NodeRemoved(id)
    }
}

/// A link the thread asks PipeWire for is recognized by its registry
/// announcement: the node ids it writes into the link's properties read
/// back as the nodes the waiting link was asked between.
pub proof fn law_created_link_is_recognized(
    output_node_id: u64,
    input_node_id: u64,
    output_node: Seq<char>,
    input_node: Seq<char>,
    props: Map<String, String>,
)
    requires
        output_node == decimal(output_node_id as nat),
        input_node == decimal(input_node_id as nat),
        lookup(props, "link.output.node"@) == Some(output_node),
        lookup(props, "link.input.node"@) == Some(input_node),
    ensures
        prop_u64(props, "link.output.node"@) == output_node_id,
        prop_u64(props, "link.input.node"@) == input_node_id,
{
    lemma_parse_u64_decimal(output_node_id);
    lemma_parse_u64_decimal(input_node_id);
}

/// A sink the thread asks PipeWire for is recognized by its registry
/// announcement: the node name it gives (`amplitude-<name>`) carries the
/// prefix, and what follows the prefix is the waiting name.
pub proof fn law_created_sink_is_recognized(name: Seq<char>)
    ensures
        has_prefix(AMPLITUDE_PREFIX@ + name, AMPLITUDE_PREFIX@),
        (AMPLITUDE_PREFIX@ + name).subrange(AMPLITUDE_PREFIX@.len() as int, (AMPLITUDE_PREFIX@ + name).len() as int)
            == name,
{
    assert((AMPLITUDE_PREFIX@ + name).subrange(0, AMPLITUDE_PREFIX@.len() as int) =~= AMPLITUDE_PREFIX@);
    assert((AMPLITUDE_PREFIX@ + name).subrange(AMPLITUDE_PREFIX@.len() as int, (AMPLITUDE_PREFIX@ + name).len() as int)
        =~= name);
}

/// Law: a node global is reported to the engine exactly when its
/// `media.class` is one of the four audio texts (devices `Audio/Sink`,
/// `Audio/Source`; streams `Stream/Output/Audio`, `Stream/Input/Audio`).
pub proof fn law_audio_nodes_are_reported(props: Map<String, String>)
    ensures
        MediaClass::spec_parse(prop_text(props, "media.class"@)).spec_is_relevant() == ({
            let c = prop_text(props, "media.class"@);
            c == "Audio/Sink"@ || c == "Audio/Source"@ || c == "Stream/Output/Audio"@ || c == "Stream/Input/Audio"@
        }),
{
    crate::mixer::audio::node::law_media_class_texts(prop_text(props, "media.class"@));
}

} // verus!
