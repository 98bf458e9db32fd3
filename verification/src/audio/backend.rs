//! The platform-neutral view of an audio node that a platform backend
//! reports, and the node table it keeps.
use std::collections::HashMap;
use vstd::prelude::*;

use crate::strings::{get_prop, lookup, opt_view, parse_u32, parse_u32_spec, str_eq};

verus! {

broadcast use vstd::std_specs::hash::group_hash_axioms;

/// Commands sent to the audio backend.
#[derive(Debug, Clone, Copy, PartialEq, Eq, Structural)]
pub enum BackendCommand {
    Terminate,
}

/// Events the audio backend reports.
#[derive(Debug, Clone)]
pub enum AudioEvent {
    NodeAdded(AudioNode),
    NodeRemoved(u32),
}

/// A node of the platform's audio graph.
#[derive(Debug, Clone)]
pub struct AudioNode {
    pub id: u32,
    pub name: String,
    pub nick: Option<String>,
    pub media_class: MediaClass,
    pub app_info: Option<AppInfo>,
    pub device_info: Option<DeviceInfo>,
    pub sample_rate: Option<u32>,
    pub format: Option<String>,
}

/// What is known of the application behind a node.
#[derive(Debug, Clone)]
pub struct AppInfo {
    pub name: Option<String>,
    pub binary: Option<String>,
    pub pid: Option<u32>,
    pub icon_name: Option<String>,
}

/// What is known of the device behind a node.
#[derive(Debug, Clone)]
pub struct DeviceInfo {
    pub description: Option<String>,
    pub card_name: Option<String>,
    pub is_default: bool,
}

/// The media classes told apart.
#[derive(Debug, Clone, Copy, PartialEq, Eq, Structural)]
pub enum MediaClass {
    AudioSink,
    AudioSource,
    StreamOutputAudio,
    StreamInputAudio,
    Unknown,
}

impl MediaClass {
    pub open spec fn spec_from_str(class: Seq<char>) -> MediaClass {
        if class == "Audio/Sink"@ {
            MediaClass::AudioSink
        } else if class == "Audio/Source"@ {
            MediaClass::AudioSource
        } else if class == "Stream/Output/Audio"@ {
            MediaClass::StreamOutputAudio
        } else if class == "Stream/Input/Audio"@ {
            MediaClass::StreamInputAudio
        } else {
            MediaClass::Unknown
        }
    }

    /// Reads a `media.class` value; anything else is `Unknown`.
    pub fn from_str(class: &str) -> (r: MediaClass)
        ensures
            r == Self::spec_from_str(class@),
    {
        if str_eq(class, "Audio/Sink") {
            MediaClass::AudioSink
        } else if str_eq(class, "Audio/Source") {
            MediaClass::AudioSource
        } else if str_eq(class, "Stream/Output/Audio") {
            MediaClass::StreamOutputAudio
        } else if str_eq(class, "Stream/Input/Audio") {
            MediaClass::StreamInputAudio
        } else {
            MediaClass::Unknown
        }
    }
}

impl AppInfo {
    /// The name shown for the application: its name, else its binary, else
    /// a fixed placeholder.
    pub open spec fn spec_display_name(self) -> Seq<char> {
        match self.name {
            Some(n) => n@,
            None => match self.binary {
                Some(b) => b@,
                None => "Unknown Application"@,
            },
        }
    }

    pub fn display_name(&self) -> (r: &str)
        ensures
            r@ == self.spec_display_name(),
    {
        match &self.name {
            Some(n) => n.as_str(),
            None => match &self.binary {
                Some(b) => b.as_str(),
                None => "Unknown Application",
            },
        }
    }
}

/// The text of property `key`, or the empty text.
pub open spec fn text_or_empty(props: Map<String, String>, key: Seq<char>) -> Seq<char> {
    match lookup(props, key) {
        Some(v) => v,
        None => Seq::empty(),
    }
}

impl AudioNode {
    /// The node that properties describe, keyed as the platform's property
    /// dictionary gives them. A present but unreadable sample rate reads as
    /// 0.
    pub fn from_props(id: u32, props: &HashMap<String, String>) -> (r: AudioNode)
        ensures
            r.id == id,
            r.name@ == text_or_empty(props@, "name"@),
            opt_view(r.nick) == lookup(props@, "nick"@),
            r.media_class == MediaClass::spec_from_str(text_or_empty(props@, "media.class"@)),
            match lookup(props@, "application.name"@) {
                Some(n) => r.app_info matches Some(a) && opt_view(a.name) == Some(n) && a.binary is None
                    && a.pid is None && a.icon_name is None,
                None => r.app_info is None,
            },
            match lookup(props@, "device.description"@) {
                Some(d) => r.device_info matches Some(i) && opt_view(i.description) == Some(d) && i.card_name is None
                    && !i.is_default,
                None => r.device_info is None,
            },
            r.sample_rate == match lookup(props@, "format.sample_rate"@) {
                Some(t) => Some(
                    match parse_u32_spec(t) {
                        Some(n) => n,
                        None => 0u32,
                    },
                ),
                None => None,
            },
            opt_view(r.format) == lookup(props@, "format.format"@),
    {
        let name = match get_prop(props, "name") {
            Some(n) => n,
            None => String::new(),
        };
        let nick = get_prop(props, "nick");
        let class = match get_prop(props, "media.class") {
            Some(c) => c,
            None => String::new(),
        };
        let media_class = MediaClass::from_str(class.as_str());
        let app_info = match get_prop(props, "application.name") {
            Some(n) => Some(AppInfo { name: Some(n), binary: None, pid: None, icon_name: None }),
            None => None,
        };
        let device_info = match get_prop(props, "device.description") {
            Some(d) => Some(DeviceInfo { description: Some(d), card_name: None, is_default: false }),
            None => None,
        };
        let sample_rate = match get_prop(props, "format.sample_rate") {
            Some(rate) => Some(
                match parse_u32(rate.as_str()) {
                    Some(n) => n,
                    None => 0,
                },
            ),
            None => None,
        };
        let format = get_prop(props, "format.format");
        AudioNode { id, name, nick, media_class, app_info, device_info, sample_rate, format }
    }
}

/// Applies a backend event to the node table: an added node is filed
/// under its id (replacing any node there), a removed one leaves it.
pub fn process_event(nodes: &mut HashMap<u32, AudioNode>, event: AudioEvent)
    ensures
        match event {
            AudioEvent::NodeAdded(node) => final(nodes)@ == old(nodes)@.insert(node.id, node),
            AudioEvent::NodeRemoved(id) => final(nodes)@ == old(nodes)@.remove(id),
        },
{
    match event {
        AudioEvent::NodeAdded(node) => {
            nodes.insert(node.id, node);
        },
        AudioEvent::NodeRemoved(id) => {
            nodes.remove(&id);
        },
    }
}

/// Law: the `media.class` texts name their classes one to one: each of the
/// four audio classes is read from exactly one text, and every other text
/// reads as `Unknown`.
pub proof fn law_media_class_texts(s: Seq<char>)
    ensures
        (MediaClass::spec_from_str(s) == MediaClass::AudioSink) == (s == "Audio/Sink"@),
        (MediaClass::spec_from_str(s) == MediaClass::AudioSource) == (s == "Audio/Source"@),
        (MediaClass::spec_from_str(s) == MediaClass::StreamOutputAudio) == (s == "Stream/Output/Audio"@),
        (MediaClass::spec_from_str(s) == MediaClass::StreamInputAudio) == (s == "Stream/Input/Audio"@),
        (MediaClass::spec_from_str(s) == MediaClass::Unknown) == !(s == "Audio/Sink"@ || s == "Audio/Source"@
            || s == "Stream/Output/Audio"@ || s == "Stream/Input/Audio"@),
{
    reveal_strlit("Audio/Sink");
    reveal_strlit("Audio/Source");
    reveal_strlit("Stream/Output/Audio");
    reveal_strlit("Stream/Input/Audio");
    assert("Audio/Sink"@.len() == 10);
    assert("Audio/Source"@.len() == 12);
    assert("Stream/Output/Audio"@.len() == 19);
    assert("Stream/Input/Audio"@.len() == 18);
}

/// Law: two different texts read as the same known class never: a known
/// class determines its `media.class` text.
pub proof fn law_media_class_names_one_text(s: Seq<char>, t: Seq<char>)
    requires
        MediaClass::spec_from_str(s) == MediaClass::spec_from_str(t),
        MediaClass::spec_from_str(s) != MediaClass::Unknown,
    ensures
        s == t,
{
    law_media_class_texts(s);
    law_media_class_texts(t);
}

/// Law: a node read from properties is of class `Unknown` exactly when its
/// `media.class` is none of the four audio texts (or absent), and is an
/// application playback stream exactly when it is `Stream/Output/Audio`.
pub proof fn law_node_class_follows_text(r: AudioNode, props: Map<String, String>)
    requires
        r.media_class == MediaClass::spec_from_str(text_or_empty(props, "media.class"@)),
    ensures
        ({
            let c = text_or_empty(props, "media.class"@);
            &&& (r.media_class == MediaClass::Unknown) == !(c == "Audio/Sink"@ || c == "Audio/Source"@
                || c == "Stream/Output/Audio"@ || c == "Stream/Input/Audio"@)
            &&& (r.media_class == MediaClass::StreamOutputAudio) == (c == "Stream/Output/Audio"@)
        }),
{
    law_media_class_texts(text_or_empty(props, "media.class"@));
}

} // verus!
