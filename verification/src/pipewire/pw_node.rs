//! A PipeWire node as the registry announces it, read from its properties.
use std::collections::HashMap;
use vstd::prelude::*;

use crate::strings::{
    char_to_uppercase, decimal, get_prop, has_prefix, lookup, opt_view, parse_u32, parse_u32_spec, str_eq,
    u32_to_string,
};

verus! {

/// The kinds of audio node that the mixer tells apart, by `media.class`.
#[derive(Debug, Clone, Copy, PartialEq, Eq, Structural)]
pub enum MediaClass {
    AudioSink,
    AudioSource,
    StreamOutputAudio,
    StreamInputAudio,
    Unknown,
}

impl MediaClass {
    /// The class that the `media.class` text `s` names.
    pub open spec fn spec_parse(s: Seq<char>) -> MediaClass {
        if s == "Audio/Sink"@ {
            MediaClass::AudioSink
        } else if s == "Audio/Source"@ {
            MediaClass::AudioSource
        } else if s == "Stream/Output/Audio"@ {
            MediaClass::StreamOutputAudio
        } else if s == "Stream/Input/Audio"@ {
            MediaClass::StreamInputAudio
        } else {
            MediaClass::Unknown
        }
    }

    pub open spec fn spec_is_device(self) -> bool {
        self is AudioSink || self is AudioSource
    }

    pub open spec fn spec_is_stream(self) -> bool {
        self is StreamOutputAudio || self is StreamInputAudio
    }

    pub open spec fn spec_is_output(self) -> bool {
        self is StreamOutputAudio || self is AudioSink
    }

    pub open spec fn spec_is_input(self) -> bool {
        self is StreamInputAudio || self is AudioSource
    }

    pub fn from_str(class: &str) -> (r: MediaClass)
        ensures
            r == Self::spec_parse(class@),
    {
        if str_eq(class, "Audio/Sink") {
            MediaClass::AudioSink
        } else if str_eq(class, "Audio/Source") {
            MediaClass::AudioSource
        } else if str_eq(class, "Stream/Output/Audio") {
            MediaClass::StreamOutputAudio
        } else if str_eq(class, "Stream/Input/Audio") {
            MediaClass::StreamInputAudio
        } else {
            MediaClass::Unknown
        }
    }

    pub fn is_device(&self) -> (r: bool)
        ensures
            r == self.spec_is_device(),
    {
        matches!(self, MediaClass::AudioSink | MediaClass::AudioSource)
    }

    pub fn is_stream(&self) -> (r: bool)
        ensures
            r == self.spec_is_stream(),
    {
        matches!(self, MediaClass::StreamOutputAudio | MediaClass::StreamInputAudio)
    }

    pub fn is_output(&self) -> (r: bool)
        ensures
            r == self.spec_is_output(),
    {
        matches!(self, MediaClass::StreamOutputAudio | MediaClass::AudioSink)
    }

    pub fn is_input(&self) -> (r: bool)
        ensures
            r == self.spec_is_input(),
    {
        matches!(self, MediaClass::StreamInputAudio | MediaClass::AudioSource)
    }
}

/// What is known of the application behind a stream node.
#[derive(Debug, Clone)]
pub struct AppInfo {
    pub name: Option<String>,
    pub binary: Option<String>,
    pub pid: Option<u32>,
    pub icon_name: Option<String>,
}

impl AppInfo {
    /// The name shown for the application: its name, else its binary, else a
    /// fixed placeholder.
    pub open spec fn spec_display_name(self) -> Seq<char> {
        match self.name {
            Some(n) => n@,
            None => match self.binary {
                Some(b) => b@,
                None => "Unknown Application"@,
            },
        }
    }

    pub fn display_name(&self) -> (r: &str)
        ensures
            r@ == self.spec_display_name(),
    {
        match &self.name {
            Some(n) => n.as_str(),
            None => match &self.binary {
                Some(b) => b.as_str(),
                None => "Unknown Application",
            },
        }
    }
}

/// What is known of the hardware behind a device node.
#[derive(Debug, Clone)]
pub struct DeviceInfo {
    pub description: Option<String>,
    pub card_name: Option<String>,
    pub is_default: bool,
}

/// An audio node of the PipeWire graph.
#[derive(Debug, Clone)]
pub struct PwNode {
    pub id: u32,
    pub name: String,
    pub nick: Option<String>,
    pub media_class: MediaClass,
    pub app_info: Option<AppInfo>,
    pub device_info: Option<DeviceInfo>,
    pub sample_rate: Option<u32>,
    pub format: Option<String>,
}

/// The text of the property `key` of `props`.
pub open spec fn prop(props: Map<String, String>, key: &str) -> Option<Seq<char>> {
    lookup(props, key@)
}

/// Reads an optional number property: absent or unreadable both give `None`.
pub open spec fn prop_u32(props: Map<String, String>, key: &str) -> Option<u32> {
    match prop(props, key) {
        Some(t) => parse_u32_spec(t),
        None => None,
    }
}

impl PwNode {
    /// The class of the node whose properties are `props`.
    pub open spec fn spec_class(props: Map<String, String>) -> MediaClass {
        match prop(props, "media.class") {
            Some(c) => MediaClass::spec_parse(c),
            None => MediaClass::Unknown,
        }
    }

    /// The node name given by `props`, or `Node <id>` when there is none.
    pub open spec fn spec_name(id: u32, props: Map<String, String>) -> Seq<char> {
        match prop(props, "node.name") {
            Some(n) => n,
            None => "Node "@ + decimal(id as nat),
        }
    }

    /// Whether `r` is the node that a global with `id` and `props`
    /// describes.
    pub open spec fn from_props_spec(r: PwNode, id: u32, props: Map<String, String>) -> bool {
        &&& r.id == id
        &&& r.media_class == Self::spec_class(props)
        &&& r.name@ == Self::spec_name(id, props)
        &&& opt_view(r.nick) == prop(props, "node.nick")
        &&& r.sample_rate == prop_u32(props, "audio.rate")
        &&& opt_view(r.format) == prop(props, "audio.format")
        // Application details exactly for streams.
        &&& r.app_info is Some <==> r.media_class.spec_is_stream()
        &&& r.app_info matches Some(a) ==> {
            &&& opt_view(a.name) == prop(props, "application.name")
            &&& opt_view(a.binary) == prop(props, "application.process.binary")
            &&& a.pid == prop_u32(props, "application.process.id")
            &&& opt_view(a.icon_name) == match prop(props, "application.icon-name") {
                Some(i) => Some(i),
                None => prop(props, "application.process.binary"),
            }
        }
        // Device details exactly for devices.
        &&& r.device_info is Some <==> r.media_class.spec_is_device()
        &&& r.device_info matches Some(d) ==> {
            &&& opt_view(d.description) == prop(props, "device.description")
            &&& opt_view(d.card_name) == prop(props, "device.name")
            &&& !d.is_default
        }
    }

    /// The node that a global with `id` and `props` describes. Application
    /// details are given exactly for streams, device details exactly for
    /// devices; a node without a name is called `Node <id>`.
    pub fn from_props(id: u32, props: &HashMap<String, String>) -> (r: PwNode)
        ensures
            Self::from_props_spec(r, id, props@),
    {
        let media_class = match get_prop(props, "media.class") {
            Some(class) => MediaClass::from_str(class.as_str()),
            None => MediaClass::Unknown,
        };

        let app_info = if media_class.is_stream() {
            let pid = match get_prop(props, "application.process.id") {
                Some(p) => parse_u32(p.as_str()),
                None => None,
            };
            let icon_name = match get_prop(props, "application.icon-name") {
                Some(i) => Some(i),
                None => get_prop(props, "application.process.binary"),
            };
            Some(AppInfo {
                name: get_prop(props, "application.name"),
                binary: get_prop(props, "application.process.binary"),
                pid,
                icon_name,
            })
        } else {
            None
        };

        let device_info = if media_class.is_device() {
            Some(DeviceInfo {
                description: get_prop(props, "device.description"),
                card_name: get_prop(props, "device.name"),
                is_default: false,
            })
        } else {
            None
        };

        let name = match get_prop(props, "node.name") {
            Some(n) => n,
            None => {
                let label = String::from_str("Node ");
                label.concat(u32_to_string(id).as_str())
            },
        };
        let sample_rate = match get_prop(props, "audio.rate") {
            Some(rate) => parse_u32(rate.as_str()),
            None => None,
        };

        PwNode {
            id,
            name,
            nick: get_prop(props, "node.nick"),
            media_class,
            app_info,
            device_info,
            sample_rate,
            format: get_prop(props, "audio.format"),
        }
    }
}

/// Law: the `media.class` texts name their classes one to one: each of the
/// four audio classes is named by exactly one text, and every other text is
/// of no known class.
pub proof fn law_class_texts(s: Seq<char>)
    ensures
        (MediaClass::spec_parse(s) == MediaClass::AudioSink) == (s == "Audio/Sink"@),
        (MediaClass::spec_parse(s) == MediaClass::AudioSource) == (s == "Audio/Source"@),
        (MediaClass::spec_parse(s) == MediaClass::StreamOutputAudio) == (s == "Stream/Output/Audio"@),
        (MediaClass::spec_parse(s) == MediaClass::StreamInputAudio) == (s == "Stream/Input/Audio"@),
{
    reveal_strlit("Audio/Sink");
    reveal_strlit("Audio/Source");
    reveal_strlit("Stream/Output/Audio");
    reveal_strlit("Stream/Input/Audio");
    assert("Audio/Sink"@.len() == 10);
    assert("Audio/Source"@.len() == 12);
    assert("Stream/Output/Audio"@.len() == 19);
    assert("Stream/Input/Audio"@.len() == 18);
}

/// Law: a node is a device exactly when its class is known and its text
/// begins with `Audio/`, and a stream exactly when its class is known and
/// its text begins with `Stream/`; every known class is one of the two, and
/// is input or output but not both.
pub proof fn law_devices_and_streams(s: Seq<char>)
    ensures
        MediaClass::spec_parse(s).spec_is_device() == (MediaClass::spec_parse(s) != MediaClass::Unknown && has_prefix(s, "Audio/"@)),
        MediaClass::spec_parse(s).spec_is_stream() == (MediaClass::spec_parse(s) != MediaClass::Unknown && has_prefix(s, "Stream/"@)),
        MediaClass::spec_parse(s) != MediaClass::Unknown ==> (MediaClass::spec_parse(s).spec_is_device() != MediaClass::spec_parse(s).spec_is_stream()),
        MediaClass::spec_parse(s) != MediaClass::Unknown ==> (MediaClass::spec_parse(s).spec_is_input() != MediaClass::spec_parse(s).spec_is_output()),
        MediaClass::spec_parse(s).spec_is_input() == (s == "Audio/Source"@ || s == "Stream/Input/Audio"@),
        MediaClass::spec_parse(s).spec_is_output() == (s == "Audio/Sink"@ || s == "Stream/Output/Audio"@),
{
    reveal_strlit("Audio/Sink");
    reveal_strlit("Audio/Source");
    reveal_strlit("Stream/Output/Audio");
    reveal_strlit("Stream/Input/Audio");
    reveal_strlit("Audio/");
    reveal_strlit("Stream/");
    law_class_texts(s);
    assert("Audio/Sink"@.subrange(0, 6) =~= "Audio/"@);
    assert("Audio/Source"@.subrange(0, 6) =~= "Audio/"@);
    assert("Stream/Output/Audio"@.subrange(0, 7) =~= "Stream/"@);
    assert("Stream/Input/Audio"@.subrange(0, 7) =~= "Stream/"@);
    assert("Stream/Output/Audio"@.subrange(0, 6) != "Audio/"@) by {
        assert("Stream/Output/Audio"@.subrange(0, 6)[0] != "Audio/"@[0]);
    }
    assert("Stream/Input/Audio"@.subrange(0, 6) != "Audio/"@) by {
        assert("Stream/Input/Audio"@.subrange(0, 6)[0] != "Audio/"@[0]);
    }
    assert("Audio/Sink"@.subrange(0, 7) != "Stream/"@) by {
        assert("Audio/Sink"@.subrange(0, 7)[0] != "Stream/"@[0]);
    }
    assert("Audio/Source"@.subrange(0, 7) != "Stream/"@) by {
        assert("Audio/Source"@.subrange(0, 7)[0] != "Stream/"@[0]);
    }
}

/// Law: a node read from properties whose `media.class` is `c` carries
/// device details exactly when `c` is `Audio/Sink` or `Audio/Source`, and
/// application details exactly when `c` is `Stream/Output/Audio` or
/// `Stream/Input/Audio`.
pub proof fn law_node_details_follow_class(r: PwNode, id: u32, props: Map<String, String>, c: Seq<char>)
    requires
        PwNode::from_props_spec(r, id, props),
        prop(props, "media.class") == Some(c),
    ensures
        r.device_info is Some <==> (c == "Audio/Sink"@ || c == "Audio/Source"@),
        r.app_info is Some <==> (c == "Stream/Output/Audio"@ || c == "Stream/Input/Audio"@),
{
    law_class_texts(c);
}

} // verus!
