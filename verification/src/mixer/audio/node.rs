//! A node of the audio graph as the engine keeps it.
use vstd::prelude::*;

use crate::audio::events::copy_opt_string;
use crate::strings::str_eq;

verus! {

/// A node of the graph.
#[derive(Debug, Clone)]
pub struct NodeInfo {
    pub id: u32,
    pub name: String,
    pub description: Option<String>,
    pub app_name: Option<String>,
    pub app_binary: Option<String>,
    pub media_class: Option<String>,
    pub icon: Option<String>,
    pub is_amplitude_virtual: bool,
}

impl NodeInfo {
    /// A copy equal to `self`.
    pub fn duplicate(&self) -> (r: NodeInfo)
        ensures
            r == *self,
    {
        NodeInfo {
            id: self.id,
            name: self.name.clone(),
            description: copy_opt_string(&self.description),
            app_name: copy_opt_string(&self.app_name),
            app_binary: copy_opt_string(&self.app_binary),
            media_class: copy_opt_string(&self.media_class),
            icon: copy_opt_string(&self.icon),
            is_amplitude_virtual: self.is_amplitude_virtual,
        }
    }
}

/// The `media.class` values the engine tells apart.
#[derive(Debug, Clone, Copy, PartialEq, Eq, Structural)]
pub enum MediaClass {
    AudioSink,
    AudioSource,
    StreamOutputAudio,
    StreamInputAudio,
    Other,
}

impl MediaClass {
    pub open spec fn spec_parse(s: Seq<char>) -> MediaClass {
        if s == "Audio/Sink"@ {
            MediaClass::AudioSink
        } else if s == "Audio/Source"@ {
            MediaClass::AudioSource
        } else if s == "Stream/Output/Audio"@ {
            MediaClass::StreamOutputAudio
        } else if s == "Stream/Input/Audio"@ {
            MediaClass::StreamInputAudio
        } else {
            MediaClass::Other
        }
    }

    pub fn parse(raw: &str) -> (r: MediaClass)
        ensures
            r == Self::spec_parse(raw@),
    {
        if str_eq(raw, "Audio/Sink") {
            MediaClass::AudioSink
        } else if str_eq(raw, "Audio/Source") {
            MediaClass::AudioSource
        } else if str_eq(raw, "Stream/Output/Audio") {
            MediaClass::StreamOutputAudio
        } else if str_eq(raw, "Stream/Input/Audio") {
            MediaClass::StreamInputAudio
        } else {
            MediaClass::Other
        }
    }

    /// Whether nodes of this class are reported to the engine: audio
    /// devices and application streams.
    pub open spec fn spec_is_relevant(self) -> bool {
        !(self is Other)
    }

    pub fn is_relevant(&self) -> (r: bool)
        ensures
            r == self.spec_is_relevant(),
    {
        !matches!(self, MediaClass::Other)
    }
}

/// Law: the `media.class` texts name their classes one to one: each of the
/// four audio classes is read from exactly one text, every other text is
/// `Other`, and a node is reported to the engine exactly when its class
/// text is one of the four.
pub proof fn law_media_class_texts(s: Seq<char>)
    ensures
        (MediaClass::spec_parse(s) == MediaClass::AudioSink) == (s == "Audio/Sink"@),
        (MediaClass::spec_parse(s) == MediaClass::AudioSource) == (s == "Audio/Source"@),
        (MediaClass::spec_parse(s) == MediaClass::StreamOutputAudio) == (s == "Stream/Output/Audio"@),
        (MediaClass::spec_parse(s) == MediaClass::StreamInputAudio) == (s == "Stream/Input/Audio"@),
        MediaClass::spec_parse(s).spec_is_relevant() == (s == "Audio/Sink"@ || s == "Audio/Source"@
            || s == "Stream/Output/Audio"@ || s == "Stream/Input/Audio"@),
{
    reveal_strlit("Audio/Sink");
    reveal_strlit("Audio/Source");
    reveal_strlit("Stream/Output/Audio");
    reveal_strlit("Stream/Input/Audio");
    assert("Audio/Sink"@.len() == 10);
    assert("Audio/Source"@.len() == 12);
    assert("Stream/Output/Audio"@.len() == 19);
    assert("Stream/Input/Audio"@.len() == 18);
}

} // verus!
