//! The mixer window's state and how each message changes it. Drawing the
//! window, saving the configuration and draining the backend's events are
//! the application's business; `App::update` says when they are due.
use vstd::prelude::*;

use crate::audio::audio_manager::{AudioManager, ChannelBus};
use crate::audio::channel::{BusOptions, NewChannelData};
use crate::audio::channel_manager::{send_of, with_send};
use crate::pipewire::pw_core::PwEvent;
use crate::shell::config::{in_table, Config};
use crate::shell::modal::Modal;

verus! {

/// What the window reacts to. Volumes are the bits of `f32` values.
#[derive(Debug, Clone)]
pub enum Message {
    AddChannel,
    MonitorVolumeChanged(u128, u32),
    StreamVolumeChanged(u128, u32),
    MonitorMuteToggled(u128),
    StreamMuteToggled(u128),
    PipeWireEvent(PwEvent),
    ShowCreateChannelModal,
    HideCreateChannelModal,
    NewChannelContentChanged(String),
    ShowAppNamesModal(u128),
}

/// What the application must do after a message.
#[derive(Debug, Clone, Copy, PartialEq, Eq, Structural)]
pub enum Effect {
    Nothing,
    /// Write the configuration to its file.
    SaveConfig,
    /// Drain the events the audio backend has queued.
    ProcessBackendEvents,
}

pub struct App {
    pub audio_manager: AudioManager,
    pub config: Config,
    pub create_channel_modal: Modal<NewChannelData>,
}

impl App {
    /// The new-channel dialog always has data to edit.
    pub open spec fn wf(&self) -> bool {
        self.create_channel_modal.data is Some
    }

    /// The window over a loaded configuration, with no channel strips yet
    /// and the new-channel dialog hidden with an empty name.
    pub fn new(config: Config) -> (r: App)
        ensures
            r.wf(),
            r.config.channels@ == config.channels@,
            r.audio_manager.channels() == Map::<u128, crate::audio::channel::Channel>::empty(),
            !r.create_channel_modal.show_modal,
            r.create_channel_modal.data matches Some(d) && d.name@ == Seq::<char>::empty(),
    {
        App {
            audio_manager: AudioManager::new(),
            config,
            create_channel_modal: Modal::new(NewChannelData { name: String::new() }),
        }
    }

    /// Applies a message. Adding a channel takes the dialog's name, and the
    /// configuration's channels become the window's (saved afterwards);
    /// volumes and mutes go to the channel's send; a backend event asks for
    /// the backend's queue to be drained; the dialog shows, hides and edits
    /// its name; the application-names message changes nothing.
    pub fn update(&mut self, msg: Message) -> (r: Effect)
        requires
            old(self).wf(),
        ensures
            final(self).wf(),
            match msg {
                Message::AddChannel => {
                    &&& r == Effect::SaveConfig
                    &&& exists|id: u128|
                        final(self).audio_manager.channels() == old(self).audio_manager.channels().insert(
                            id,
                            #[trigger] final(self).audio_manager.channels()[id],
                        ) && final(self).audio_manager.channels()[id].channel_name@ == old(
                            self,
                        ).create_channel_modal.data->0.name@
                    &&& final(self).config.channels@.len() == final(self).audio_manager.channels().len()
                    &&& forall|i: int|
                        0 <= i < final(self).config.channels@.len() ==> in_table(
                            final(self).audio_manager.channels(),
                            #[trigger] final(self).config.channels@[i],
                        )
                    &&& final(self).create_channel_modal == old(self).create_channel_modal
                },
                Message::MonitorVolumeChanged(id, v) => r == Effect::Nothing && unchanged_but_send(
                    old(self),
                    final(self),
                    id,
                    ChannelBus::Monitor,
                    Some(v),
                ),
                Message::StreamVolumeChanged(id, v) => r == Effect::Nothing && unchanged_but_send(
                    old(self),
                    final(self),
                    id,
                    ChannelBus::Stream,
                    Some(v),
                ),
                Message::MonitorMuteToggled(id) => r == Effect::Nothing && unchanged_but_send(
                    old(self),
                    final(self),
                    id,
                    ChannelBus::Monitor,
                    None,
                ),
                Message::StreamMuteToggled(id) => r == Effect::Nothing && unchanged_but_send(
                    old(self),
                    final(self),
                    id,
                    ChannelBus::Stream,
                    None,
                ),
                Message::PipeWireEvent(_) => r == Effect::ProcessBackendEvents && *final(self) == *old(self),
                Message::ShowCreateChannelModal => {
                    &&& r == Effect::Nothing
                    &&& final(self).create_channel_modal.show_modal
                    &&& final(self).create_channel_modal.data == old(self).create_channel_modal.data
                    &&& final(self).audio_manager == old(self).audio_manager
                    &&& final(self).config == old(self).config
                },
                Message::HideCreateChannelModal => {
                    &&& r == Effect::Nothing
                    &&& !final(self).create_channel_modal.show_modal
                    &&& final(self).create_channel_modal.data == old(self).create_channel_modal.data
                    &&& final(self).audio_manager == old(self).audio_manager
                    &&& final(self).config == old(self).config
                },
                Message::NewChannelContentChanged(content) => {
                    &&& r == Effect::Nothing
                    &&& final(self).create_channel_modal.data == Some(NewChannelData { name: content })
                    &&& final(self).create_channel_modal.show_modal == old(self).create_channel_modal.show_modal
                    &&& final(self).audio_manager == old(self).audio_manager
                    &&& final(self).config == old(self).config
                },
                Message::ShowAppNamesModal(_) => r == Effect::Nothing && *final(self) == *old(self),
            },
    {
        match msg {
            Message::ShowCreateChannelModal => {
                self.create_channel_modal.show();
                Effect::Nothing
            },
            Message::HideCreateChannelModal => {
                self.create_channel_modal.close();
                Effect::Nothing
            },
            Message::AddChannel => {
                let id = match &self.create_channel_modal.data {
                    Some(d) => self.audio_manager.add_channel(d.name.as_str()),
                    None => {
                        return Effect::Nothing;
                    },
                };
                let channels = self.audio_manager.get_channels();
                self.config.set_channels(channels);
                Effect::SaveConfig
            },
            Message::MonitorVolumeChanged(uuid, volume) => {
                self.audio_manager.update_volume(uuid, volume, ChannelBus::Monitor);
                Effect::Nothing
            },
            Message::StreamVolumeChanged(uuid, volume) => {
                self.audio_manager.update_volume(uuid, volume, ChannelBus::Stream);
                Effect::Nothing
            },
            Message::MonitorMuteToggled(uuid) => {
                self.audio_manager.toggle_mute(uuid, ChannelBus::Monitor);
                Effect::Nothing
            },
            Message::StreamMuteToggled(uuid) => {
                self.audio_manager.toggle_mute(uuid, ChannelBus::Stream);
                Effect::Nothing
            },
            Message::PipeWireEvent(_) => Effect::ProcessBackendEvents,
            Message::NewChannelContentChanged(content) => {
                self.create_channel_modal.data = Some(NewChannelData { name: content });
                Effect::Nothing
            },
            Message::ShowAppNamesModal(_) => Effect::Nothing,
        }
    }
}

/// `after` is `before` with send `bus` of channel `id` set to `volume`
/// (or its mute flipped when `volume` is `None`), when there is such a
/// channel; everything else is kept.
pub open spec fn unchanged_but_send(before: &App, after: &App, id: u128, bus: ChannelBus, volume: Option<u32>) -> bool {
    let chs = before.audio_manager.channels();
    &&& after.config == before.config
    &&& after.create_channel_modal == before.create_channel_modal
    &&& after.audio_manager.bus(ChannelBus::Monitor) == before.audio_manager.bus(ChannelBus::Monitor)
    &&& after.audio_manager.bus(ChannelBus::Stream) == before.audio_manager.bus(ChannelBus::Stream)
    &&& chs.contains_key(id) ==> after.audio_manager.channels() == chs.insert(
        id,
        with_send(
            chs[id],
            bus,
            match volume {
                Some(v) => BusOptions { volume: v, ..send_of(chs[id], bus) },
                None => BusOptions { muted: !send_of(chs[id], bus).muted, ..send_of(chs[id], bus) },
            },
        ),
    )
    &&& !chs.contains_key(id) ==> after.audio_manager.channels() == chs
}

} // verus!
