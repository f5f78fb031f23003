//! From property changes to requests on the audio backend.
//!
//! The audio backend follows three properties: a new `current_track` is
//! loaded, `playing` turns playback on and off, and `volume` sets the level.
//! [`audio_request`] says what a change event asks of the backend; carrying
//! the request out is the caller's work.

use vstd::prelude::*;
use crate::properties::{Core, EventModel, EventType, Table, ValueModel};

verus! {

/// What the audio backend is asked to do.
#[derive(Debug, Clone, PartialEq)]
pub enum AudioRequest {
    /// Load this track, and turn playback on once it is loaded if `then_play`
    /// is set.
    Load { track: String, then_play: bool },
    Play,
    Pause,
    /// Set the volume to this level, a sample word.
    SetVolume(u32),
}

/// [`AudioRequest`] with its text as a sequence of characters.
pub enum AudioRequestModel {
    Load { track: Seq<char>, then_play: bool },
    Play,
    Pause,
    SetVolume(u32),
}

impl View for AudioRequest {
    type V = AudioRequestModel;

    open spec fn view(&self) -> AudioRequestModel {
        match *self {
            AudioRequest::Load { track, then_play } => AudioRequestModel::Load {
                track: track@,
                then_play,
            },
            AudioRequest::Play => AudioRequestModel::Play,
            AudioRequest::Pause => AudioRequestModel::Pause,
            AudioRequest::SetVolume(level) => AudioRequestModel::SetVolume(level),
        }
    }
}

pub open spec fn request_view(request: Option<AudioRequest>) -> Option<AudioRequestModel> {
    match request {
        Some(r) => Some(r@),
        None => None,
    }
}

/// Whether the `playing` property is set.
pub open spec fn is_playing(table: Table) -> bool {
    table.contains_key("playing"@) && table["playing"@] == ValueModel::Bool(true)
}

/// What an event asks of the audio backend, given the properties as they are
/// when the event is handled. Only a change of one of the three followed
/// properties to a value of its own kind asks for anything, and the track
/// `none` is never loaded.
pub open spec fn request_for(table: Table, event: EventModel) -> Option<AudioRequestModel> {
    match event {
        EventModel::PropertyChanged(name) => {
            if !table.contains_key(name) {
                None
            } else if name == "current_track"@ {
                match table[name] {
                    ValueModel::String(track) => if track == "none"@ {
                        None
                    } else {
                        Some(AudioRequestModel::Load { track, then_play: is_playing(table) })
                    },
                    _ => None,
                }
            } else if name == "playing"@ {
                match table[name] {
                    ValueModel::Bool(true) => Some(AudioRequestModel::Play),
                    ValueModel::Bool(false) => Some(AudioRequestModel::Pause),
                    _ => None,
                }
            } else if name == "volume"@ {
                match table[name] {
                    ValueModel::Float(level) => Some(AudioRequestModel::SetVolume(level)),
                    _ => None,
                }
            } else {
                None
            }
        },
        EventModel::CommandExecuted(_) => None,
    }
}

fn is_name(name: &String, literal: &str) -> (same: bool)
    ensures
        same == (name@ == literal@),
{
    *name == literal.to_owned()
}

/// Says what an event asks of the audio backend.
pub fn audio_request(core: &Core, event: &EventType) -> (request: Option<AudioRequest>)
    ensures
        request_view(request) == request_for(core@, event@),
{
    match event {
        EventType::PropertyChanged(name) => {
            if is_name(name, "current_track") {
                match core.get_string("current_track") {
                    Some(track) => {
                        if is_name(track, "none") {
                            None
                        } else {
                            let then_play = match core.get_bool("playing") {
                                Some(true) => true,
                                _ => false,
                            };
                            Some(AudioRequest::Load { track: track.clone(), then_play })
                        }
                    },
                    None => None,
                }
            } else if is_name(name, "playing") {
                match core.get_bool("playing") {
                    Some(true) => Some(AudioRequest::Play),
                    Some(false) => Some(AudioRequest::Pause),
                    None => None,
                }
            } else if is_name(name, "volume") {
                match core.get_float("volume") {
                    Some(level) => Some(AudioRequest::SetVolume(level)),
                    None => None,
                }
            } else {
                None
            }
        },
        EventType::CommandExecuted(_) => None,
    }
}

} // verus!
