//! Track playback modes and the transport commands that per-track buttons
//! issue.
use vstd::prelude::*;
use crate::event::PointerButton;
use crate::timeline::floor_mod;

verus! {

/// Playback mode of a track.
#[derive(Clone, Copy, Debug, PartialEq, Eq, Structural)]
pub enum LooperMode {
    Recording,
    Overdubbing,
    Playing,
    Soloed,
    Muted,
}

/// A per-track transport command.
#[derive(Clone, Copy, Debug, PartialEq, Eq, Structural)]
pub enum LooperCommand {
    Record,
    Overdub,
    Play,
    Mute,
}

/// Outbound, fire-and-forget message to the audio engine.
#[derive(Clone, Debug, PartialEq, Eq)]
pub enum Command {
    AddLooper,
    /// A transport command for the track with this id.
    Looper(LooperCommand, u32),
    SelectLooperById(u32),
    /// Set the tempo, in beats per minute.
    SetTempoBpm(u64),
    SaveSession(String),
    LoadSession(String),
}

/// The command that the mode button `button` of a track in mode `current`
/// issues: the record, overdub and mute buttons toggle into their mode, or
/// back out of it (recording goes on to overdubbing, the others to playing).
/// The solo button has no transition.
pub open spec fn transition(current: LooperMode, button: LooperMode) -> Option<LooperCommand> {
    match button {
        LooperMode::Recording => if current == LooperMode::Recording {
            Some(LooperCommand::Overdub)
        } else {
            Some(LooperCommand::Record)
        },
        LooperMode::Overdubbing => if current == LooperMode::Overdubbing {
            Some(LooperCommand::Play)
        } else {
            Some(LooperCommand::Overdub)
        },
        LooperMode::Muted => if current == LooperMode::Muted {
            Some(LooperCommand::Play)
        } else {
            Some(LooperCommand::Mute)
        },
        _ => None,
    }
}

pub fn transport_command(current: LooperMode, button: LooperMode) -> (r: Option<LooperCommand>)
    ensures
        r == transition(current, button),
{
    match (current, button) {
        (LooperMode::Recording, LooperMode::Recording) => Some(LooperCommand::Overdub),
        (_, LooperMode::Recording) => Some(LooperCommand::Record),
        (LooperMode::Overdubbing, LooperMode::Overdubbing) => Some(LooperCommand::Play),
        (_, LooperMode::Overdubbing) => Some(LooperCommand::Overdub),
        (LooperMode::Muted, LooperMode::Muted) => Some(LooperCommand::Play),
        (_, LooperMode::Muted) => Some(LooperCommand::Mute),
        _ => None,
    }
}

/// The engine command for a click of `button` on a track's mode button:
/// only a left click issues one.
pub fn mode_button_command(id: u32, current: LooperMode, mode: LooperMode, button: PointerButton) -> (r: Option<Command>)
    ensures
        r == (if button == PointerButton::Left && transition(current, mode).is_some() {
            Some(Command::Looper(transition(current, mode).unwrap(), id))
        } else {
            None
        }),
{
    if button == PointerButton::Left {
        match transport_command(current, mode) {
            Some(c) => Some(Command::Looper(c, id)),
            None => None,
        }
    } else {
        None
    }
}

/// Colour of a mode, as red, green and blue.
pub fn color_for_mode(mode: LooperMode) -> (r: (u8, u8, u8))
    ensures
        r == match mode {
            LooperMode::Recording => (255u8, 0u8, 0u8),
            LooperMode::Overdubbing => (0u8, 255u8, 255u8),
            LooperMode::Playing => (0u8, 255u8, 0u8),
            LooperMode::Soloed => (0u8, 255u8, 0u8),
            LooperMode::Muted => (135u8, 135u8, 135u8),
        },
{
    match mode {
        LooperMode::Recording => (255, 0, 0),
        LooperMode::Overdubbing => (0, 255, 255),
        LooperMode::Playing => (0, 255, 0),
        LooperMode::Soloed => (0, 255, 0),
        LooperMode::Muted => (135, 135, 135),
    }
}

/// Darker colour of a mode, used to fill waveforms.
pub fn dark_color_for_mode(mode: LooperMode) -> (r: (u8, u8, u8))
    ensures
        r == match mode {
            LooperMode::Recording => (210u8, 45u8, 45u8),
            LooperMode::Overdubbing => (0u8, 255u8, 255u8),
            LooperMode::Playing => (0u8, 213u8, 0u8),
            LooperMode::Soloed => (0u8, 213u8, 0u8),
            LooperMode::Muted => (65u8, 65u8, 65u8),
        },
{
    match mode {
        LooperMode::Recording => (210, 45, 45),
        LooperMode::Overdubbing => (0, 255, 255),
        LooperMode::Playing => (0, 213, 0),
        LooperMode::Soloed => (0, 213, 0),
        LooperMode::Muted => (65, 65, 65),
    }
}

/// Position within the loop, in `[0, length)`, for the completion indicator;
/// zero for an empty or recording track.
pub fn loop_position(length: u64, mode: LooperMode, now: i64) -> (r: u64)
    ensures
        r == (if length == 0 || mode == LooperMode::Recording {
            0
        } else {
            (now as int) % (length as int)
        }),
        length > 0 ==> r < length,
{
    if length == 0 || mode == LooperMode::Recording {
        0
    } else {
        let r: i128 = floor_mod(now as i128, length as i128);
        r as u64
    }
}

} // verus!
