//! Audio backend selection: which playback library a platform uses.
//! The playback itself is input/output and lives outside the library;
//! what stands here is the platform decision.

use vstd::prelude::*;

verus! {

/// The playback backends a build can carry.
#[derive(Clone, Copy, PartialEq, Eq, Structural, Debug)]
pub enum AudioBackend {
    Alsa,
    Rodio,
}

/// The backend a platform plays music through: the native sound
/// layer on a platform built with audio support, the portable
/// fallback elsewhere, and nothing on a native platform built
/// without audio support.
pub open spec fn spec_playback_backend(native_audio: bool, audio_feature: bool) -> Option<
    AudioBackend,
> {
    if native_audio && audio_feature {
        Option::Some(AudioBackend::Alsa)
    } else if !native_audio {
        Option::Some(AudioBackend::Rodio)
    } else {
        Option::None
    }
}

/// Decides which backend plays music for the given platform flags;
/// the caller performs the playback through the chosen library.
pub fn play_music(native_audio: bool, audio_feature: bool) -> (r: Option<AudioBackend>)
    ensures
        r == spec_playback_backend(native_audio, audio_feature),
{
    if native_audio && audio_feature {
        Option::Some(AudioBackend::Alsa)
    } else if !native_audio {
        Option::Some(AudioBackend::Rodio)
    } else {
        Option::None
    }
}

} // verus!
