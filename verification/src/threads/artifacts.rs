//! The raw audio files of a recording.

use vstd::prelude::*;

use crate::paths::{join_path, joined};
use crate::text::copy_string;

verus! {

/// Where a thread's microphone and system audio are written.
#[derive(Clone, Debug, PartialEq, Eq)]
pub struct RecordingAudioPaths {
    mic_path: String,
    system_path: String,
}

impl RecordingAudioPaths {
    pub closed spec fn mic(&self) -> Seq<char> {
        self.mic_path@
    }

    pub closed spec fn system(&self) -> Seq<char> {
        self.system_path@
    }

    /// `mic.wav` and `system.wav` in the thread's folder.
    pub fn for_thread_dir(thread_dir: &str) -> (r: Self)
        ensures
            r.mic() == joined(thread_dir@, "mic.wav"@),
            r.system() == joined(thread_dir@, "system.wav"@),
    {
        RecordingAudioPaths {
            mic_path: join_path(thread_dir, "mic.wav"),
            system_path: join_path(thread_dir, "system.wav"),
        }
    }

    /// The microphone audio file.
    pub fn mic_path(&self) -> (r: &str)
        ensures
            r@ == self.mic(),
    {
        self.mic_path.as_str()
    }

    /// The system audio file.
    pub fn system_path(&self) -> (r: &str)
        ensures
            r@ == self.system(),
    {
        self.system_path.as_str()
    }
}

/// A thread's live transcript, one JSON segment per line.
pub fn transcript_jsonl_path(thread_dir: &str) -> (r: String)
    ensures
        r@ == joined(thread_dir@, "transcript.jsonl"@),
{
    join_path(thread_dir, "transcript.jsonl")
}

} // verus!
