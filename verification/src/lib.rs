//! Verified core of a local-first meeting notes app: the meeting scheduler's
//! state machine and policies (start prompts, automatic starts and stops, end
//! reminders), settings, thread titles, metadata transitions, search and
//! listing order, transcript helpers, legacy-import planning with folder
//! fingerprints, storage accounting, and the decisions of a recording's start
//! and stop.

pub mod text;
pub mod meetings;
pub mod paths;
pub mod settings;
pub mod platform;
pub mod sorting;
pub mod threads;
pub mod recording;
