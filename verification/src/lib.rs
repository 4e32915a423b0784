//! A collage of synthesized voices: every distinct word of a text is spoken
//! once by a voice selected from its characters, and the clips are laid out
//! on a timeline in the order of the text.
//!
//! The library decides and describes; it starts no process and touches no
//! file. `voices` reads what the backends list, `scheduler` assigns words
//! to voices and builds the score, `backend` describes the commands to run,
//! `wave` measures a clip held in memory, and `laws` states what holds of
//! every schedule.

pub mod backend;
pub mod error;
pub mod laws;
pub mod scheduler;
pub mod score;
pub mod text;
pub mod voices;
pub mod wave;
pub mod words;

pub use backend::{
    clip_file, espeak_listing, espeak_tts, festival_listing, festival_server, festival_tts,
    flite_tts, flite_tts_in, mimic_listing, mimic_tts, rhvoice_tts, Invocation, Startup,
};
pub use error::Error;
pub use scheduler::{Job, RansomTTS, Session};
pub use score::{Event, Instrument, Score};
pub use voices::{
    get_all_voices, get_espeak_voices, get_festival_voices, get_flite_voices, get_mimic_voices,
    get_rhvoice_voices, TTS,
};
pub use wave::wav_info;
pub use words::WordMap;
