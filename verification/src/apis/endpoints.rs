//! The paths of the API, relative to its base URL.
use vstd::prelude::*;

verus! {

// Models API
pub const MODELS_LIST: &'static str = "models";
pub const MODELS_RETRIEVE: &'static str = "models/";
// Completions API
pub const COMPLETION_CREATE: &'static str = "completions";
// Chat API
pub const CHAT_COMPLETION_CREATE: &'static str = "chat/completions";
// Images API
pub const IMAGES_CREATE: &'static str = "images/generations";
pub const IMAGES_EDIT: &'static str = "images/edits";
pub const IMAGES_VARIATIONS: &'static str = "images/variations";
// Embeddings API
pub const EMBEDDINGS_CREATE: &'static str = "embeddings";
// Audio API
pub const AUDIO_TRANSCRIPTION_CREATE: &'static str = "audio/transcriptions";
pub const AUDIO_TRANSLATIONS_CREATE: &'static str = "audio/translations";

}
