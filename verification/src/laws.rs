//! What the commands promise of the document, said of the document alone: of its
//! clips, tracks, entries and texts before and after.

pub mod arranging;
pub mod batches;
pub mod captions;
pub mod commands;
pub mod compounds;
pub mod cutting;
pub mod dissolving;
pub mod document;
pub mod effects;
pub mod frames;
pub mod history;
pub mod keyframes;
pub mod lanes;
pub mod library;
pub mod likeness;
pub mod linking;
pub mod media;
pub mod moving;
pub mod numbers;
pub mod pasting;
pub mod places;
pub mod placing;
pub mod project;
pub mod properties;
pub mod registering;
pub mod removing;
pub mod scripts;
pub mod settings;
pub mod speech;
pub mod texts;
pub mod tracks;
pub mod voices;
