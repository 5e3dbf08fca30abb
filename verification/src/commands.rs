//! The editing commands, by subject.

pub mod captions;
pub mod compound;
pub mod dissolve;
pub mod effects;
pub mod keyframes;
pub mod library;
pub mod moving;
pub mod nested;
pub mod new_track;
pub mod paste;
pub mod placement;
pub mod properties;
pub mod registration;
pub mod removal;
pub mod ripple;
pub mod script;
pub mod settings;
pub mod splitting;
pub mod tracks;
pub mod transition;
pub mod voice;
