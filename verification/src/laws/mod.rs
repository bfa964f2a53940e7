//! What holds of the library as a whole: each law relates what several functions return, or what
//! one of them returns for every input.

pub mod answers;
pub mod calls;
pub mod indexing;
pub mod protocol;
pub mod requests;
pub mod searching;
pub mod snapshots;
pub mod texts;
pub mod uris;
pub mod values;
pub mod wire;
pub mod words;
