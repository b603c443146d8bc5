pub mod model;
pub mod draft;
pub mod laws;
pub mod convert;
pub mod editor;
pub mod summary;
pub mod matching;
pub mod parse;
