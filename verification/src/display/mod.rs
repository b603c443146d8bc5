pub mod events;
pub mod claims;
pub mod labels;
pub mod board;
pub mod crud;
pub mod forms;
pub mod metadata;
pub mod links;
pub mod runs;
pub mod history;
