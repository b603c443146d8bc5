pub mod errors;
pub mod names;
pub mod settings;
pub mod roots;
pub mod changes;
pub mod record;
pub mod git_status;
