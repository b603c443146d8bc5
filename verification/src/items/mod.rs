pub mod updates;
pub mod relationships;
pub mod lanes;
pub mod initial_labels;
