pub mod flashes;
pub mod form_validator;
pub mod pagination;
pub mod state;
