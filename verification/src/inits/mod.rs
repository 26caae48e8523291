pub mod serverstate;
