pub mod manager;
pub mod handbook;
