pub mod text;
pub mod digits;
pub mod keys;
pub mod keymap;
pub mod model;
pub mod validation;
pub mod engine;
pub mod pnp;
pub mod devices;
pub mod activation;
pub mod capture;
pub mod guard;
pub mod hook;
pub mod json;
pub mod repository;
pub mod results;
pub mod startup;
pub mod service;
pub mod shell;
pub mod laws;
pub mod key_laws;
