pub mod phases;
