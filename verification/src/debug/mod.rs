pub mod dump;
