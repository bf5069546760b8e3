pub mod library;
