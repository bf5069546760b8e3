pub mod trajectory;
