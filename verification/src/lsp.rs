pub mod definition;
