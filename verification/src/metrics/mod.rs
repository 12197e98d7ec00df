pub mod printer;
