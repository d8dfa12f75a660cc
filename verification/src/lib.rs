pub mod frontend;
pub mod backend;
pub mod codegen;
pub mod middleend;
pub mod runtime;
pub mod text;
pub mod tools;
