pub mod wasm_builder;
