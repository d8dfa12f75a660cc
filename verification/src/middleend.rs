pub mod address_map;
pub mod emit_wasm;
pub mod machine;
pub mod wasm_module;
pub mod wat;

pub use address_map::AddressMap;
pub use address_map::MemorySegment;
pub use emit_wasm::WasmEmitter;
pub use wasm_module::RiscVState;
pub use crate::runtime::csr::CsrState;
