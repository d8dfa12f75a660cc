pub mod csr;
pub mod syscall;
