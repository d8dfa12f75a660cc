use doublejit_vm::runtime::csr::{CsrAddress, CsrManager, CsrState};

fn fresh_state() -> CsrState {
    CsrState {
        vstart: 0,
        vtype: 0,
        vl: 0,
        vlenb: 256,
        mstatus: 0,
        mtvec: 0,
        mepc: 0,
        mcause: 0,
    }
}

#[test]
fn test_csr_address_conversion() {
    assert_eq!(CsrAddress::from_u16(0xC20), Some(CsrAddress::VL));
    assert_eq!(CsrAddress::from_u16(0xC21), Some(CsrAddress::VType));
    assert_eq!(CsrAddress::from_u16(0x300), Some(CsrAddress::MStatus));
}

#[test]
fn test_csr_read_write() {
    let mut csr_mgr = CsrManager::new(fresh_state());

    csr_mgr.write(CsrAddress::VL, 42);
    assert_eq!(csr_mgr.read(CsrAddress::VL), 42);

    let old_val = csr_mgr.read_write(CsrAddress::VL, 100);
    assert_eq!(old_val, 42);
    assert_eq!(csr_mgr.read(CsrAddress::VL), 100);
}

#[test]
fn test_csr_set_clear() {
    let mut csr_mgr = CsrManager::new(fresh_state());

    csr_mgr.write(CsrAddress::MStatus, 0b1010);
    let old_val = csr_mgr.read_set(CsrAddress::MStatus, 0b0101);
    assert_eq!(old_val, 0b1010);
    assert_eq!(csr_mgr.read(CsrAddress::MStatus), 0b1111);

    let old_val = csr_mgr.read_clear(CsrAddress::MStatus, 0b1100);
    assert_eq!(old_val, 0b1111);
    assert_eq!(csr_mgr.read(CsrAddress::MStatus), 0b0011);
}

#[test]
fn test_vsetvli() {
    let mut csr_mgr = CsrManager::new(fresh_state());

    let vtype = 0b000_010_000;
    let vl = csr_mgr.vsetvli(16, vtype);

    assert_eq!(vl, 16);
    assert_eq!(csr_mgr.read(CsrAddress::VL), 16);
}

#[test]
fn test_read_only_csrs() {
    let mut csr_mgr = CsrManager::new(fresh_state());

    csr_mgr.write(CsrAddress::MVendorId, 0xDEADBEEF);
    assert_eq!(csr_mgr.read(CsrAddress::MVendorId), 0);

    let misa = csr_mgr.read(CsrAddress::MISA);
    assert_ne!(misa, 0);
    assert!(misa & (1 << 8) != 0);
    assert!(misa & (1 << 21) != 0);
}

#[test]
fn vsetvli_caps_the_request_at_the_limit() {
    let mut csr_mgr = CsrManager::new(fresh_state());

    // 2048-bit registers, 32-bit elements: at most 64 elements
    let vl = csr_mgr.vsetvli(1000, 0b000_010_000);
    assert_eq!(vl, 64);
    assert_eq!(csr_mgr.read(CsrAddress::VType), 0b000_010_000);
    assert_eq!(csr_mgr.read(CsrAddress::VStart), 0);
}

#[test]
fn csr_numbering_round_trips() {
    for addr in [0x008u16, 0x00F, 0xC20, 0xC21, 0xC22, 0x300, 0x301, 0x341, 0xC02] {
        let c = CsrAddress::from_u16(addr).expect("a defined CSR number");
        assert_eq!(c.to_u16(), addr);
    }
    assert_eq!(CsrAddress::from_u16(0x123), None);
}
