use mmtk_dummyvm::active_plan::VMActivePlan;
use mmtk_dummyvm::object_model::{object_from_raw_address, VMObjectModel, OBJECT_REF_OFFSET};
use mmtk_dummyvm::word::word_size;
use mmtk_dummyvm::DummyVM;

#[test]
fn object_start_is_offset_below_reference() {
    assert_eq!(OBJECT_REF_OFFSET, 4);
    assert_eq!(VMObjectModel::ref_to_object_start(0x1004), 0x1000);
    assert_eq!(VMObjectModel::ref_to_object_start(4), 0);
}

#[test]
fn header_is_at_reference() {
    assert_eq!(VMObjectModel::ref_to_header(0x1004), 0x1004);
}

#[test]
fn address_is_object_start() {
    assert_eq!(VMObjectModel::ref_to_address(0x2008), 0x2004);
}

#[test]
fn address_to_ref_adds_offset() {
    assert_eq!(VMObjectModel::address_to_ref(0x2004), 0x2008);
}

#[test]
fn address_to_ref_inverts_ref_to_address() {
    for object in [0x8usize, 0x1004, 0x7fff_fff8] {
        let addr = VMObjectModel::ref_to_address(object);
        assert_eq!(VMObjectModel::address_to_ref(addr), object);
    }
    for addr in [0x10usize, 0x1000] {
        let object = VMObjectModel::address_to_ref(addr);
        assert_eq!(VMObjectModel::ref_to_address(object), addr);
    }
}

#[test]
fn copy_alignment_is_one_word() {
    assert_eq!(VMObjectModel::get_align_when_copied(0x1000), std::mem::size_of::<usize>());
    assert_eq!(VMObjectModel::get_align_offset_when_copied(0x1000), 0);
    assert_eq!(word_size(), std::mem::size_of::<usize>());
}

#[test]
fn raw_address_zero_is_no_object() {
    assert_eq!(object_from_raw_address(0), None);
    assert_eq!(object_from_raw_address(0x18), Some(0x18));
}

#[test]
fn every_thread_is_a_mutator() {
    assert!(VMActivePlan::is_mutator(0));
    assert!(VMActivePlan::is_mutator(0xdead));
}

#[test]
fn binding_marker_has_default() {
    let _vm: DummyVM = Default::default();
}
