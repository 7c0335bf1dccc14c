use nexus_vmm::mapper::{plan_secret_mapping, MapError, MappingPlan};

#[test]
fn empty_file_is_refused() {
    assert_eq!(plan_secret_mapping(0), Err(MapError::EmptyFile));
    assert_eq!(MapError::EmptyFile.message(), "Cannot mmap an empty file");
}

#[test]
fn whole_file_mapped_read_only_and_shared() {
    let plan = plan_secret_mapping(b"db-password-123".len() as u64).unwrap();
    assert_eq!(plan, MappingPlan { len: 15, offset: 0, read_only: true, shared: true });
}

#[test]
fn one_byte_file_is_mapped() {
    let plan = plan_secret_mapping(1).unwrap();
    assert_eq!(plan.len, 1);
    assert!(plan.read_only && plan.shared);
}

#[test]
fn large_file_length_is_kept() {
    let plan = plan_secret_mapping(1 << 32).unwrap();
    assert_eq!(plan.len, 1usize << 32);
}
