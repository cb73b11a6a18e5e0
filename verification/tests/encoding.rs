use bn254_prepared_syscall::{PodG1, PodGt, PodPreparedG2};

#[test]
fn pod_sizes() {
    assert_eq!(core::mem::size_of::<PodG1>(), 64);
    assert_eq!(core::mem::size_of::<PodPreparedG2>(), 16_704);
    assert_eq!(core::mem::size_of::<PodGt>(), 384);
}
