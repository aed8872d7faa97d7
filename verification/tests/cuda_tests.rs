use torch_build::arch::CudaArch;
use torch_build::cuda::{host_arches, max_cuda_arch};
use torch_build::errors::BuildError;

#[test]
fn host_arches_clamp_dedup_sort_and_mark() {
    // Two devices at the ceiling (one above it, clamped down), one below;
    // the duplicate disappears, the order ascends, and exactly the greatest
    // entry embeds PTX.
    let devices = vec![(8, 6), (9, 0), (8, 6), (7, 5)];
    let arches = host_arches(&devices, (8, 6)).unwrap();
    assert_eq!(
        arches,
        vec![
            CudaArch { major: 7, minor: 5, with_ptx: false },
            CudaArch { major: 8, minor: 6, with_ptx: true },
        ]
    );
}

#[test]
fn host_arches_never_exceed_the_ceiling() {
    let devices = vec![(9, 0), (8, 9), (10, 2)];
    let arches = host_arches(&devices, (8, 6)).unwrap();
    assert_eq!(arches, vec![CudaArch { major: 8, minor: 6, with_ptx: true }]);
}

#[test]
fn host_arches_mark_only_the_greatest() {
    let devices = vec![(6, 1), (7, 0), (7, 5)];
    let arches = host_arches(&devices, (8, 6)).unwrap();
    assert_eq!(arches.len(), 3);
    assert!(!arches[0].with_ptx);
    assert!(!arches[1].with_ptx);
    assert!(arches[2].with_ptx);
    assert_eq!((arches[2].major, arches[2].minor), (7, 5));
}

#[test]
fn host_arches_without_a_device_fail() {
    assert_eq!(host_arches(&Vec::new(), (8, 6)).unwrap_err(), BuildError::NoDeviceFound);
}

#[test]
fn ceiling_is_the_greatest_configured_architecture() {
    let list = vec![
        CudaArch { major: 7, minor: 5, with_ptx: false },
        CudaArch { major: 8, minor: 6, with_ptx: false },
        CudaArch { major: 8, minor: 0, with_ptx: false },
    ];
    assert_eq!(max_cuda_arch(&list), Some((8, 6)));
    assert_eq!(max_cuda_arch(&Vec::new()), None);
}
