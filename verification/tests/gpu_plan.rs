use lle_gui::gpu_plan::{
    buffer_sizes, compute_passes, compute_shader_source, fft_runtime_config, floor_pow2, ComputePass, ComputeUniforms,
    Dispatch, GpuLimits,
};
use lle_gui::kinds::Component;

#[test]
fn floor_pow2_values() {
    assert_eq!(floor_pow2(0), 1);
    assert_eq!(floor_pow2(1), 1);
    assert_eq!(floor_pow2(2), 2);
    assert_eq!(floor_pow2(1000), 512);
    assert_eq!(floor_pow2(u32::MAX), 1 << 31);
}

#[test]
fn runtime_config_for_common_limits() {
    let limits = GpuLimits {
        max_compute_invocations_per_workgroup: 256,
        max_compute_workgroup_size_x: 256,
        max_compute_workgroup_size_y: 256,
        max_compute_workgroup_storage_size: 16384,
    };
    let cfg = fft_runtime_config(limits);
    assert_eq!((cfg.wg_x, cfg.wg_bins, cfg.shared_max_n), (64, 4, 512));
    let tiny = GpuLimits {
        max_compute_invocations_per_workgroup: 0,
        max_compute_workgroup_size_x: 0,
        max_compute_workgroup_size_y: 0,
        max_compute_workgroup_storage_size: 0,
    };
    let cfg = fft_runtime_config(tiny);
    assert_eq!((cfg.wg_x, cfg.wg_bins, cfg.shared_max_n), (1, 1, 2));
    let narrow = GpuLimits {
        max_compute_invocations_per_workgroup: 128,
        max_compute_workgroup_size_x: 1024,
        max_compute_workgroup_size_y: 2,
        max_compute_workgroup_storage_size: 3000,
    };
    let cfg = fft_runtime_config(narrow);
    assert_eq!((cfg.wg_x, cfg.wg_bins, cfg.shared_max_n), (64, 2, 128));
}

#[test]
fn raw_and_rf_passes() {
    let mut u = ComputeUniforms::new(20, 9);
    assert_eq!(
        compute_passes(&u, 4),
        vec![Dispatch { pass: ComputePass::Raw, x: 3, y: 2, z: 1 }]
    );
    u.set_raw_mode(Component::Real, true, true);
    assert_eq!(u.raw_component, 0);
    assert_eq!(compute_passes(&u, 4)[0], Dispatch { pass: ComputePass::RawReduce, x: 1, y: 1, z: 1 });
    u.set_rf_mode(false, true);
    assert_eq!(
        compute_passes(&u, 4),
        vec![
            Dispatch { pass: ComputePass::RfTranspose, x: 3, y: 2, z: 1 },
            Dispatch { pass: ComputePass::RfStage1, x: 5, y: 1, z: 1 },
            Dispatch { pass: ComputePass::RfReduceGlobal, x: 1, y: 1, z: 1 },
            Dispatch { pass: ComputePass::RfStage2, x: 3, y: 2, z: 1 },
        ]
    );
    u.set_rf_mode(true, false);
    assert_eq!(compute_passes(&u, 0).len(), 3);
    assert_eq!(compute_passes(&u, 0)[1].x, 20);
}

#[test]
fn resize_ignores_degenerate_sizes() {
    let mut u = ComputeUniforms::new(8, 8);
    assert_eq!(u.set_size(1, 100), None);
    assert_eq!((u.width, u.height), (8, 8));
    assert_eq!(u.set_size(16, 4), Some(64));
    assert_eq!(u.max_log(), Some(4));
    let z = ComputeUniforms::new(4, 0);
    assert_eq!(z.max_log(), None);
}

#[test]
fn buffer_byte_sizes() {
    let b = buffer_sizes(16, 4);
    assert_eq!(b.raw_data, 512);
    assert_eq!(b.rf_input, 512);
    assert_eq!(b.rf_fft_state, 512);
    assert_eq!(b.rf_value, 256);
    assert_eq!(b.rf_minmax, 128);
    assert_eq!(b.cache, 256);
}

#[test]
fn shader_source_joins_parts() {
    assert_eq!(compute_shader_source("a", "bc", "d"), "a\nbc\nd");
}
