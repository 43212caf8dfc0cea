use ocl::kernel::{Envoy, Kernel, KernelArg, WorkSize};

#[test]
fn new_kernel_is_empty() {
    let k = Kernel::new("conv".to_string(), WorkSize::TwoDims(8, 8));
    assert_eq!(k.name, "conv");
    assert_eq!(k.arg_index, 0);
    assert_eq!(k.args, vec![]);
    assert_eq!(k.named_args.len(), 0);
    assert_eq!(k.arg_count(), 0);
    assert_eq!(k.gwo, WorkSize::Unspecified);
    assert_eq!(k.gws, WorkSize::TwoDims(8, 8));
    assert_eq!(k.lws, WorkSize::Unspecified);
}

#[test]
fn dim_count_spans_the_variants() {
    assert_eq!(WorkSize::Unspecified.dim_count(), 0);
    assert_eq!(WorkSize::OneDim(64).dim_count(), 1);
    assert_eq!(WorkSize::TwoDims(8, 8).dim_count(), 2);
    assert_eq!(WorkSize::ThreeDims(4, 4, 4).dim_count(), 3);
}

#[test]
fn work_size_builders_record_geometry() {
    let k = Kernel::new("scale".to_string(), WorkSize::TwoDims(16, 16))
        .gwo(WorkSize::TwoDims(2, 2))
        .lws(WorkSize::TwoDims(4, 4));
    assert_eq!(k.gwo, WorkSize::TwoDims(2, 2));
    assert_eq!(k.lws, WorkSize::TwoDims(4, 4));
    assert_eq!(k.gws, WorkSize::TwoDims(16, 16));
}

#[test]
fn arguments_are_recorded_in_index_order() {
    let env = Envoy::new(vec![0u32; 10]);
    let k = Kernel::new("sum".to_string(), WorkSize::OneDim(10))
        .arg_env(&env)
        .arg_scl(7u32)
        .arg_loc::<u32>(64);
    assert_eq!(k.arg_index, 3);
    assert_eq!(
        k.args,
        vec![
            KernelArg::Buffer { present: true },
            KernelArg::Scalar { present: true },
            KernelArg::Local { len: 64 },
        ]
    );
    // The separate argument-count field is not advanced by binding.
    assert_eq!(k.arg_count(), 0);
}

#[test]
fn named_scalar_can_be_deferred_and_reset() {
    let mut k = Kernel::new("iter".to_string(), WorkSize::OneDim(32))
        .arg_scl(1u32)
        .arg_scl_named::<u32>("step".to_string(), None);
    assert_eq!(
        k.args,
        vec![
            KernelArg::Scalar { present: true },
            KernelArg::Scalar { present: false },
        ]
    );
    assert_eq!(k.named_args, vec![("step".to_string(), 1)]);
    k.set_arg_scl_named("step".to_string(), 9u32);
    assert_eq!(
        k.args,
        vec![
            KernelArg::Scalar { present: true },
            KernelArg::Scalar { present: true },
        ]
    );
}

#[test]
fn named_buffer_can_be_deferred_and_reset() {
    let env = Envoy::new(vec![0i32; 4]);
    let mut k = Kernel::new("blur".to_string(), WorkSize::OneDim(4))
        .arg_env_named::<i32>("src".to_string(), None);
    assert_eq!(k.args, vec![KernelArg::Buffer { present: false }]);
    assert_eq!(k.named_args, vec![("src".to_string(), 0)]);
    k.set_arg_env_named("src".to_string(), &env);
    assert_eq!(k.args, vec![KernelArg::Buffer { present: true }]);
}

#[test]
fn rebinding_a_name_overwrites_the_table_entry() {
    let k = Kernel::new("mix".to_string(), WorkSize::OneDim(8))
        .arg_scl_named("alpha".to_string(), Some(1u32))
        .arg_scl_named("alpha".to_string(), Some(2u32));
    // Two arguments were bound, but the name points at the second one.
    assert_eq!(k.arg_index, 2);
    assert_eq!(k.named_args, vec![("alpha".to_string(), 1)]);
}

#[test]
fn distinct_names_keep_their_indices() {
    let env = Envoy::new(vec![0u8; 2]);
    let mut k = Kernel::new("mix".to_string(), WorkSize::OneDim(8))
        .arg_env_named("input".to_string(), Some(&env))
        .arg_scl_named("beta".to_string(), Some(3u8));
    assert_eq!(
        k.named_args,
        vec![("input".to_string(), 0), ("beta".to_string(), 1)]
    );
    k.set_arg_scl_named("beta".to_string(), 5u8);
    assert_eq!(
        k.args,
        vec![
            KernelArg::Buffer { present: true },
            KernelArg::Scalar { present: true },
        ]
    );
}

#[test]
fn complete_worksize_pads_with_ones() {
    assert_eq!(WorkSize::Unspecified.complete_worksize(), (1, 1, 1));
    assert_eq!(WorkSize::OneDim(64).complete_worksize(), (64, 1, 1));
    assert_eq!(WorkSize::TwoDims(8, 2).complete_worksize(), (8, 2, 1));
    assert_eq!(WorkSize::ThreeDims(4, 5, 6).complete_worksize(), (4, 5, 6));
}

#[test]
fn envoy_reports_its_length() {
    let env = Envoy::new(vec![1u64, 2, 3, 4, 5]);
    assert_eq!(env.len(), 5);
    assert_eq!(env.data, vec![1, 2, 3, 4, 5]);
}
