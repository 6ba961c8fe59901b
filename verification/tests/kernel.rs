//! Matching the kernel's state against the loader's names.
use scx_control::kernel::KernelState;

fn enabled_with(ops: Option<&str>) -> KernelState {
    KernelState {
        state: "enabled".to_owned(),
        ops: ops.map(str::to_owned),
    }
}

#[test]
fn matches_stripped_ops_name() {
    assert!(enabled_with(Some("lavd")).matches("scx_lavd"));
}

#[test]
fn matches_full_ops_name() {
    assert!(enabled_with(Some("scx_lavd")).matches("scx_lavd"));
}

#[test]
fn matches_versioned_ops_suffix() {
    // bpfland registers e.g. "bpfland_1.1.2_x86_64_unknown_linux_gnu".
    assert!(
        enabled_with(Some("bpfland_1.1.2_x86_64_unknown_linux_gnu")).matches("scx_bpfland")
    );
}

#[test]
fn matches_versioned_ops_suffix_with_prefix() {
    // flow keeps the scx_ prefix in its versioned ops name.
    assert!(enabled_with(Some("scx_flow_3.1.1_x86_64_unknown_linux_gnu")).matches("scx_flow"));
}

#[test]
fn rejects_full_name_prefix_without_separator() {
    assert!(!enabled_with(Some("scx_flowmatic_1.0")).matches("scx_flow"));
}

#[test]
fn rejects_a_different_scheduler() {
    assert!(!enabled_with(Some("flow_1.0")).matches("scx_flash"));
}

#[test]
fn rejects_prefix_without_separator() {
    assert!(!enabled_with(Some("bpflandish")).matches("scx_bpfland"));
}

#[test]
fn no_ops_never_matches() {
    assert!(!enabled_with(None).matches("scx_lavd"));
}
