use pixi_core::cli::{use_color_output, ColorOutput, LockFileUsage, LockFileUsageArgs};

#[test]
fn test_lock_file_usage_from_flags() {
    let update = LockFileUsage::from(LockFileUsageArgs { frozen: false, locked: false });
    assert_eq!(update, LockFileUsage::Update);

    let locked = LockFileUsage::from(LockFileUsageArgs { frozen: false, locked: true });
    assert_eq!(locked, LockFileUsage::Locked);

    let frozen = LockFileUsage::from(LockFileUsageArgs { frozen: true, locked: false });
    assert_eq!(frozen, LockFileUsage::Frozen);
}

#[test]
fn test_lock_file_usage_default_args() {
    let args = LockFileUsageArgs::default();
    assert!(!args.frozen);
    assert!(!args.locked);
    assert_eq!(LockFileUsage::from(args), LockFileUsage::Update);
}

#[test]
fn test_use_color_output() {
    assert!(use_color_output(ColorOutput::Always, true, false));
    assert!(!use_color_output(ColorOutput::Never, false, true));
    assert!(use_color_output(ColorOutput::Auto, false, true));
    assert!(!use_color_output(ColorOutput::Auto, true, true));
    assert!(!use_color_output(ColorOutput::Auto, false, false));
    assert_eq!(ColorOutput::default(), ColorOutput::Auto);
}
