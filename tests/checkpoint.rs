use artix_installer::config::{Config, KernelVariant};
use artix_installer::session::Session;

fn sample() -> Session {
    Session {
        last_step: 7,
        disk: Some("/dev/sda".to_string()),
        efi_partition: Some("/dev/sda1".to_string()),
        swap_partition: Some("/dev/sda2".to_string()),
        root_partition: Some("/dev/sda3".to_string()),
        kernel: Some(KernelVariant::Zen),
    }
}

#[test]
fn save_writes_key_value_lines() {
    let text = sample().save();
    assert_eq!(
        text,
        "step=7\ndisk=/dev/sda\nefi=/dev/sda1\nswap=/dev/sda2\nroot=/dev/sda3\nkernel=zen\n"
    );
}

#[test]
fn save_omits_absent_facts() {
    let s = Session { last_step: 2, disk: Some("/dev/vda".to_string()), ..Session::default() };
    assert_eq!(s.save(), "step=2\ndisk=/dev/vda\n");
}

#[test]
fn round_trip_keeps_progress_and_facts() {
    let s = sample();
    let back = Session::load(Some(&s.save())).expect("record");
    assert_eq!(back.last_step, 7);
    assert_eq!(back.disk.as_deref(), Some("/dev/sda"));
    assert_eq!(back.efi_partition.as_deref(), Some("/dev/sda1"));
    assert_eq!(back.swap_partition.as_deref(), Some("/dev/sda2"));
    assert_eq!(back.root_partition.as_deref(), Some("/dev/sda3"));
    assert!(matches!(back.kernel, Some(KernelVariant::Zen)));
}

#[test]
fn round_trip_of_every_kernel_variant() {
    for k in [KernelVariant::Stable, KernelVariant::Lts, KernelVariant::Zen] {
        let s = Session { last_step: 255, kernel: Some(k), ..Session::default() };
        let back = Session::load(Some(&s.save())).expect("record");
        assert_eq!(back.last_step, 255);
        assert_eq!(back.kernel, Some(k));
    }
}

#[test]
fn fact_order_does_not_matter() {
    let a = Session::load(Some("root=/dev/b3\nstep=3\nefi=/dev/b1\n")).expect("record");
    let b = Session::load(Some("efi=/dev/b1\nroot=/dev/b3\nstep=3")).expect("record");
    assert_eq!(a.last_step, b.last_step);
    assert_eq!(a.efi_partition, b.efi_partition);
    assert_eq!(a.root_partition, b.root_partition);
}

#[test]
fn absent_and_zero_progress_are_both_no_checkpoint() {
    assert!(Session::load(None).is_none());
    assert!(Session::load(Some("step=0")).is_none());
    assert!(Session::load(Some("step=0\n")).is_none());
    assert!(Session::load(Some("")).is_none());
    assert!(Session::load(Some("disk=/dev/sda\n")).is_none());
}

#[test]
fn unreadable_progress_counts_as_zero() {
    assert!(Session::load(Some("step=abc\ndisk=/dev/sda\n")).is_none());
    assert!(Session::load(Some("step=256\n")).is_none());
    assert!(Session::load(Some("step=-1\n")).is_none());
    assert_eq!(Session::load(Some("step=+4\n")).map(|s| s.last_step), Some(4));
    assert_eq!(Session::load(Some("step=007\n")).map(|s| s.last_step), Some(7));
}

#[test]
fn load_trims_and_ignores_unknown_keys() {
    let s = Session::load(Some("  step = 5 \r\nhostname=box\ndisk = /dev/nvme0n1 \nnoequals\n"))
        .expect("record");
    assert_eq!(s.last_step, 5);
    assert_eq!(s.disk.as_deref(), Some("/dev/nvme0n1"));
    assert!(s.efi_partition.is_none());
}

#[test]
fn value_keeps_later_equals_signs_and_later_lines_win() {
    let s = Session::load(Some("step=1\ndisk=a=b\ndisk=/dev/sdc\nroot=x=y\n")).expect("record");
    assert_eq!(s.disk.as_deref(), Some("/dev/sdc"));
    assert_eq!(s.root_partition.as_deref(), Some("x=y"));
}

#[test]
fn unknown_kernel_token_reads_as_stable() {
    let s = Session::load(Some("step=7\nkernel=hardened\n")).expect("record");
    assert_eq!(s.kernel, Some(KernelVariant::Stable));
}

#[test]
fn kernel_tokens_and_names() {
    assert_eq!(KernelVariant::Lts.as_str(), "lts");
    assert_eq!(KernelVariant::Stable.as_str(), "stable");
    assert_eq!(KernelVariant::from_str("zen"), KernelVariant::Zen);
    assert_eq!(KernelVariant::from_str("lts"), KernelVariant::Lts);
    assert_eq!(KernelVariant::from_str(""), KernelVariant::Stable);
    assert_eq!(KernelVariant::Lts.package_name(), "linux-lts");
    assert_eq!(KernelVariant::Stable.package_name(), "linux");
    assert_eq!(KernelVariant::Zen.display_name(), "Linux Zen (performance-optimized)");
}

#[test]
fn to_config_reads_layout() {
    let c: Config = sample().to_config();
    assert_eq!(c.efi_partition, "/dev/sda1");
    assert_eq!(c.swap_partition.as_deref(), Some("/dev/sda2"));
    assert_eq!(c.root_partition, "/dev/sda3");
    let empty = Session { last_step: 1, ..Session::default() }.to_config();
    assert_eq!(empty.efi_partition, "");
    assert!(empty.swap_partition.is_none());
    assert_eq!(empty.root_partition, "");
}
