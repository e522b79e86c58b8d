use artix_installer::cmd::Mode;
use artix_installer::config::Config;
use artix_installer::privilege::check_root;
use artix_installer::steps::{mount, partition::part_path, uefi};

fn layout(swap: bool) -> Config {
    Config {
        efi_partition: "/dev/sda1".to_string(),
        swap_partition: if swap { Some("/dev/sda2".to_string()) } else { None },
        root_partition: "/dev/sda3".to_string(),
    }
}

#[test]
fn partition_paths() {
    assert_eq!(part_path("/dev/sda", 1), "/dev/sda1");
    assert_eq!(part_path("sdb", 3), "/dev/sdb3");
    assert_eq!(part_path("/dev/nvme0n1", 2), "/dev/nvme0n1p2");
    assert_eq!(part_path("/dev/mmcblk0", 1), "/dev/mmcblk0p1");
    assert_eq!(part_path("/dev//dev/vda", 12), "/dev/vda12");
}

#[test]
fn format_commands_in_order() {
    let plan = artix_installer::steps::format::run(&layout(true));
    let lines: Vec<String> = plan.iter().map(|i| i.describe()).collect();
    assert_eq!(lines, vec!["mkfs.fat -F32 /dev/sda1", "mkswap /dev/sda2", "mkfs.ext4 /dev/sda3"]);
    match &plan[0].mode {
        Mode::Silent { progress, done } => {
            assert_eq!(progress, "Formatting /dev/sda1 as FAT32…");
            assert_eq!(done, "/dev/sda1 formatted as FAT32 (EFI/boot).");
        }
        _ => panic!("expected a silent run"),
    }
    assert_eq!(artix_installer::steps::format::run(&layout(false)).len(), 2);
}

#[test]
fn mount_commands_in_order() {
    let plan = mount::run(&layout(true));
    let lines: Vec<String> = plan.iter().map(|i| i.describe()).collect();
    assert_eq!(
        lines,
        vec![
            "mount /dev/sda3 /mnt",
            "swapoff /dev/sda2",
            "swapon /dev/sda2",
            "mkdir -p /mnt/boot",
            "mount /dev/sda1 /mnt/boot",
        ]
    );
    assert!(matches!(plan[1].mode, Mode::BestEffort));
    assert_eq!(mount::run(&layout(false)).len(), 3);
}

#[test]
fn boot_mode() {
    assert!(matches!(uefi::check(true, false), Ok(true)));
    assert!(matches!(uefi::check(false, false), Ok(false)));
    assert!(matches!(uefi::check(false, true), Ok(true)));
}

#[test]
fn root_check_reads_uid_line() {
    let status = "Name:\tinstaller\nUmask:\t0022\nUid:\t0\t0\t0\t0\nGid:\t0\t0\t0\t0\n";
    assert!(check_root(Some(status)).is_ok());
    assert!(check_root(Some("Uid:\t1000\t1000\t1000\t1000\n")).is_err());
    assert!(check_root(Some("Uid:  +00 5\n")).is_ok());
    assert!(check_root(Some("Uid:\n")).is_err());
    assert!(check_root(Some("Name:\tx\n")).is_err());
    assert!(check_root(None).is_err());
}
