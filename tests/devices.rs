use artix_installer::lsblk::{
    disks_query, list_disks, list_partitions, mock_disks, mock_partitions, parse_pairs,
    partitions_query, Disk, Partition,
};

fn lookup<'a>(pairs: &'a [(String, String)], key: &str) -> Option<&'a str> {
    pairs.iter().rev().find(|(k, _)| k == key).map(|(_, v)| v.as_str())
}

#[test]
fn pairs_of_a_line() {
    let p = parse_pairs(r#"NAME="sda1" SIZE="512M" TYPE="part" PARTTYPENAME="EFI System""#);
    assert_eq!(p.len(), 4);
    assert_eq!(lookup(&p, "NAME"), Some("sda1"));
    assert_eq!(lookup(&p, "PARTTYPENAME"), Some("EFI System"));
}

#[test]
fn pairs_stop_at_malformed_input() {
    let p = parse_pairs(r#"NAME="sda" SIZE=20G TYPE="disk""#);
    assert_eq!(p, vec![("NAME".to_string(), "sda".to_string())]);
    let p = parse_pairs(r#"NAME="sda" MODEL="unterminated"#);
    assert_eq!(p.len(), 1);
    assert!(parse_pairs("").is_empty());
    let p = parse_pairs(r#"  ="x" A="1" A="2"  "#);
    assert_eq!(p.len(), 2);
    assert_eq!(lookup(&p, "A"), Some("2"));
}

#[test]
fn disks_from_lsblk_output() {
    let out = "NAME=\"sda\" SIZE=\"20G\" TYPE=\"disk\" MODEL=\"QEMU HARDDISK\"\n\
               NAME=\"sr0\" SIZE=\"1G\" TYPE=\"rom\" MODEL=\"DVD\"\n\
               NAME=\"nvme0n1\" SIZE=\"931.5G\" TYPE=\"disk\" MODEL=\"\"\n";
    let d = list_disks(false, Some(out));
    assert_eq!(d.len(), 2);
    assert_eq!(d[0].path, "/dev/sda");
    assert_eq!(d[0].model, "QEMU HARDDISK");
    assert_eq!(d[1].path, "/dev/nvme0n1");
    assert_eq!(d[1].size, "931.5G");
    assert_eq!(d[1].model, "—");
    assert!(list_disks(false, None).is_empty());
}

#[test]
fn partitions_from_lsblk_output() {
    let out = "NAME=\"sda\" SIZE=\"20G\" TYPE=\"disk\" PARTTYPENAME=\"\"\r\n\
               NAME=\"sda1\" SIZE=\"512M\" TYPE=\"part\" PARTTYPENAME=\"EFI System\"\r\n\
               NAME=\"sda2\" SIZE=\"2G\" TYPE=\"part\"";
    let p = list_partitions("/dev/sda", false, Some(out));
    assert_eq!(p.len(), 2);
    assert_eq!(p[0].path, "/dev/sda1");
    assert_eq!(p[0].part_type, "EFI System");
    assert_eq!(p[1].part_type, "");
}

#[test]
fn dry_run_lists_mock_devices() {
    let d = list_disks(true, Some("NAME=\"vda\" TYPE=\"disk\""));
    assert_eq!(d.len(), 2);
    assert_eq!(d[1].path, "/dev/sdb");
    assert_eq!(mock_disks()[0].model, "QEMU HARDDISK");
    let p = list_partitions("/dev/vda", true, None);
    let paths: Vec<&str> = p.iter().map(|x| x.path.as_str()).collect();
    assert_eq!(paths, vec!["/dev/vda1", "/dev/vda2", "/dev/vda3"]);
    assert_eq!(mock_partitions("/dev//dev/sdb")[2].size, "17.5G");
    assert_eq!(mock_partitions("/dev/dev/sdb")[0].path, "/dev/dev/sdb1");
}

#[test]
fn display_labels_are_padded() {
    let d = Disk { path: "/dev/sda".to_string(), size: "20G".to_string(), model: "QEMU".to_string() };
    assert_eq!(d.display(), format!("{:<12}  {:>8}   {}", "/dev/sda", "20G", "QEMU"));
    assert_eq!(d.display(), "/dev/sda           20G   QEMU");
    let p = Partition { path: "/dev/nvme0n1p12".to_string(), size: "1.8T".to_string(), part_type: String::new() };
    assert_eq!(p.display(), "/dev/nvme0n1p12      1.8T   (no type)");
}

#[test]
fn lsblk_queries() {
    let q = disks_query();
    assert_eq!(q.describe(), "lsblk --pairs --output NAME,SIZE,TYPE,MODEL --nodeps");
    let q = partitions_query("/dev/sdb");
    assert_eq!(q.describe(), "lsblk --pairs --output NAME,SIZE,TYPE,PARTTYPENAME /dev/sdb");
}
