use pifrost::cli::{
    bootstrapped_line, consent_prompt, flash_summary_lines, flashed_line, summary_lines,
    ArgsError, BootstrapArgs, DriveReply, DriveState, FlashArgs, Refusal,
};

fn args(role: &str, server_ip: Option<&str>) -> BootstrapArgs {
    BootstrapArgs {
        drive: None,
        name: "kube-node".to_string(),
        role: role.to_string(),
        token: None,
        server_ip: server_ip.map(|s| s.to_string()),
        ip: None,
        gateway: None,
        dns: None,
        kube_uuid: "u".to_string(),
        yes: false,
    }
}

fn disks() -> Vec<String> {
    vec!["/dev/sda  (1T, disk, X)".to_string(), "/dev/sdb".to_string()]
}

#[test]
fn agents_need_a_server() {
    assert_eq!(args("server", None).check(), Ok(()));
    assert_eq!(args("server", Some("a")).check(), Ok(()));
    assert_eq!(args("agent", Some("a")).check(), Ok(()));
    assert_eq!(args("agent", None).check(), Err(ArgsError::NoServer));
    assert_eq!(args("boss", None).check(), Err(ArgsError::UnknownRole));
    assert_eq!(ArgsError::NoServer.message(), "--server-ip is required for agents");
    assert_eq!(ArgsError::UnknownRole.message(), "The role must be server or agent");
}

#[test]
fn a_node_is_summed_up() {
    assert_eq!(
        summary_lines(&args("server", None), "/dev/sdb", "t"),
        vec![
            "    drive:      /dev/sdb",
            "    name:       kube-node",
            "    role:       server",
            "    token:      t",
            "    kube-uuid:  u",
        ]
    );
    let mut full = args("agent", Some("10.0.0.1"));
    full.ip = Some("10.0.0.2/24".to_string());
    full.gateway = Some("10.0.0.254".to_string());
    full.dns = Some("1.1.1.1".to_string());
    let lines = summary_lines(&full, "/dev/sdb", "t");
    assert_eq!(
        lines[4..],
        [
            "    server-ip:  10.0.0.1",
            "    ip:         10.0.0.2/24",
            "    gateway:    10.0.0.254",
            "    dns:        1.1.1.1",
            "    kube-uuid:  u",
        ]
    );
}

#[test]
fn options_are_copied() {
    let a = args("agent", Some("10.0.0.1"));
    assert_eq!(format!("{:?}", a.clone()), format!("{:?}", a));
    let f = FlashArgs { drive: Some("/dev/sdb".to_string()), image: "i".to_string(), yes: true };
    assert_eq!(format!("{:?}", f.clone()), format!("{:?}", f));
}

#[test]
fn what_is_said_of_drives() {
    let flash = FlashArgs { drive: None, image: "a.img".to_string(), yes: false };
    assert_eq!(
        flash_summary_lines(&flash, "/dev/sdb"),
        vec!["    drive: /dev/sdb", "    image: a.img"]
    );
    assert_eq!(
        consent_prompt("/dev/sdb"),
        "WARNING: This will DESTROY ALL DATA on /dev/sdb. Are you absolutely sure?"
    );
    assert_eq!(bootstrapped_line("/dev/sdb"), "✔ Drive /dev/sdb bootstrapped successfully!");
    assert_eq!(flashed_line("/dev/sdb"), "✔ Drive /dev/sdb flashed successfully!");
}

#[test]
fn a_named_drive_needs_consent() {
    let s = DriveState::start(Some("/dev/sdc".to_string()), false);
    assert!(matches!(&s, DriveState::Ask(d) if d == "/dev/sdc"));
    let s = s.advance(DriveReply::Chosen(0), false);
    assert!(matches!(&s, DriveState::Ask(_)));
    let agreed = s.advance(DriveReply::Consent(true), false);
    assert!(matches!(&agreed, DriveState::Ready(d) if d == "/dev/sdc"));
    let still = agreed.advance(DriveReply::Consent(false), false);
    assert!(matches!(still, DriveState::Ready(_)));
}

#[test]
fn a_refusal_is_final() {
    let s = DriveState::start(Some("/dev/sdc".to_string()), false)
        .advance(DriveReply::Consent(false), false)
        .advance(DriveReply::Consent(true), false);
    assert!(matches!(s, DriveState::Refused(Refusal::Aborted)));
    assert_eq!(Refusal::Aborted.message(), "Aborted by user.");
}

#[test]
fn consent_can_be_given_beforehand() {
    let s = DriveState::start(Some("/dev/sdc".to_string()), true);
    assert!(matches!(s, DriveState::Ready(_)));
    let chosen = DriveState::start(None, true)
        .advance(DriveReply::Disks(disks()), true)
        .advance(DriveReply::Chosen(1), true);
    assert!(matches!(&chosen, DriveState::Ready(d) if d == "/dev/sdb"));
}

#[test]
fn a_disk_is_chosen() {
    let s = DriveState::start(None, false);
    assert!(matches!(s, DriveState::List));
    let s = s.advance(DriveReply::Disks(disks()), false);
    assert!(matches!(&s, DriveState::Choose(d) if d.len() == 2));
    let s = s.advance(DriveReply::Chosen(2), false);
    assert!(matches!(&s, DriveState::Choose(_)));
    let s = s.advance(DriveReply::Chosen(0), false);
    assert!(matches!(&s, DriveState::Ask(d) if d == "/dev/sda"));
}

#[test]
fn choosing_a_disk_is_naming_it() {
    let lines = [
        ("/dev/sdb  (7.5G, disk, X)", "/dev/sdb"),
        ("\\\\.\\PhysicalDrive2  (29.8 GiB - SanDisk Ultra)", "\\\\.\\PhysicalDrive2"),
        ("/dev/nvme0n1", "/dev/nvme0n1"),
    ];
    for (line, device) in lines {
        for yes in [false, true] {
            let chosen = DriveState::start(None, yes)
                .advance(DriveReply::Disks(vec![line.to_string()]), yes)
                .advance(DriveReply::Chosen(0), yes);
            let named = DriveState::start(Some(device.to_string()), yes);
            assert_eq!(format!("{:?}", chosen), format!("{:?}", named));
        }
    }
}

#[test]
fn there_may_be_no_disk() {
    let s = DriveState::start(None, true).advance(DriveReply::Disks(Vec::new()), true);
    assert!(matches!(s, DriveState::Refused(Refusal::NoDisks)));
    assert_eq!(
        Refusal::NoDisks.message(),
        "No block devices found. Insert a drive and retry."
    );
}
