use pifrost::usb::{
    attach_args, attach_line, attachable_busid, install_args, list_args, refresh_args,
    usb_storage_to_attach, UsbReply, UsbState, ATTACH_PAUSE, REFRESH_PATH,
};

#[test]
fn storage_that_is_not_attached() {
    let busid = |line: &str, lower: &str| attachable_busid(line, lower);
    assert_eq!(
        busid("1-4 USB Mass Storage Device Not attached", "1-4 usb mass storage device not attached")
            .as_deref(),
        Some("1-4")
    );
    assert_eq!(busid("1-4 Mass Storage Attached", "1-4 mass storage attached"), None);
    assert_eq!(busid("1-5 Keyboard Not attached", "1-5 keyboard not attached"), None);
    assert_eq!(busid("2-1 Card Reader", "2-1 card reader").as_deref(), Some("2-1"));
    assert_eq!(busid("2-2 Flash", "2-2 flash").as_deref(), Some("2-2"));
    assert_eq!(busid("2-3 USB DISK", "2-3 usb disk").as_deref(), Some("2-3"));
    assert_eq!(busid("2-4 SD", "2-4 sd").as_deref(), Some("2-4"));
    assert_eq!(busid("BUSID  card", "busid  card"), None);
    assert_eq!(busid("──── card", "──── card"), None);
    assert_eq!(busid("", "card"), None);
}

#[test]
fn a_listing_of_usb_devices() {
    let stdout = "BUSID  VID:PID    DEVICE                 STATE\r\n\
        ─────────────────\r\n\
        1-4    0781:5581  USB Mass STORAGE       Not attached\r\n\
        1-5    046d:c31c  Keyboard               Not attached\r\n\
        1-6    0bda:0316  CARD Reader            Attached - WSL\r\n\
        \r\n\
        2-1    0bda:0329  SDXC Reader            Shared\r\n";
    let devices = usb_storage_to_attach(stdout);
    let busids: Vec<&str> = devices.iter().map(|d| d.busid.as_str()).collect();
    assert_eq!(busids, vec!["1-4", "2-1"]);
    assert_eq!(devices[1].line, "2-1    0bda:0329  SDXC Reader            Shared");
}

#[test]
fn case_does_not_matter() {
    let devices = usb_storage_to_attach("9-9 MASS STORAGE NOT ATTACHED");
    assert_eq!(devices.len(), 1);
    assert_eq!(devices[0].busid, "9-9");
    assert!(usb_storage_to_attach("9-9 MASS STORAGE ATTACHED").is_empty());
}

fn ended(code: i32, stdout: &str) -> UsbReply<String> {
    UsbReply::Ended { code: Some(code), stdout: stdout.to_string() }
}

fn attached(mut state: UsbState) -> Vec<String> {
    let mut busids = Vec::new();
    loop {
        let reply = match &state {
            UsbState::Attach(devices) => {
                busids.push(devices[0].busid.clone());
                if busids.len() % 2 == 0 { UsbReply::NotStarted } else { ended(1, "") }
            }
            UsbState::Pause(_) => UsbReply::Waited,
            UsbState::Done => return busids,
            other => panic!("{:?}", other),
        };
        state = state.advance(reply);
    }
}

#[test]
fn usbipd_is_installed_where_it_is_missing() {
    assert!(matches!(UsbState::start(), UsbState::Probe));
    assert!(matches!(UsbState::start().advance(ended(0, "4.0")), UsbState::List));
    for missing in [ended(1, ""), UsbReply::NotStarted] {
        let s = UsbState::start().advance(missing);
        assert!(matches!(s, UsbState::Install));
        let s = s.advance(UsbReply::NotStarted);
        assert!(matches!(s, UsbState::Refresh));
        assert!(matches!(s.advance(ended(1, "")), UsbState::List));
    }
    let s = UsbState::start().advance(UsbReply::NotStarted).advance(ended(0, ""));
    assert!(matches!(s.advance(UsbReply::NotStarted), UsbState::Done));
}

#[test]
fn without_a_list_nothing_is_attached() {
    let s = UsbState::start().advance(ended(0, ""));
    assert!(matches!(s.advance(UsbReply::NotStarted), UsbState::Done));
    let empty = UsbState::start().advance(ended(0, "")).advance(ended(0, "BUSID\n"));
    assert!(matches!(empty, UsbState::Done));
}

#[test]
fn devices_are_attached_in_order() {
    let list = "1-1 SD card\n1-2 Mouse\n1-3 Flash drive\n1-4 Mass storage\n";
    let s = UsbState::start().advance(ended(0, "")).advance(ended(3, list));
    assert_eq!(attached(s), vec!["1-1", "1-3", "1-4"]);
    let waiting = UsbState::start().advance(ended(0, "")).advance(ended(0, list));
    let waiting = waiting.advance(UsbReply::Waited).advance(ended(0, "")).advance(ended(0, ""));
    assert!(matches!(waiting, UsbState::Pause(d) if d.len() == 3));
}

#[test]
fn commands_of_usb() {
    assert_eq!(attach_args("1-4"), vec!["wsl", "attach", "--busid", "1-4"]);
    assert_eq!(list_args(), vec!["wsl", "list"]);
    assert_eq!(
        install_args(),
        vec![
            "install",
            "--accept-source-agreements",
            "--accept-package-agreements",
            "usbipd",
            "-h",
        ]
    );
    assert_eq!(refresh_args(), vec!["-NoProfile", "-Command", REFRESH_PATH]);
    assert_eq!(ATTACH_PAUSE, 3);
    let device = &usb_storage_to_attach("1-4 SD")[0];
    assert_eq!(attach_line(device), "    attaching USB storage (1-4 SD) via usbipd...");
}
