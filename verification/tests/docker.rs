use pifrost::cli::BootstrapArgs;
use pifrost::docker::{
    build_network_config, info_args, mount_path, DockerClient, WorkerImage, LIST_DISKS,
    WORKER_DOCKERFILE, WORKER_IMAGE,
};
use pifrost::process::ProcessOutput;

fn ended(code: Option<i32>, stdout: &str, stderr: &str) -> ProcessOutput<String> {
    ProcessOutput { stdout: stdout.to_string(), stderr: stderr.to_string(), code }
}

fn client() -> DockerClient {
    DockerClient::new(&ended(Some(0), "27.0\n", "")).unwrap()
}

fn script_of(args: &[String]) -> String {
    assert_eq!(
        args[..12],
        [
            "run",
            "--rm",
            "--privileged",
            "-v",
            "/dev:/dev",
            "-v",
            "/work/output:/build-images",
            "--entrypoint",
            "/bin/bash",
            "pifrost-worker:latest",
            "-c",
            args[11].as_str(),
        ]
    );
    assert_eq!(args.len(), 12);
    args[11].clone()
}

fn bootstrap(role: &str, server_ip: Option<&str>) -> String {
    script_of(&client().bootstrap_drive(
        "/dev/sdc",
        "k8s-1",
        role,
        "my-token",
        server_ip,
        None,
        None,
        None,
        "deadbeef-1234-5678-9abc-def012345678",
        "/work/output",
    ))
}

#[test]
fn the_daemon_must_answer() {
    assert_eq!(info_args(), vec!["info", "--format", "{{.ServerVersion}}"]);
    assert!(DockerClient::new(&ended(Some(0), "", "")).is_ok());
    let e = DockerClient::new(&ended(Some(1), "o\n", " Cannot connect \n")).unwrap_err();
    assert_eq!(
        e,
        "Docker daemon is not accessible: Cannot connect\npifrost requires Docker for cross-platform execution safety.\nPlease install Docker Desktop or Docker Engine and ensure the daemon is running.\nstdout: o"
    );
    assert!(DockerClient::new(&ended(None, "", "")).is_err());
}

#[test]
fn the_worker_image_is_built_once() {
    assert!(matches!(client().ensure_worker_image(Some(0)), WorkerImage::Present));
    match client().ensure_worker_image(Some(1)) {
        WorkerImage::Build { args, dockerfile } => {
            assert_eq!(args, vec!["build", "-t", WORKER_IMAGE, "-"]);
            assert_eq!(dockerfile, WORKER_DOCKERFILE);
        }
        other => panic!("{:?}", other),
    }
    assert!(WORKER_DOCKERFILE.starts_with("\nFROM debian:bookworm-slim\n"));
    assert!(WORKER_DOCKERFILE.contains("kpartx xz-utils xxd "));
    assert_eq!(client().worker_image_built(&ended(Some(0), "", "x")), Ok(()));
    assert_eq!(
        client().worker_image_built(&ended(Some(1), "step 1\n", "no space\n")),
        Err("Failed to build worker image:\nno space\nstdout: step 1".to_string())
    );
}

#[test]
fn scripts_are_joined_and_run() {
    let parts = vec!["echo".to_string(), "a".to_string()];
    let args = client().run_docker_cmd(&parts, false, "/o");
    assert_eq!(
        args,
        vec![
            "run",
            "--rm",
            "-v",
            "/dev:/dev",
            "-v",
            "/o:/build-images",
            "--entrypoint",
            "/bin/bash",
            "pifrost-worker:latest",
            "-c",
            "echo a",
        ]
    );
    assert_eq!(script_of(&client().list_disks_args("/work/output")), LIST_DISKS);
}

#[test]
fn the_end_of_a_container() {
    assert_eq!(
        client().container_finished(ended(Some(0), "out\n", "")),
        Ok("out\n".to_string())
    );
    assert_eq!(
        client().container_finished(ended(Some(2), " a \n", "b\n")),
        Err("Docker container failed (exit code: Some(2)):\nstdout: a\nstderr: b".to_string())
    );
    assert_eq!(
        client().container_finished(ended(None, "", "")),
        Err("Docker container failed (exit code: None):\nstdout: \nstderr: ".to_string())
    );
}

#[test]
fn disks_are_listed() {
    assert_eq!(
        client().list_disks("/dev/sda  (1T, disk, X)\n\n  /dev/sdb  (32G, disk, )\n"),
        vec!["/dev/sda  (1T, disk, X)", "/dev/sdb  (32G, disk, )"]
    );
    assert!(client().list_disks("\n").is_empty());
}

#[test]
fn networks() {
    assert_eq!(
        build_network_config(Some("192.168.1.100/24"), Some("192.168.1.1"), Some("1.1.1.1")),
        "auto lo\niface lo inet loopback\n\nauto eth0\niface eth0 inet static\n    address 192.168.1.100/24\n    gateway 192.168.1.1\n    dns-nameservers 1.1.1.1\n"
    );
    assert_eq!(
        build_network_config(Some("a"), Some("b"), None),
        "auto lo\niface lo inet loopback\n\nauto eth0\niface eth0 inet static\n    address a\n    gateway b\n"
    );
    assert_eq!(build_network_config(Some("a"), None, Some("c")), "");
    assert_eq!(build_network_config(None, Some("b"), Some("c")), "");
    assert_eq!(build_network_config(None, None, None), "");
}

#[test]
fn a_server_starts_the_cluster() {
    let s = bootstrap("server", None);
    assert!(s.starts_with("set -euo pipefail\n\nDEVICE=\"/dev/sdc\"\nKUBE_UUID=\"deadbeef-1234-5678-9abc-def012345678\"\nNODE_NAME=\"k8s-1\"\nKUBE_ROLE=\"server\"\nCLUSTER_TOKEN=\"my-token\"\nSERVER_URL=\"\"\nNETCONF=''\n\necho \">>> Clearing partition table on $DEVICE\"\n"));
    assert!(s.contains(
        "cat > \"$TMPMNT/node-mode.env\" << 'EOF2'\nKUBE_ROLE=\"server\"\nNODE_NAME=\"k8s-1\"\n\nEOF2\n"
    ));
    assert!(s.contains(
        "cat > \"$TMPMNT/etc/k3s/config.yaml\" << 'EOF3'\ntoken: \"my-token\"\nnode-name: \"k8s-1\"\ncluster-init: true\nEOF3\n"
    ));
    assert!(s.ends_with("umount \"$TMPMNT\"\nrmdir \"$TMPMNT\"\necho \">>> Bootstrap complete\"\n"));
}

#[test]
fn an_agent_joins_its_server() {
    let s = bootstrap("agent", Some("192.168.1.100"));
    assert!(s.contains("\nSERVER_URL=\"https://192.168.1.100:6443\"\nNETCONF=''\n"));
    assert!(s.contains(
        "KUBE_ROLE=\"agent\"\nNODE_NAME=\"k8s-1\"\nSERVER_URL=\"https://192.168.1.100:6443\"\nEOF2\n"
    ));
    assert!(s.contains("node-name: \"k8s-1\"\nserver: \"https://192.168.1.100:6443\"\nEOF3\n"));
    assert!(!s.contains("cluster-init"));
    let lone = bootstrap("agent", None);
    assert!(lone.contains("NODE_NAME=\"k8s-1\"\n\nEOF2\n"));
    assert!(lone.contains("node-name: \"k8s-1\"\n\nEOF3\n"));
    let second = bootstrap("server", Some("10.0.0.1"));
    assert!(second.contains("node-name: \"k8s-1\"\n\nEOF3\n"));
}

#[test]
fn a_drive_has_three_partitions() {
    let s = bootstrap("server", None);
    let parts: Vec<&str> = s.lines().filter(|l| l.contains("mkpart")).collect();
    assert_eq!(
        parts,
        vec![
            "parted -s \"$DEVICE\" mkpart primary fat32 1MiB 513MiB",
            "parted -s \"$DEVICE\" mkpart primary ext4 513MiB 4609MiB",
            "parted -s \"$DEVICE\" mkpart primary ext4 4609MiB 100%",
        ]
    );
    let formats: Vec<&str> = s.lines().filter(|l| l.starts_with("mkfs")).collect();
    assert_eq!(
        formats,
        vec![
            "mkfs.vfat -F 32 -n \"system-boot\" \"$PART1\"",
            "mkfs.ext4 -F -L \"writable\" \"$PART2\"",
            "mkfs.ext4 -F -L \"kube-state\" -U \"$KUBE_UUID\" \"$PART3\"",
        ]
    );
    assert!(s.contains("MACHINE_ID=$(head -c 16 /dev/urandom | xxd -p -c 32)\n"));
    for dir in ["k3s", "containerd", "etc/k3s"] {
        assert!(s.contains(&format!("install -d -m 755 \"$TMPMNT/{}\"\n", dir)));
    }
}

#[test]
fn a_static_network_is_seeded() {
    let s = script_of(&client().bootstrap_drive(
        "/dev/sdc",
        "n",
        "server",
        "t",
        None,
        Some("10.0.0.2/24"),
        Some("10.0.0.1"),
        None,
        "u",
        "/work/output",
    ));
    assert!(s.contains("\nNETCONF='auto lo\niface lo inet loopback\n\nauto eth0\niface eth0 inet static\n    address 10.0.0.2/24\n    gateway 10.0.0.1\n'\n"));
}

#[test]
fn flashing_keeps_the_third_partition() {
    let s = script_of(&client().flash_drive(
        "/dev/sdc",
        "stateless-debian-kube.img",
        "/work/output",
    ));
    assert!(s.starts_with("set -euo pipefail\n\nDEVICE=\"/dev/sdc\"\nIMAGE=\"/build-images/stateless-debian-kube.img\"\n\n"));
    let writes: Vec<&str> = s.lines().filter(|l| l.contains("of=")).collect();
    assert_eq!(
        writes,
        vec![
            "dd if=/dev/mapper/${MAPPER_BASE}p1 of=\"$TARGET_P1\" bs=4M status=progress conv=fsync",
            "dd if=/dev/mapper/${MAPPER_BASE}p2 of=\"$TARGET_P2\" bs=4M status=progress conv=fsync",
        ]
    );
    assert!(!s.contains("mkfs") && !s.contains("parted") && !s.contains("TARGET_P3"));
    assert!(s.ends_with("\necho \">>> Flash complete — kube-state partition (p3) preserved intact\"\n"));
    assert!(s.contains("awk '{print $1}'"));
}

#[test]
fn paths_are_made_fit_for_mounting() {
    assert_eq!(mount_path("/home/pi/./output"), "/home/pi/./output");
    assert_eq!(mount_path("C:\\work\\output\\"), "C:/work/output");
    assert_eq!(mount_path("/work/."), "/work");
    assert_eq!(mount_path("/work/../"), "/work");
    assert_eq!(mount_path("/"), "");
}

#[test]
fn options_reach_the_script() {
    let args = BootstrapArgs {
        drive: None,
        name: "n".to_string(),
        role: "agent".to_string(),
        token: Some("unused".to_string()),
        server_ip: Some("10.0.0.9".to_string()),
        ip: Some("10.0.0.2/24".to_string()),
        gateway: Some("10.0.0.1".to_string()),
        dns: Some("1.1.1.1".to_string()),
        kube_uuid: "u".to_string(),
        yes: false,
    };
    let by_options = client().bootstrap_args(&args, "/dev/sdc", "t", "/work/output");
    let by_hand = client().bootstrap_drive(
        "/dev/sdc",
        "n",
        "agent",
        "t",
        Some("10.0.0.9"),
        Some("10.0.0.2/24"),
        Some("10.0.0.1"),
        Some("1.1.1.1"),
        "u",
        "/work/output",
    );
    assert_eq!(by_options, by_hand);
    let script = script_of(&by_options);
    assert!(script.contains("    gateway 10.0.0.1\n    dns-nameservers 1.1.1.1\n"));
}
