//! What is run in Docker: the worker image, the scripts that partition, seed and
//! flash a drive, and the choice of USB devices to pass through.

use vstd::prelude::*;
use crate::cli::BootstrapArgs;
use crate::process::ProcessOutput;
use crate::text::{
    chars_of, concat2, concat3, contains, decimal, decimal_of, exit_text, exit_text_of,
    filled_lines, join, joined, lines_of, occurs_at, replace_char, replaced, same, string_of,
    succeeded, text_in, texts, trim, trimmed,
};

verus! {

/// The image that the worker containers are made of.
pub const WORKER_IMAGE: &'static str = "pifrost-worker:latest";

/// How the image of the worker containers is built.
pub const WORKER_DOCKERFILE: &'static str = r#"
FROM debian:bookworm-slim
RUN apt-get update && DEBIAN_FRONTEND=noninteractive apt-get install -y --no-install-recommends \
    parted e2fsprogs dosfstools curl ca-certificates util-linux mount kpartx xz-utils xxd \
    && rm -rf /var/lib/apt/lists/*
ENTRYPOINT ["/bin/bash", "-c"]
"#;

/// The arguments with which `docker` tells whether its daemon runs.
pub open spec fn info_args_text() -> Seq<Seq<char>> {
    seq!["info"@, "--format"@, "{{.ServerVersion}}"@]
}

/// The arguments with which `docker` tells whether its daemon runs.
pub fn info_args() -> (r: Vec<String>)
    ensures
        texts(r@) == info_args_text(),
{
    let mut r: Vec<String> = Vec::new();
    r.push("info".to_string());
    r.push("--format".to_string());
    r.push("{{.ServerVersion}}".to_string());
    assert(texts(r@) =~= info_args_text());
    r
}

/// What is to be done about the worker image.
#[derive(Debug)]
pub enum WorkerImage {
    /// Nothing: it is there.
    Present,
    /// `docker` is to be run with these arguments and this text as its input.
    Build { args: Vec<String>, dockerfile: &'static str },
}

/// What is said when the Docker daemon cannot be reached.
pub open spec fn no_daemon_text(info: ProcessOutput<Seq<char>>) -> Seq<char> {
    "Docker daemon is not accessible: "@ + trimmed(info.stderr)
        + "\npifrost requires Docker for cross-platform execution safety.\nPlease install Docker Desktop or Docker Engine and ensure the daemon is running."@
        + "\nstdout: "@ + trimmed(info.stdout)
}

/// What is said when a container fails.
pub open spec fn container_failed_text(output: ProcessOutput<Seq<char>>) -> Seq<char> {
    "Docker container failed (exit code: "@ + exit_text(output.code) + "):\nstdout: "@ + trimmed(
        output.stdout,
    ) + "\nstderr: "@ + trimmed(output.stderr)
}

/// The arguments with which a script is run in a worker container.
pub open spec fn container_args(script: Seq<char>, privileged: bool, host_path: Seq<char>) -> Seq<
    Seq<char>,
> {
    seq!["run"@, "--rm"@] + (if privileged {
        seq!["--privileged"@]
    } else {
        Seq::empty()
    }) + seq![
        "-v"@,
        "/dev:/dev"@,
        "-v"@,
        host_path + ":/build-images"@,
        "--entrypoint"@,
        "/bin/bash"@,
        WORKER_IMAGE@,
        "-c"@,
        script,
    ]
}

/// The script that lists the block devices that a container sees.
pub const LIST_DISKS: &'static str = r#"
            lsblk -d -o NAME,SIZE,TYPE,MODEL -n 2>/dev/null | while read name size type model; do
                echo "/dev/$name  ($size, $type, $model)"
            done
        "#;

/// A Docker daemon that can be reached.
#[derive(Debug, Clone, Copy, PartialEq, Eq, Structural)]
pub struct DockerClient;

impl DockerClient {
    /// A client, if the daemon could tell its version.
    pub fn new(info: &ProcessOutput<String>) -> (r: Result<DockerClient, String>)
        ensures
            match r {
                Ok(_) => info.code == Some(0i32),
                Err(e) => info.code != Some(0i32) && e@ == no_daemon_text(info@),
            },
    {
        if succeeded(info.code) {
            return Ok(DockerClient);
        }
        let mut e = concat3(
            "Docker daemon is not accessible: ",
            trim(info.stderr.as_str()).as_str(),
            "\npifrost requires Docker for cross-platform execution safety.\nPlease install Docker Desktop or Docker Engine and ensure the daemon is running.",
        );
        e.append("\nstdout: ");
        e.append(trim(info.stdout.as_str()).as_str());
        Err(e)
    }

    /// What is to be done about the worker image, by the code with which its
    /// inspection ended.
    pub fn ensure_worker_image(&self, inspected: Option<i32>) -> (r: WorkerImage)
        ensures
            match r {
                WorkerImage::Present => inspected == Some(0i32),
                WorkerImage::Build { args, dockerfile } => {
                    &&& inspected != Some(0i32)
                    &&& texts(args@) == seq!["build"@, "-t"@, WORKER_IMAGE@, "-"@]
                    &&& dockerfile@ == WORKER_DOCKERFILE@
                },
            },
    {
        if succeeded(inspected) {
            return WorkerImage::Present;
        }
        let mut args: Vec<String> = Vec::new();
        args.push("build".to_string());
        args.push("-t".to_string());
        args.push(WORKER_IMAGE.to_string());
        args.push("-".to_string());
        assert(texts(args@) =~= seq!["build"@, "-t"@, WORKER_IMAGE@, "-"@]);
        WorkerImage::Build { args, dockerfile: WORKER_DOCKERFILE }
    }

    /// What the building of the worker image comes to.
    pub fn worker_image_built(&self, output: &ProcessOutput<String>) -> (r: Result<(), String>)
        ensures
            match r {
                Ok(_) => output.code == Some(0i32),
                Err(e) => output.code != Some(0i32) && e@ == "Failed to build worker image:\n"@
                    + trimmed(output.stderr@) + "\nstdout: "@ + trimmed(output.stdout@),
            },
    {
        if succeeded(output.code) {
            return Ok(());
        }
        let mut e = concat3(
            "Failed to build worker image:\n",
            trim(output.stderr.as_str()).as_str(),
            "\nstdout: ",
        );
        e.append(trim(output.stdout.as_str()).as_str());
        Err(e)
    }

    /// The arguments with which a script is run in a worker container. The
    /// script is made of `script_parts`; `host_path` is where the images are.
    pub fn run_docker_cmd(
        &self,
        script_parts: &Vec<String>,
        privileged: bool,
        host_path: &str,
    ) -> (r: Vec<String>)
        ensures
            texts(r@) == container_args(
                joined(texts(script_parts@), " "@),
                privileged,
                host_path@,
            ),
    {
        let mut args: Vec<String> = Vec::new();
        args.push("run".to_string());
        args.push("--rm".to_string());
        if privileged {
            args.push("--privileged".to_string());
        }
        args.push("-v".to_string());
        args.push("/dev:/dev".to_string());
        args.push("-v".to_string());
        args.push(concat2(host_path, ":/build-images"));
        args.push("--entrypoint".to_string());
        args.push("/bin/bash".to_string());
        args.push(WORKER_IMAGE.to_string());
        args.push("-c".to_string());
        args.push(join(script_parts, " "));
        assert(texts(args@) =~= container_args(
            joined(texts(script_parts@), " "@),
            privileged,
            host_path@,
        ));
        args
    }

    /// The arguments with which one script is run in a privileged container.
    pub fn run_script(&self, script: String, host_path: &str) -> (r: Vec<String>)
        ensures
            texts(r@) == container_args(script@, true, host_path@),
    {
        let mut parts: Vec<String> = Vec::new();
        parts.push(script);
        assert(texts(parts@) =~= seq![script@]);
        self.run_docker_cmd(&parts, true, host_path)
    }

    /// What a container printed, or why it failed.
    pub fn container_finished(&self, output: ProcessOutput<String>) -> (r: Result<String, String>)
        ensures
            match r {
                Ok(stdout) => output.code == Some(0i32) && stdout == output.stdout,
                Err(e) => output.code != Some(0i32) && e@ == container_failed_text(output@),
            },
    {
        if succeeded(output.code) {
            return Ok(output.stdout);
        }
        let mut e = concat3(
            "Docker container failed (exit code: ",
            exit_text_of(output.code).as_str(),
            "):\nstdout: ",
        );
        e.append(trim(output.stdout.as_str()).as_str());
        e.append("\nstderr: ");
        e.append(trim(output.stderr.as_str()).as_str());
        Err(e)
    }

    /// List available block devices visible inside the container: one for each
    /// line that [`LIST_DISKS`] printed.
    pub fn list_disks(&self, stdout: &str) -> (r: Vec<String>)
        ensures
            texts(r@) == filled_lines(stdout@),
    {
        lines_of(stdout)
    }
}

/// `s` without the slashes and dots at its end.
pub open spec fn without_tail(s: Seq<char>) -> Seq<char>
    decreases s.len(),
{
    if s.len() > 0 && (s.last() == '/' || s.last() == '.') {
        without_tail(s.drop_last())
    } else {
        s
    }
}

/// An absolute path in the form in which Docker mounts it: with slashes between
/// its parts, and no slash or dot at its end.
pub fn mount_path(absolute: &str) -> (r: String)
    ensures
        r@ == without_tail(replaced(absolute@, '\\', '/')),
        r@.len() > 0 ==> r@.last() != '/' && r@.last() != '.',
{
    let path = replace_char(absolute, '\\', '/');
    let v = chars_of(path.as_str());
    let mut n: usize = v.len();
    assert(v@.take(n as int) =~= v@);
    while n > 0 && (v[n - 1] == '/' || v[n - 1] == '.')
        invariant
            n <= v@.len(),
            without_tail(v@.take(n as int)) == without_tail(v@),
        decreases n,
    {
        assert(v@.take(n as int).drop_last() =~= v@.take(n - 1));
        n -= 1;
    }
    assert(v@.take(n as int) =~= v@.subrange(0, n as int));
    string_of(&v, 0, n)
}

/// The text of the file that configures the network of a node. It is empty
/// unless both the address and the gateway are known.
pub open spec fn network_text(
    ip: Option<Seq<char>>,
    gateway: Option<Seq<char>>,
    dns: Option<Seq<char>>,
) -> Seq<char> {
    match (ip, gateway) {
        (Some(ip), Some(gateway)) => {
            let fixed = "auto lo\niface lo inet loopback\n\nauto eth0\niface eth0 inet static\n    address "@
                + ip + "\n    gateway "@ + gateway + "\n"@;
            match dns {
                Some(dns) => fixed + "    dns-nameservers "@ + dns + "\n"@,
                None => fixed,
            }
        },
        _ => ""@,
    }
}

/// The text of the file that configures the network of a node.
pub fn build_network_config(ip: Option<&str>, gateway: Option<&str>, dns: Option<&str>) -> (r:
    String)
    ensures
        r@ == network_text(seen(ip), seen(gateway), seen(dns)),
{
    match (ip, gateway) {
        (Some(ip), Some(gateway)) => {
            let mut text = "auto lo\niface lo inet loopback\n\nauto eth0\niface eth0 inet static\n    address ".to_string();
            text.append(ip);
            text.append("\n    gateway ");
            text.append(gateway);
            text.append("\n");
            if let Some(dns) = dns {
                text.append("    dns-nameservers ");
                text.append(dns);
                text.append("\n");
            }
            text
        },
        _ => "".to_string(),
    }
}

/// A text that may be missing.
pub open spec fn seen(s: Option<&str>) -> Option<Seq<char>> {
    match s {
        Some(s) => Some(s@),
        None => None,
    }
}

/// Where a partition of a node's drive lies, in MiB. One without an end takes the
/// rest of the drive.
#[derive(Debug, Clone, Copy)]
pub struct Extent {
    pub start: u64,
    pub end: Option<u64>,
}

/// The first MiB of the boot partition.
pub const BOOT_START: u64 = 1;

/// The end of the boot partition, in MiB. The system partition starts there.
pub const BOOT_END: u64 = 513;

/// The end of the system partition, in MiB. The cluster's state starts there.
pub const SYSTEM_END: u64 = 4609;

/// The partitions of a node's drive.
pub open spec fn layout() -> Seq<Extent> {
    seq![
        Extent { start: BOOT_START, end: Some(BOOT_END) },
        Extent { start: BOOT_END, end: Some(SYSTEM_END) },
        Extent { start: SYSTEM_END, end: None },
    ]
}

/// A node's drive has three partitions: one of 512 MiB for booting, one of 4 GiB
/// for the system, and the rest of the drive for the state of the cluster. Each
/// starts where the one before it ends, so none overlaps another.
pub proof fn lemma_layout()
    ensures
        layout().len() == 3,
        layout()[0].end == Some((layout()[0].start + 512) as u64),
        layout()[1].end == Some((layout()[1].start + 4096) as u64),
        layout()[2].end is None,
        forall|i: int|
            0 <= i < 2 ==> layout()[i].start < layout()[i + 1].start && (#[trigger] layout()[i]).end
                == Some(layout()[i + 1].start),
{
}

/// The command that creates a partition.
pub open spec fn partition_text(filesystem: Seq<char>, extent: Extent) -> Seq<char> {
    "parted -s \"$DEVICE\" mkpart primary "@ + filesystem + " "@ + decimal(extent.start as nat)
        + "MiB "@ + match extent.end {
        Some(end) => decimal(end as nat) + "MiB"@,
        None => "100%"@,
    } + "\n"@
}

/// The command that creates a partition.
fn partition_command(filesystem: &str, extent: Extent) -> (r: String)
    ensures
        r@ == partition_text(filesystem@, extent),
{
    let end = match extent.end {
        Some(end) => concat2(decimal_of(end).as_str(), "MiB"),
        None => "100%".to_string(),
    };
    let mut text = "parted -s \"$DEVICE\" mkpart primary ".to_string();
    text.append(filesystem);
    text.append(" ");
    text.append(decimal_of(extent.start).as_str());
    text.append("MiB ");
    text.append(end.as_str());
    text.append("\n");
    text
}

/// The part of the bootstrap script that clears the drive.
pub const CLEAR_DRIVE: &'static str = r#"
echo ">>> Clearing partition table on $DEVICE"
parted -s "$DEVICE" mklabel gpt
"#;

/// The part of the bootstrap script that finds out how the partitions are named.
pub const NAME_PARTITIONS: &'static str = r#"
echo ">>> Waiting for kernel to re-read partition table"
sleep 2
partprobe "$DEVICE" 2>/dev/null || true
sleep 1

# Determine partition device names
if [[ "$DEVICE" == /dev/nvme* ]] || [[ "$DEVICE" == /dev/mmcblk* ]] || [[ "$DEVICE" == /dev/loop* ]]; then
    PART1="${DEVICE}p1"
    PART2="${DEVICE}p2"
    PART3="${DEVICE}p3"
else
    PART1="${DEVICE}1"
    PART2="${DEVICE}2"
    PART3="${DEVICE}3"
fi
"#;

/// The part of the bootstrap script that formats the partitions.
pub const FORMAT_PARTITIONS: &'static str = r#"
echo ">>> Formatting boot partition (FAT32)"
mkfs.vfat -F 32 -n "system-boot" "$PART1"

echo ">>> Formatting OS partition (EXT4)"
mkfs.ext4 -F -L "writable" "$PART2"

echo ">>> Formatting kube-state partition (EXT4, UUID=$KUBE_UUID)"
mkfs.ext4 -F -L "kube-state" -U "$KUBE_UUID" "$PART3"
"#;

/// The part of the bootstrap script that seeds the partition of the cluster's
/// state.
pub const SEED_STATE: &'static str = r#"
echo ">>> Seeding kube-state partition"
TMPMNT=$(mktemp -d)
mount "$PART3" "$TMPMNT"

# Generate machine-id
MACHINE_ID=$(head -c 16 /dev/urandom | xxd -p -c 32)
echo "$MACHINE_ID" > "$TMPMNT/machine-id"

# Seed directories
install -d -m 755 "$TMPMNT/k3s"
install -d -m 755 "$TMPMNT/containerd"
install -d -m 755 "$TMPMNT/etc/k3s"
install -d -m 755 "$TMPMNT/etc/network" 2>/dev/null || true

# Write node-mode.env
"#;

/// The part of the bootstrap script that writes the network configuration and
/// lets go of the drive.
pub const FINISH_BOOTSTRAP: &'static str = r#"
# Write network config if provided
if [ -n "$NETCONF" ] && [ "$NETCONF" != "" ]; then
    echo "$NETCONF" > "$TMPMNT/etc/network/interfaces" 2>/dev/null || true
fi

umount "$TMPMNT"
rmdir "$TMPMNT"
echo ">>> Bootstrap complete"
"#;

/// What a node is bootstrapped with.
#[verifier::ext_equal]
pub struct NodeSeed<S> {
    pub name: S,
    pub role: S,
    pub token: S,
    pub server_ip: Option<S>,
    pub ip: Option<S>,
    pub gateway: Option<S>,
    pub dns: Option<S>,
    pub kube_uuid: S,
}

/// What the options of the command and a token say of a node.
pub open spec fn seed_of(args: BootstrapArgs, token: Seq<char>) -> NodeSeed<Seq<char>> {
    NodeSeed {
        name: args.name@,
        role: args.role@,
        token,
        server_ip: text_in(args.server_ip),
        ip: text_in(args.ip),
        gateway: text_in(args.gateway),
        dns: text_in(args.dns),
        kube_uuid: args.kube_uuid@,
    }
}

/// A text that may be missing, borrowed.
fn borrowed(s: &Option<String>) -> (r: Option<&str>)
    ensures
        seen(r) == text_in(*s),
{
    match s {
        Some(text) => Some(text.as_str()),
        None => None,
    }
}

/// Where the API of the first server is; empty if no server is known.
pub open spec fn server_url(server_ip: Option<Seq<char>>) -> Seq<char> {
    match server_ip {
        Some(ip) => "https://"@ + ip + ":6443"@,
        None => ""@,
    }
}

/// The text of `node-mode.env`: the role and the name of the node, and for an
/// agent that knows its server where that is.
pub open spec fn node_mode_text(seed: NodeSeed<Seq<char>>) -> Seq<char> {
    "KUBE_ROLE=\""@ + seed.role + "\"\nNODE_NAME=\""@ + seed.name + "\"\n"@ + (if seed.role
        == "agent"@ && seed.server_ip is Some {
        "SERVER_URL=\""@ + server_url(seed.server_ip) + "\""@
    } else {
        ""@
    }) + "\n"@
}

/// The text of `config.yaml`: the token and the name of the node. A server that
/// joins no other starts the cluster; an agent names the server that it joins.
pub open spec fn k3s_config_text(seed: NodeSeed<Seq<char>>) -> Seq<char> {
    "token: \""@ + seed.token + "\"\nnode-name: \""@ + seed.name + "\"\n"@ + (if seed.role
        == "server"@ && seed.server_ip is None {
        "cluster-init: true"@
    } else if seed.role == "agent"@ && seed.server_ip is Some {
        "server: \""@ + server_url(seed.server_ip) + "\""@
    } else {
        ""@
    }) + "\n"@
}

/// The head of the bootstrap script, which names its inputs.
pub open spec fn bootstrap_head(drive: Seq<char>, seed: NodeSeed<Seq<char>>) -> Seq<char> {
    "set -euo pipefail\n\nDEVICE=\""@ + drive + "\"\nKUBE_UUID=\""@ + seed.kube_uuid
        + "\"\nNODE_NAME=\""@ + seed.name + "\"\nKUBE_ROLE=\""@ + seed.role
        + "\"\nCLUSTER_TOKEN=\""@ + seed.token + "\"\nSERVER_URL=\""@ + server_url(seed.server_ip)
        + "\"\nNETCONF='"@ + network_text(seed.ip, seed.gateway, seed.dns) + "'\n"@
}

/// The part of the bootstrap script that creates the partitions.
pub open spec fn partitioning() -> Seq<char> {
    CLEAR_DRIVE@ + "\necho \">>> Creating boot partition (512MB, FAT32)\"\n"@ + partition_text(
        "fat32"@,
        layout()[0],
    ) + "parted -s \"$DEVICE\" set 1 esp on\nparted -s \"$DEVICE\" set 1 boot on\n"@
        + "\necho \">>> Creating OS partition (4GB, EXT4)\"\n"@ + partition_text(
        "ext4"@,
        layout()[1],
    ) + "\necho \">>> Creating kube-state partition (remainder, EXT4)\"\n"@ + partition_text(
        "ext4"@,
        layout()[2],
    )
}

/// The script that wipes, partitions and seeds the drive of a node.
pub open spec fn bootstrap_script(drive: Seq<char>, seed: NodeSeed<Seq<char>>) -> Seq<char> {
    bootstrap_head(drive, seed) + partitioning() + NAME_PARTITIONS@ + FORMAT_PARTITIONS@
        + SEED_STATE@ + "cat > \"$TMPMNT/node-mode.env\" << 'EOF2'\n"@ + node_mode_text(seed)
        + "EOF2\n"@ + "\n# Write config.yaml for K3s\n"@
        + "cat > \"$TMPMNT/etc/k3s/config.yaml\" << 'EOF3'\n"@ + k3s_config_text(seed) + "EOF3\n"@ + FINISH_BOOTSTRAP@
}

/// The part of the bootstrap script that creates the partitions.
fn partitioning_script() -> (r: String)
    ensures
        r@ == partitioning(),
{
    let mut text = CLEAR_DRIVE.to_string();
    text.append("\necho \">>> Creating boot partition (512MB, FAT32)\"\n");
    text.append(
        partition_command("fat32", Extent { start: BOOT_START, end: Some(BOOT_END) }).as_str(),
    );
    text.append("parted -s \"$DEVICE\" set 1 esp on\nparted -s \"$DEVICE\" set 1 boot on\n");
    text.append("\necho \">>> Creating OS partition (4GB, EXT4)\"\n");
    text.append(
        partition_command("ext4", Extent { start: BOOT_END, end: Some(SYSTEM_END) }).as_str(),
    );
    text.append("\necho \">>> Creating kube-state partition (remainder, EXT4)\"\n");
    text.append(partition_command("ext4", Extent { start: SYSTEM_END, end: None }).as_str());
    text
}

/// The line with which the bits of partition 1 of an image reach the drive.
pub const WRITE_BOOT: &'static str = "dd if=/dev/mapper/${MAPPER_BASE}p1 of=\"$TARGET_P1\" bs=4M status=progress conv=fsync";

/// The line with which the bits of partition 2 of an image reach the drive.
pub const WRITE_OS: &'static str = "dd if=/dev/mapper/${MAPPER_BASE}p2 of=\"$TARGET_P2\" bs=4M status=progress conv=fsync";

/// The lines of the script that flashes the image file of this name to a drive.
pub open spec fn flash_lines(drive: Seq<char>, image: Seq<char>) -> Seq<Seq<char>> {
    seq![
        "set -euo pipefail"@,
        ""@,
        drive_line(drive),
        image_file_line(image),
        ""@,
        "echo \">>> Verifying image exists\""@,
        "if [ ! -f \"$IMAGE\" ]; then"@,
        "    echo \"ERROR: Image not found at $IMAGE\""@,
        "    echo \"Ensure the image is in the ./output directory (mounted at /build-images).\""@,
        "    exit 1"@,
        "fi"@,
        ""@,
        "echo \">>> Attaching image via loopback\""@,
        "kpartx -av \"$IMAGE\" 2>&1"@,
        ""@,
        "# Determine loop device"@,
        "LOOP_DEV=$(kpartx -l \"$IMAGE\" | head -1 | awk '{print $1}' | sed 's/p[0-9]//' | head -1)"@,
        "if [ -z \"$LOOP_DEV\" ]; then"@,
        "    LOOP_DEV=$(losetup --show -f \"$IMAGE\")"@,
        "    kpartx -av \"$LOOP_DEV\" 2>&1"@,
        "fi"@,
        ""@,
        "echo \">>> Loop device: $LOOP_DEV\""@,
        ""@,
        "# Map partition names"@,
        "MAPPER_BASE=$(basename \"$LOOP_DEV\")"@,
        ""@,
        DRIVE_KIND@,
        "    TARGET_P1=\"${DEVICE}p1\""@,
        "    TARGET_P2=\"${DEVICE}p2\""@,
        "else"@,
        "    TARGET_P1=\"${DEVICE}1\""@,
        "    TARGET_P2=\"${DEVICE}2\""@,
        "fi"@,
        ""@,
        ANNOUNCE_BOOT@,
        WRITE_BOOT@,
        ""@,
        ANNOUNCE_OS@,
        WRITE_OS@,
        ""@,
        "echo \">>> Detaching loopback\""@,
        "kpartx -dv \"$IMAGE\" 2>&1 || true"@,
        "losetup -d \"$LOOP_DEV\" 2>/dev/null || true"@,
        ""@,
        "echo \">>> Flash complete — kube-state partition (p3) preserved intact\""@,
        ""@,
    ]
}

/// The lines of the script that flashes the image file of this name to a drive.
fn flash_lines_of(drive: &str, image: &str) -> (r: Vec<String>)
    ensures
        texts(r@) == flash_lines(drive@, image@),
{
    let mut v: Vec<String> = Vec::new();
    v.push("set -euo pipefail".to_string());
    v.push("".to_string());
    v.push(concat3("DEVICE=\"", drive, "\""));
    v.push(concat3("IMAGE=\"/build-images/", image, "\""));
    v.push("".to_string());
    v.push("echo \">>> Verifying image exists\"".to_string());
    v.push("if [ ! -f \"$IMAGE\" ]; then".to_string());
    v.push("    echo \"ERROR: Image not found at $IMAGE\"".to_string());
    v.push("    echo \"Ensure the image is in the ./output directory (mounted at /build-images).\"".to_string());
    v.push("    exit 1".to_string());
    v.push("fi".to_string());
    v.push("".to_string());
    v.push("echo \">>> Attaching image via loopback\"".to_string());
    v.push("kpartx -av \"$IMAGE\" 2>&1".to_string());
    v.push("".to_string());
    v.push("# Determine loop device".to_string());
    v.push("LOOP_DEV=$(kpartx -l \"$IMAGE\" | head -1 | awk '{print $1}' | sed 's/p[0-9]//' | head -1)".to_string());
    v.push("if [ -z \"$LOOP_DEV\" ]; then".to_string());
    v.push("    LOOP_DEV=$(losetup --show -f \"$IMAGE\")".to_string());
    v.push("    kpartx -av \"$LOOP_DEV\" 2>&1".to_string());
    v.push("fi".to_string());
    v.push("".to_string());
    v.push("echo \">>> Loop device: $LOOP_DEV\"".to_string());
    v.push("".to_string());
    v.push("# Map partition names".to_string());
    v.push("MAPPER_BASE=$(basename \"$LOOP_DEV\")".to_string());
    v.push("".to_string());
    v.push(DRIVE_KIND.to_string());
    v.push("    TARGET_P1=\"${DEVICE}p1\"".to_string());
    v.push("    TARGET_P2=\"${DEVICE}p2\"".to_string());
    v.push("else".to_string());
    v.push("    TARGET_P1=\"${DEVICE}1\"".to_string());
    v.push("    TARGET_P2=\"${DEVICE}2\"".to_string());
    v.push("fi".to_string());
    v.push("".to_string());
    v.push(ANNOUNCE_BOOT.to_string());
    v.push(WRITE_BOOT.to_string());
    v.push("".to_string());
    v.push(ANNOUNCE_OS.to_string());
    v.push(WRITE_OS.to_string());
    v.push("".to_string());
    v.push("echo \">>> Detaching loopback\"".to_string());
    v.push("kpartx -dv \"$IMAGE\" 2>&1 || true".to_string());
    v.push("losetup -d \"$LOOP_DEV\" 2>/dev/null || true".to_string());
    v.push("".to_string());
    v.push("echo \">>> Flash complete — kube-state partition (p3) preserved intact\"".to_string());
    v.push("".to_string());
    assert(texts(v@) =~= flash_lines(drive@, image@));
    v
}

/// Whether a part of the drive is named at this place of a line.
pub open spec fn drive_at(line: Seq<char>, j: int) -> bool {
    occurs_at(line, "DEVICE"@, j) || occurs_at(line, "TARGET"@, j)
}

/// Whether a line names the drive or a part of it.
pub open spec fn names_drive(line: Seq<char>) -> bool {
    exists|j: int| #[trigger] drive_at(line, j)
}

/// Whether a character can stand between a mark and the variable that it marks.
pub open spec fn is_filler(c: char) -> bool {
    c == ' ' || c == '"' || c == '$' || c == '{'
}

/// Whether a part of the drive is named directly behind a mark.
pub open spec fn drive_behind(line: Seq<char>, mark: Seq<char>) -> bool {
    exists|i: int, j: int|
        {
            &&& #[trigger] occurs_at(line, mark, i)
            &&& #[trigger] drive_at(line, j)
            &&& i + mark.len() <= j
            &&& forall|k: int| i + mark.len() <= k < j ==> is_filler(#[trigger] line[k])
        }
}

/// Whether a line writes to the drive: it names a part of it as the output of a
/// copy, or as the aim of a redirection.
pub open spec fn writes_drive(line: Seq<char>) -> bool {
    drive_behind(line, "of="@) || drive_behind(line, ">"@)
}

/// The line that tells the kinds of drives apart by the names of their
/// partitions.
pub const DRIVE_KIND: &'static str = "if [[ \"$DEVICE\" == /dev/nvme* ]] || [[ \"$DEVICE\" == /dev/mmcblk* ]] || [[ \"$DEVICE\" == /dev/loop* ]]; then";

/// The line that announces the writing of partition 1.
pub const ANNOUNCE_BOOT: &'static str = "echo \">>> Flashing partition 1 (boot) to $TARGET_P1\"";

/// The line that announces the writing of partition 2.
pub const ANNOUNCE_OS: &'static str = "echo \">>> Flashing partition 2 (OS) to $TARGET_P2\"";

/// The line that says which drive is flashed.
pub open spec fn drive_line(drive: Seq<char>) -> Seq<char> {
    "DEVICE=\""@ + drive + "\""@
}

/// The line that says which image is flashed.
pub open spec fn image_file_line(image: Seq<char>) -> Seq<char> {
    "IMAGE=\"/build-images/"@ + image + "\""@
}

/// Whether a line gives a name to the first or the second partition.
pub open spec fn names_partition(line: Seq<char>) -> bool {
    ||| line == "    TARGET_P1=\"${DEVICE}p1\""@
    ||| line == "    TARGET_P2=\"${DEVICE}p2\""@
    ||| line == "    TARGET_P1=\"${DEVICE}1\""@
    ||| line == "    TARGET_P2=\"${DEVICE}2\""@
}

/// A line in which neither word is spelt does not name the drive.
proof fn lemma_no_name(line: Seq<char>)
    requires
        forall|i: int|
            #![trigger line[i]]
            0 <= i < line.len() - 5 ==> !(line[i] == 'D' && line[i + 1] == 'E' && line[i + 2] == 'V'
                && line[i + 3] == 'I') && !(line[i] == 'T' && line[i + 1] == 'A' && line[i + 2]
                == 'R'),
    ensures
        !names_drive(line),
{
    reveal_strlit("DEVICE");
    reveal_strlit("TARGET");
    assert forall|j: int| !#[trigger] drive_at(line, j) by {
        if drive_at(line, j) {
            let word = line.subrange(j, j + 6);
            assert(word[0] == line[j] && word[1] == line[j + 1] && word[2] == line[j + 2] && word[3]
                == line[j + 3]);
        }
    }
}

/// A line without a mark does not write to the drive.
proof fn lemma_no_mark(line: Seq<char>)
    requires
        forall|i: int|
            #![trigger line[i]]
            0 <= i < line.len() ==> line[i] != '>' && (i + 1 < line.len() ==> !(line[i] == 'o'
                && line[i + 1] == 'f')),
    ensures
        !writes_drive(line),
{
    reveal_strlit("of=");
    reveal_strlit(">");
    assert forall|i: int| !#[trigger] occurs_at(line, "of="@, i) by {
        if occurs_at(line, "of="@, i) {
            let mark = line.subrange(i, i + 3);
            assert(mark[0] == line[i] && mark[1] == line[i + 1]);
        }
    }
    assert forall|i: int| !#[trigger] occurs_at(line, ">"@, i) by {
        if occurs_at(line, ">"@, i) {
            assert(line.subrange(i, i + 1)[0] == line[i]);
        }
    }
}

/// A line whose marks stand before its text does not write to the drive, though
/// the text names it.
proof fn lemma_announcement(line: Seq<char>)
    requires
        line.len() > 10,
        !is_filler(line[10]),
        forall|i: int|
            #![trigger line[i]]
            0 <= i < line.len() ==> (line[i] == '>' ==> i < 10) && (i <= 10 ==> line[i] != 'D'
                && line[i] != 'T') && (i + 1 < line.len() ==> !(line[i] == 'o' && line[i + 1]
                == 'f')),
    ensures
        !writes_drive(line),
{
    reveal_strlit("of=");
    reveal_strlit(">");
    reveal_strlit("DEVICE");
    reveal_strlit("TARGET");
    assert forall|i: int| !#[trigger] occurs_at(line, "of="@, i) by {
        if occurs_at(line, "of="@, i) {
            let mark = line.subrange(i, i + 3);
            assert(mark[0] == line[i] && mark[1] == line[i + 1]);
        }
    }
    assert forall|i: int| #[trigger] occurs_at(line, ">"@, i) implies i < 10 by {
        assert(line.subrange(i, i + 1)[0] == line[i]);
    }
    assert forall|j: int| #[trigger] drive_at(line, j) implies j > 10 by {
        assert(line.subrange(j, j + 6)[0] == line[j]);
    }
}

/// A line that copies to the first or the second partition does write.
proof fn lemma_copies_write()
    ensures
        writes_drive(WRITE_BOOT@),
        writes_drive(WRITE_OS@),
{
    reveal_strlit("dd if=/dev/mapper/${MAPPER_BASE}p1 of=\"$TARGET_P1\" bs=4M status=progress conv=fsync");
    reveal_strlit("dd if=/dev/mapper/${MAPPER_BASE}p2 of=\"$TARGET_P2\" bs=4M status=progress conv=fsync");
    reveal_strlit("of=");
    reveal_strlit("TARGET");
    let i: int = 35;
    let j: int = 40;
    assert(WRITE_BOOT@.subrange(i, i + 3) =~= "of="@);
    assert(WRITE_BOOT@.subrange(j, j + 6) =~= "TARGET"@);
    assert(occurs_at(WRITE_BOOT@, "of="@, i) && drive_at(WRITE_BOOT@, j));
    assert(WRITE_OS@.subrange(i, i + 3) =~= "of="@);
    assert(WRITE_OS@.subrange(j, j + 6) =~= "TARGET"@);
    assert(occurs_at(WRITE_OS@, "of="@, i) && drive_at(WRITE_OS@, j));
}

/// What holds of the lines of the script, one by one.
proof fn lemma_flash_lines(drive: Seq<char>, image: Seq<char>)
    ensures
        forall|i: int|
            0 <= i < flash_lines(drive, image).len() ==> {
                let line = #[trigger] flash_lines(drive, image)[i];
                ||| line == drive_line(drive)
                ||| line == image_file_line(image)
                ||| line == WRITE_BOOT@
                ||| line == WRITE_OS@
                ||| !names_drive(line)
                ||| !writes_drive(line) && (names_partition(line) || line == DRIVE_KIND@ || line
                    == ANNOUNCE_BOOT@ || line == ANNOUNCE_OS@)
            },
{
    assert(!names_drive("set -euo pipefail"@)) by {
        reveal_strlit("set -euo pipefail");
        lemma_no_name("set -euo pipefail"@);
    }
    assert(!names_drive(""@)) by {
        reveal_strlit("");
        lemma_no_name(""@);
    }
    assert(!names_drive("echo \">>> Verifying image exists\""@)) by {
        reveal_strlit("echo \">>> Verifying image exists\"");
        lemma_no_name("echo \">>> Verifying image exists\""@);
    }
    assert(!names_drive("if [ ! -f \"$IMAGE\" ]; then"@)) by {
        reveal_strlit("if [ ! -f \"$IMAGE\" ]; then");
        lemma_no_name("if [ ! -f \"$IMAGE\" ]; then"@);
    }
    assert(!names_drive("    echo \"ERROR: Image not found at $IMAGE\""@)) by {
        reveal_strlit("    echo \"ERROR: Image not found at $IMAGE\"");
        lemma_no_name("    echo \"ERROR: Image not found at $IMAGE\""@);
    }
    assert(!names_drive("    echo \"Ensure the image is in the ./output directory (mounted at /build-images).\""@)) by {
        reveal_strlit("    echo \"Ensure the image is in the ./output directory (mounted at /build-images).\"");
        lemma_no_name("    echo \"Ensure the image is in the ./output directory (mounted at /build-images).\""@);
    }
    assert(!names_drive("    exit 1"@)) by {
        reveal_strlit("    exit 1");
        lemma_no_name("    exit 1"@);
    }
    assert(!names_drive("fi"@)) by {
        reveal_strlit("fi");
        lemma_no_name("fi"@);
    }
    assert(!names_drive("echo \">>> Attaching image via loopback\""@)) by {
        reveal_strlit("echo \">>> Attaching image via loopback\"");
        lemma_no_name("echo \">>> Attaching image via loopback\""@);
    }
    assert(!names_drive("kpartx -av \"$IMAGE\" 2>&1"@)) by {
        reveal_strlit("kpartx -av \"$IMAGE\" 2>&1");
        lemma_no_name("kpartx -av \"$IMAGE\" 2>&1"@);
    }
    assert(!names_drive("# Determine loop device"@)) by {
        reveal_strlit("# Determine loop device");
        lemma_no_name("# Determine loop device"@);
    }
    assert(!names_drive("LOOP_DEV=$(kpartx -l \"$IMAGE\" | head -1 | awk '{print $1}' | sed 's/p[0-9]//' | head -1)"@)) by {
        reveal_strlit("LOOP_DEV=$(kpartx -l \"$IMAGE\" | head -1 | awk '{print $1}' | sed 's/p[0-9]//' | head -1)");
        lemma_no_name("LOOP_DEV=$(kpartx -l \"$IMAGE\" | head -1 | awk '{print $1}' | sed 's/p[0-9]//' | head -1)"@);
    }
    assert(!names_drive("if [ -z \"$LOOP_DEV\" ]; then"@)) by {
        reveal_strlit("if [ -z \"$LOOP_DEV\" ]; then");
        lemma_no_name("if [ -z \"$LOOP_DEV\" ]; then"@);
    }
    assert(!names_drive("    LOOP_DEV=$(losetup --show -f \"$IMAGE\")"@)) by {
        reveal_strlit("    LOOP_DEV=$(losetup --show -f \"$IMAGE\")");
        lemma_no_name("    LOOP_DEV=$(losetup --show -f \"$IMAGE\")"@);
    }
    assert(!names_drive("    kpartx -av \"$LOOP_DEV\" 2>&1"@)) by {
        reveal_strlit("    kpartx -av \"$LOOP_DEV\" 2>&1");
        lemma_no_name("    kpartx -av \"$LOOP_DEV\" 2>&1"@);
    }
    assert(!names_drive("echo \">>> Loop device: $LOOP_DEV\""@)) by {
        reveal_strlit("echo \">>> Loop device: $LOOP_DEV\"");
        lemma_no_name("echo \">>> Loop device: $LOOP_DEV\""@);
    }
    assert(!names_drive("# Map partition names"@)) by {
        reveal_strlit("# Map partition names");
        lemma_no_name("# Map partition names"@);
    }
    assert(!names_drive("MAPPER_BASE=$(basename \"$LOOP_DEV\")"@)) by {
        reveal_strlit("MAPPER_BASE=$(basename \"$LOOP_DEV\")");
        lemma_no_name("MAPPER_BASE=$(basename \"$LOOP_DEV\")"@);
    }
    assert(!writes_drive("if [[ \"$DEVICE\" == /dev/nvme* ]] || [[ \"$DEVICE\" == /dev/mmcblk* ]] || [[ \"$DEVICE\" == /dev/loop* ]]; then"@)) by {
        reveal_strlit("if [[ \"$DEVICE\" == /dev/nvme* ]] || [[ \"$DEVICE\" == /dev/mmcblk* ]] || [[ \"$DEVICE\" == /dev/loop* ]]; then");
        lemma_no_mark("if [[ \"$DEVICE\" == /dev/nvme* ]] || [[ \"$DEVICE\" == /dev/mmcblk* ]] || [[ \"$DEVICE\" == /dev/loop* ]]; then"@);
    }
    assert(!writes_drive("    TARGET_P1=\"${DEVICE}p1\""@)) by {
        reveal_strlit("    TARGET_P1=\"${DEVICE}p1\"");
        lemma_no_mark("    TARGET_P1=\"${DEVICE}p1\""@);
    }
    assert(!writes_drive("    TARGET_P2=\"${DEVICE}p2\""@)) by {
        reveal_strlit("    TARGET_P2=\"${DEVICE}p2\"");
        lemma_no_mark("    TARGET_P2=\"${DEVICE}p2\""@);
    }
    assert(!names_drive("else"@)) by {
        reveal_strlit("else");
        lemma_no_name("else"@);
    }
    assert(!writes_drive("    TARGET_P1=\"${DEVICE}1\""@)) by {
        reveal_strlit("    TARGET_P1=\"${DEVICE}1\"");
        lemma_no_mark("    TARGET_P1=\"${DEVICE}1\""@);
    }
    assert(!writes_drive("    TARGET_P2=\"${DEVICE}2\""@)) by {
        reveal_strlit("    TARGET_P2=\"${DEVICE}2\"");
        lemma_no_mark("    TARGET_P2=\"${DEVICE}2\""@);
    }
    assert(!writes_drive("echo \">>> Flashing partition 1 (boot) to $TARGET_P1\""@)) by {
        reveal_strlit("echo \">>> Flashing partition 1 (boot) to $TARGET_P1\"");
        lemma_announcement("echo \">>> Flashing partition 1 (boot) to $TARGET_P1\""@);
    }
    assert(!writes_drive("echo \">>> Flashing partition 2 (OS) to $TARGET_P2\""@)) by {
        reveal_strlit("echo \">>> Flashing partition 2 (OS) to $TARGET_P2\"");
        lemma_announcement("echo \">>> Flashing partition 2 (OS) to $TARGET_P2\""@);
    }
    assert(!names_drive("echo \">>> Detaching loopback\""@)) by {
        reveal_strlit("echo \">>> Detaching loopback\"");
        lemma_no_name("echo \">>> Detaching loopback\""@);
    }
    assert(!names_drive("kpartx -dv \"$IMAGE\" 2>&1 || true"@)) by {
        reveal_strlit("kpartx -dv \"$IMAGE\" 2>&1 || true");
        lemma_no_name("kpartx -dv \"$IMAGE\" 2>&1 || true"@);
    }
    assert(!names_drive("losetup -d \"$LOOP_DEV\" 2>/dev/null || true"@)) by {
        reveal_strlit("losetup -d \"$LOOP_DEV\" 2>/dev/null || true");
        lemma_no_name("losetup -d \"$LOOP_DEV\" 2>/dev/null || true"@);
    }
    assert(!names_drive("echo \">>> Flash complete — kube-state partition (p3) preserved intact\""@)) by {
        reveal_strlit("echo \">>> Flash complete — kube-state partition (p3) preserved intact\"");
        lemma_no_name("echo \">>> Flash complete — kube-state partition (p3) preserved intact\""@);
    }
}

/// Flashing writes the boot partition and the system partition and nothing else.
/// Of the lines of its script only the two that copy them from the image write to
/// the drive. Apart from these, from the line that says which drive it is, and
/// from the name of the image file, the drive is named only where the names of
/// its first two partitions are found and where the copying is announced. So the
/// partition that holds the state of the cluster is left as it is.
pub proof fn lemma_flash_keeps_state(drive: Seq<char>, image: Seq<char>)
    ensures
        flash_lines(drive, image).contains(WRITE_BOOT@),
        flash_lines(drive, image).contains(WRITE_OS@),
        writes_drive(WRITE_BOOT@),
        writes_drive(WRITE_OS@),
        forall|i: int|
            0 <= i < flash_lines(drive, image).len() ==> {
                let line = #[trigger] flash_lines(drive, image)[i];
                line != drive_line(drive) && line != image_file_line(image) ==> {
                    &&& writes_drive(line) ==> line == WRITE_BOOT@ || line == WRITE_OS@
                    &&& names_drive(line) ==> {
                        ||| line == WRITE_BOOT@
                        ||| line == WRITE_OS@
                        ||| names_partition(line)
                        ||| line == DRIVE_KIND@
                        ||| line == ANNOUNCE_BOOT@
                        ||| line == ANNOUNCE_OS@
                    }
                }
            },
{
    let lines = flash_lines(drive, image);
    assert(lines[36] == WRITE_BOOT@);
    assert(lines[39] == WRITE_OS@);
    lemma_copies_write();
    lemma_flash_lines(drive, image);
}

impl DockerClient {
    /// The arguments with which `docker` is run to list the drives.
    pub fn list_disks_args(&self, host_path: &str) -> (r: Vec<String>)
        ensures
            texts(r@) == container_args(LIST_DISKS@, true, host_path@),
    {
        self.run_script(LIST_DISKS.to_string(), host_path)
    }

    /// Wipe, partition, and pre-seed a target drive: the arguments with which
    /// `docker` is run to do so.
    pub fn bootstrap_drive(
        &self,
        drive: &str,
        name: &str,
        role: &str,
        token: &str,
        server_ip: Option<&str>,
        ip: Option<&str>,
        gateway: Option<&str>,
        dns: Option<&str>,
        kube_uuid: &str,
        host_path: &str,
    ) -> (r: Vec<String>)
        ensures
            texts(r@) == container_args(
                bootstrap_script(
                    drive@,
                    (NodeSeed {
                        name: name@,
                        role: role@,
                        token: token@,
                        server_ip: seen(server_ip),
                        ip: seen(ip),
                        gateway: seen(gateway),
                        dns: seen(dns),
                        kube_uuid: kube_uuid@,
                    }),
                ),
                true,
                host_path@,
            ),
    {
        let url = match server_ip {
            Some(server) => concat3("https://", server, ":6443"),
            None => "".to_string(),
        };
        let agent = same(role, "agent");
        let server = same(role, "server");
        let joins = match server_ip {
            Some(_) => true,
            None => false,
        };
        let mut mode = concat3("KUBE_ROLE=\"", role, "\"\nNODE_NAME=\"");
        mode.append(name);
        mode.append("\"\n");
        let server_line = if agent && joins {
            concat3("SERVER_URL=\"", url.as_str(), "\"")
        } else {
            "".to_string()
        };
        mode.append(server_line.as_str());
        mode.append("\n");
        let mut config = concat3("token: \"", token, "\"\nnode-name: \"");
        config.append(name);
        config.append("\"\n");
        let extra = if server && !joins {
            "cluster-init: true".to_string()
        } else if agent && joins {
            concat3("server: \"", url.as_str(), "\"")
        } else {
            "".to_string()
        };
        config.append(extra.as_str());
        config.append("\n");

        let mut script = "set -euo pipefail\n\nDEVICE=\"".to_string();
        script.append(drive);
        script.append("\"\nKUBE_UUID=\"");
        script.append(kube_uuid);
        script.append("\"\nNODE_NAME=\"");
        script.append(name);
        script.append("\"\nKUBE_ROLE=\"");
        script.append(role);
        script.append("\"\nCLUSTER_TOKEN=\"");
        script.append(token);
        script.append("\"\nSERVER_URL=\"");
        script.append(url.as_str());
        script.append("\"\nNETCONF='");
        script.append(build_network_config(ip, gateway, dns).as_str());
        script.append("'\n");
        script.append(partitioning_script().as_str());
        script.append(NAME_PARTITIONS);
        script.append(FORMAT_PARTITIONS);
        script.append(SEED_STATE);
        script.append("cat > \"$TMPMNT/node-mode.env\" << 'EOF2'\n");
        script.append(mode.as_str());
        script.append("EOF2\n");
        script.append("\n# Write config.yaml for K3s\n");
        script.append("cat > \"$TMPMNT/etc/k3s/config.yaml\" << 'EOF3'\n");
        script.append(config.as_str());
        script.append("EOF3\n");
        script.append(FINISH_BOOTSTRAP);
        self.run_script(script, host_path)
    }

    /// The arguments with which `docker` is run to bootstrap a drive with these
    /// options. The drive and the token have been settled.
    pub fn bootstrap_args(
        &self,
        args: &BootstrapArgs,
        drive: &str,
        token: &str,
        host_path: &str,
    ) -> (r: Vec<String>)
        ensures
            texts(r@) == container_args(
                bootstrap_script(drive@, seed_of(*args, token@)),
                true,
                host_path@,
            ),
    {
        self.bootstrap_drive(
            drive,
            args.name.as_str(),
            args.role.as_str(),
            token,
            borrowed(&args.server_ip),
            borrowed(&args.ip),
            borrowed(&args.gateway),
            borrowed(&args.dns),
            args.kube_uuid.as_str(),
            host_path,
        )
    }

    /// Flash OS partitions (1 & 2) from a baked image, preserving partition 3
    /// (kube-state): the arguments with which `docker` is run to do so. `image`
    /// is the name of the file, which lies in the directory that `host_path`
    /// names.
    pub fn flash_drive(&self, drive: &str, image: &str, host_path: &str) -> (r: Vec<String>)
        ensures
            texts(r@) == container_args(
                joined(flash_lines(drive@, image@), "\n"@),
                true,
                host_path@,
            ),
    {
        let lines = flash_lines_of(drive, image);
        self.run_script(join(&lines, "\n"), host_path)
    }
}

/// Bootstrapping a drive writes the node's mode, the configuration of K3s and the
/// partitions as stated: the script that does so holds all three.
pub proof fn lemma_bootstrap_seeds(drive: Seq<char>, seed: NodeSeed<Seq<char>>)
    ensures
        contains(bootstrap_script(drive, seed), partitioning()),
        contains(
            bootstrap_script(drive, seed),
            "cat > \"$TMPMNT/node-mode.env\" << 'EOF2'\n"@ + node_mode_text(seed) + "EOF2\n"@,
        ),
        contains(
            bootstrap_script(drive, seed),
            "cat > \"$TMPMNT/etc/k3s/config.yaml\" << 'EOF3'\n"@ + k3s_config_text(seed)
                + "EOF3\n"@,
        ),
{
    let script = bootstrap_script(drive, seed);
    let head = bootstrap_head(drive, seed);
    assert(occurs_at(script, partitioning(), head.len() as int)) by {
        assert(script.subrange(head.len() as int, (head.len() + partitioning().len()) as int)
            =~= partitioning());
    }
    let seeded = head + partitioning() + NAME_PARTITIONS@ + FORMAT_PARTITIONS@ + SEED_STATE@;
    let open_mode = "cat > \"$TMPMNT/node-mode.env\" << 'EOF2'\n"@;
    let mode = open_mode + node_mode_text(seed) + "EOF2\n"@;
    assert(occurs_at(script, mode, seeded.len() as int)) by {
        assert(script.subrange(seeded.len() as int, (seeded.len() + mode.len()) as int) =~= mode);
    }
    let before = seeded + mode + "\n# Write config.yaml for K3s\n"@;
    let open_config = "cat > \"$TMPMNT/etc/k3s/config.yaml\" << 'EOF3'\n"@;
    let config = open_config + k3s_config_text(seed) + "EOF3\n"@;
    assert(occurs_at(script, config, before.len() as int)) by {
        assert(script.subrange(before.len() as int, (before.len() + config.len()) as int)
            =~= config);
    }
}

} // verus!
