//! Building the disk image of a node, on the host or in a container.

use vstd::prelude::*;
use crate::cli::BakeArgs;
use crate::config::{join_path, path_in};
use crate::docker::WORKER_IMAGE;
use crate::process::{streams, streams_text, ProcessOutput};
use crate::size::{humansize, size_with_two_places};
use crate::text::{
    concat2, concat3, contains, exit_text, exit_text_of, occurs_at, replace_char, replaced,
    succeeded, texts,
};

verus! {

/// The name of the image file.
pub const IMAGE_NAME: &'static str = "stateless-debian-kube.img";

/// Where a build leaves its image: under this name in the output directory.
/// `separator` stands between the parts of a path.
pub fn image_path(args: &BakeArgs, separator: char) -> (r: String)
    ensures
        r@ == path_in(args.output_dir@, IMAGE_NAME@, separator),
{
    join_path(args.output_dir.clone(), IMAGE_NAME, separator)
}

/// How the trial run of a program went. Its texts are `S`.
#[derive(Debug)]
pub enum Probe<S> {
    /// It could not be started.
    NotStarted,
    /// It ended.
    Ended(ProcessOutput<S>),
}

impl View for Probe<String> {
    type V = Probe<Seq<char>>;

    open spec fn view(&self) -> Probe<Seq<char>> {
        match *self {
            Probe::NotStarted => Probe::NotStarted,
            Probe::Ended(output) => Probe::Ended(output@),
        }
    }
}

impl Probe<Seq<char>> {
    /// Whether the program can be used.
    pub open spec fn works(self) -> bool {
        self matches Probe::Ended(output) && output.code == Some(0i32)
    }
}

impl Probe<String> {
    /// Whether the program can be used.
    pub fn found(&self) -> (r: bool)
        ensures
            r == self@.works(),
    {
        match self {
            Probe::NotStarted => false,
            Probe::Ended(output) => succeeded(output.code),
        }
    }
}

/// What is said when there is nothing to build an image with.
pub const NO_BUILDER: &'static str = "Nix is not installed and Docker is not available.\nInstall Nix: https://nixos.org/download.html\nOr install Docker Desktop for Nix-in-Docker fallback.";

/// Why Docker cannot be used. Its texts are `S`.
#[derive(Debug)]
pub enum DockerFault<S> {
    NotAccessible,
    NotRunning { stdout: S, stderr: S },
}

impl View for DockerFault<String> {
    type V = DockerFault<Seq<char>>;

    open spec fn view(&self) -> DockerFault<Seq<char>> {
        match *self {
            DockerFault::NotAccessible => DockerFault::NotAccessible,
            DockerFault::NotRunning { stdout, stderr } => DockerFault::NotRunning {
                stdout: stdout@,
                stderr: stderr@,
            },
        }
    }
}

impl DockerFault<Seq<char>> {
    /// What is said of the fault.
    pub open spec fn text(self) -> Seq<char> {
        match self {
            DockerFault::NotAccessible => "Docker daemon not accessible"@,
            DockerFault::NotRunning { stdout, stderr } => "Docker daemon is not running"@
                + streams_text(stdout, stderr),
        }
    }
}

impl DockerFault<String> {
    /// What is said of the fault.
    pub fn message(&self) -> (r: String)
        ensures
            r@ == self@.text(),
    {
        match self {
            DockerFault::NotAccessible => "Docker daemon not accessible".to_string(),
            DockerFault::NotRunning { stdout, stderr } => concat2(
                "Docker daemon is not running",
                streams(stdout.as_str(), stderr.as_str()).as_str(),
            ),
        }
    }
}

/// What the search for a way to build images came to.
#[derive(Debug)]
pub enum Setup {
    Ready(PackerManager),
    /// Docker has to be tried.
    TryDocker,
    Failed(DockerFault<String>),
}

/// Builds images with Nix, from the host or from a container.
#[derive(Debug, Clone, Copy)]
pub struct PackerManager {
    pub use_docker: bool,
}

impl PackerManager {
    /// Nix on the host comes first; Docker is tried only where there is none.
    pub fn new(nix: &Probe<String>, docker: Option<Probe<String>>) -> (r: Setup)
        ensures
            match r {
                Setup::Ready(packer) => if nix@.works() {
                    !packer.use_docker
                } else {
                    packer.use_docker && docker is Some && docker->0@.works()
                },
                Setup::TryDocker => !nix@.works() && docker is None,
                Setup::Failed(fault) => !nix@.works() && docker is Some && !docker->0@.works()
                    && fault@ == (match docker->0@ {
                    Probe::NotStarted => DockerFault::NotAccessible,
                    Probe::Ended(o) => DockerFault::NotRunning {
                        stdout: o.stdout,
                        stderr: o.stderr,
                    },
                }),
            },
    {
        if nix.found() {
            return Setup::Ready(PackerManager { use_docker: false });
        }
        match docker {
            None => Setup::TryDocker,
            Some(Probe::NotStarted) => Setup::Failed(DockerFault::NotAccessible),
            Some(Probe::Ended(o)) => if succeeded(o.code) {
                Setup::Ready(PackerManager { use_docker: true })
            } else {
                Setup::Failed(DockerFault::NotRunning { stdout: o.stdout, stderr: o.stderr })
            },
        }
    }

    /// How an image is built: not at all if it is there already (`present`),
    /// unless the build is forced.
    pub fn build_image(&self, args: &BakeArgs, present: bool, separator: char) -> (r: Build)
        ensures
            r@ == BuildView::start(
                if present && !args.force {
                    Stage::Kept
                } else if self.use_docker {
                    Stage::Container
                } else {
                    Stage::Closure
                },
                path_in(args.output_dir@, IMAGE_NAME@, separator),
            ),
    {
        let stage = if present && !args.force {
            Stage::Kept
        } else if self.use_docker {
            Stage::Container
        } else {
            Stage::Closure
        };
        Build {
            stage,
            image: image_path(args, separator),
            output: ProcessOutput { stdout: String::new(), stderr: String::new(), code: None },
            bytes: 0,
            fault: String::new(),
        }
    }
}

/// Why a build failed.
#[derive(Debug, Clone, Copy, PartialEq, Eq, Structural)]
pub enum BuildError {
    Closure(Option<i32>),
    InstallTools,
    Assembly,
    Container(Option<i32>),
    NoImage,
    /// The image cannot be measured. Why is told apart from this.
    Unreadable,
}

impl BuildError {
    /// What is said of the failure. `fault` says why the image cannot be
    /// measured.
    pub open spec fn text(self, fault: Seq<char>) -> Seq<char> {
        match self {
            BuildError::Closure(code) => "nix build failed with exit code: "@ + exit_text(code),
            BuildError::InstallTools => "Failed to build nixos-install-tools"@,
            BuildError::Assembly => "Image assembly in Docker failed"@,
            BuildError::Container(code) => "Nix build via Docker failed with exit code: "@
                + exit_text(code),
            BuildError::NoImage => "Docker build completed but output not found"@,
            BuildError::Unreadable => fault,
        }
    }

    /// What is said of the failure. `fault` says why the image cannot be
    /// measured.
    pub fn message(self, fault: &str) -> (r: String)
        ensures
            r@ == self.text(fault@),
    {
        match self {
            BuildError::Closure(code) => concat2(
                "nix build failed with exit code: ",
                exit_text_of(code).as_str(),
            ),
            BuildError::InstallTools => "Failed to build nixos-install-tools".to_string(),
            BuildError::Assembly => "Image assembly in Docker failed".to_string(),
            BuildError::Container(code) => concat2(
                "Nix build via Docker failed with exit code: ",
                exit_text_of(code).as_str(),
            ),
            BuildError::NoImage => "Docker build completed but output not found".to_string(),
            BuildError::Unreadable => fault.to_string(),
        }
    }
}

/// Where a build stands.
#[derive(Debug, Clone, Copy, PartialEq, Eq, Structural)]
pub enum Stage {
    /// The system is built on the host.
    Closure,
    /// The tools that install it are built on the host.
    InstallTools,
    /// The image is put together in a worker container.
    Assembly,
    /// All of it is done in one container.
    Container,
    /// The container that does all of it has done its work; the image is looked
    /// for.
    Look,
    /// The image is measured.
    Measure,
    Built,
    /// The image was there already.
    Kept,
    Failed(BuildError),
}

/// What happened to what a build asked for. Its texts are `S`.
#[derive(Debug)]
pub enum BuildReply<S> {
    /// The program ended.
    Ended(ProcessOutput<S>),
    /// The image is there, or not.
    Image(bool),
    /// The number of bytes in the image, or why it cannot be measured.
    Size(Result<u64, S>),
}

impl View for BuildReply<String> {
    type V = BuildReply<Seq<char>>;

    open spec fn view(&self) -> BuildReply<Seq<char>> {
        match *self {
            BuildReply::Ended(output) => BuildReply::Ended(output@),
            BuildReply::Image(there) => BuildReply::Image(there),
            BuildReply::Size(Ok(bytes)) => BuildReply::Size(Ok(bytes)),
            BuildReply::Size(Err(fault)) => BuildReply::Size(Err(fault@)),
        }
    }
}

impl Stage {
    /// Whether nothing is left to do.
    pub open spec fn over(self) -> bool {
        self is Built || self is Kept || self is Failed
    }

    /// Whether the reply answers what the stage asks for.
    pub open spec fn fits(self, reply: BuildReply<Seq<char>>) -> bool {
        match self {
            Stage::Look => reply is Image,
            Stage::Measure => reply is Size,
            _ => !self.over() && reply is Ended,
        }
    }

    /// The stage that follows.
    pub open spec fn after(self, reply: BuildReply<Seq<char>>) -> Stage {
        match (self, reply) {
            (Stage::Closure, BuildReply::Ended(o)) => if o.code == Some(0i32) {
                Stage::InstallTools
            } else {
                Stage::Failed(BuildError::Closure(o.code))
            },
            (Stage::InstallTools, BuildReply::Ended(o)) => if o.code == Some(0i32) {
                Stage::Assembly
            } else {
                Stage::Failed(BuildError::InstallTools)
            },
            (Stage::Assembly, BuildReply::Ended(o)) => if o.code == Some(0i32) {
                Stage::Measure
            } else {
                Stage::Failed(BuildError::Assembly)
            },
            (Stage::Container, BuildReply::Ended(o)) => if o.code == Some(0i32) {
                Stage::Look
            } else {
                Stage::Failed(BuildError::Container(o.code))
            },
            (Stage::Look, BuildReply::Image(there)) => if there {
                Stage::Measure
            } else {
                Stage::Failed(BuildError::NoImage)
            },
            (Stage::Measure, BuildReply::Size(size)) => if size is Ok {
                Stage::Built
            } else {
                Stage::Failed(BuildError::Unreadable)
            },
            _ => self,
        }
    }

    /// An upper bound on the replies that a build still takes.
    pub open spec fn left(self) -> nat {
        match self {
            Stage::Closure => 4,
            Stage::InstallTools => 3,
            Stage::Assembly => 2,
            Stage::Container => 3,
            Stage::Look => 2,
            Stage::Measure => 1,
            Stage::Built => 0,
            Stage::Kept => 0,
            Stage::Failed(_) => 0,
        }
    }
}

/// A build under way.
#[derive(Debug)]
pub struct Build {
    pub stage: Stage,
    /// Where the image comes to lie.
    pub image: String,
    /// What the last program printed.
    pub output: ProcessOutput<String>,
    /// How large the image is, once it is built.
    pub bytes: u64,
    /// Why the image cannot be measured, if that is so.
    pub fault: String,
}

/// The texts of a [`Build`].
#[verifier::ext_equal]
pub struct BuildView {
    pub stage: Stage,
    pub image: Seq<char>,
    pub output: ProcessOutput<Seq<char>>,
    pub bytes: u64,
    pub fault: Seq<char>,
}

impl View for Build {
    type V = BuildView;

    open spec fn view(&self) -> BuildView {
        BuildView {
            stage: self.stage,
            image: self.image@,
            output: self.output@,
            bytes: self.bytes,
            fault: self.fault@,
        }
    }
}

impl BuildView {
    /// A build of this image that starts at this stage.
    pub open spec fn start(stage: Stage, image: Seq<char>) -> BuildView {
        BuildView {
            stage,
            image,
            output: ProcessOutput { stdout: Seq::empty(), stderr: Seq::empty(), code: None },
            bytes: 0,
            fault: Seq::empty(),
        }
    }

    /// The build after a reply. One that does not fit changes nothing.
    pub open spec fn after(self, reply: BuildReply<Seq<char>>) -> BuildView {
        if self.stage.fits(reply) {
            let next = BuildView { stage: self.stage.after(reply), ..self };
            match reply {
                BuildReply::Ended(output) => BuildView { output, ..next },
                BuildReply::Image(_) => next,
                BuildReply::Size(Ok(bytes)) => BuildView { bytes, ..next },
                BuildReply::Size(Err(fault)) => BuildView { fault, ..next },
            }
        } else {
            self
        }
    }

    /// What is reported of a failure: what is said of it and, where a program has
    /// failed, all that it printed.
    pub open spec fn report(self) -> Seq<char> {
        let e = self.stage->Failed_0;
        if e is NoImage || e is Unreadable {
            e.text(self.fault)
        } else {
            e.text(self.fault) + streams_text(self.output.stdout, self.output.stderr)
        }
    }
}

impl Build {
    /// Takes up what happened to what the stage asked for. A reply to something
    /// else changes nothing.
    pub fn advance(&mut self, reply: BuildReply<String>)
        ensures
            final(self)@ == old(self)@.after(reply@),
    {
        match reply {
            BuildReply::Ended(output) => {
                let ok = succeeded(output.code);
                let stage = match self.stage {
                    Stage::Closure => if ok {
                        Stage::InstallTools
                    } else {
                        Stage::Failed(BuildError::Closure(output.code))
                    },
                    Stage::InstallTools => if ok {
                        Stage::Assembly
                    } else {
                        Stage::Failed(BuildError::InstallTools)
                    },
                    Stage::Assembly => if ok {
                        Stage::Measure
                    } else {
                        Stage::Failed(BuildError::Assembly)
                    },
                    Stage::Container => if ok {
                        Stage::Look
                    } else {
                        Stage::Failed(BuildError::Container(output.code))
                    },
                    _ => {
                        return;
                    },
                };
                self.stage = stage;
                self.output = output;
            },
            BuildReply::Image(there) => {
                if let Stage::Look = self.stage {
                    self.stage = if there {
                        Stage::Measure
                    } else {
                        Stage::Failed(BuildError::NoImage)
                    };
                }
            },
            BuildReply::Size(size) => {
                if let Stage::Measure = self.stage {
                    match size {
                        Ok(bytes) => {
                            self.stage = Stage::Built;
                            self.bytes = bytes;
                        },
                        Err(fault) => {
                            self.stage = Stage::Failed(BuildError::Unreadable);
                            self.fault = fault;
                        },
                    }
                }
            },
        }
    }

    /// What the build came to, once it is over: where the image is, or a report
    /// of the failure.
    pub fn result(&self) -> (r: Option<Result<String, String>>)
        ensures
            match r {
                None => !self.stage.over(),
                Some(Ok(path)) => (self.stage is Built || self.stage is Kept) && path@
                    == self@.image,
                Some(Err(report)) => self.stage is Failed && report@ == self@.report(),
            },
    {
        match self.stage {
            Stage::Built => Some(Ok(self.image.clone())),
            Stage::Kept => Some(Ok(self.image.clone())),
            Stage::Failed(e) => {
                let mut report = e.message(self.fault.as_str());
                let of_program = match e {
                    BuildError::NoImage | BuildError::Unreadable => false,
                    _ => true,
                };
                if of_program {
                    report.append(
                        streams(self.output.stdout.as_str(), self.output.stderr.as_str()).as_str(),
                    );
                }
                Some(Err(report))
            },
            _ => None,
        }
    }
}

/// Every reply that fits brings a build closer to its end, so a build on the host
/// takes four of them at most and one in a container three.
pub proof fn lemma_build_ends(stage: Stage, reply: BuildReply<Seq<char>>)
    requires
        stage.fits(reply),
    ensures
        stage.after(reply).left() < stage.left(),
        stage.left() == 0 <==> stage.over(),
        Stage::Closure.left() == 4,
        Stage::Container.left() == 3,
{
}

/// A build fails with the first program that does not end well, and an image
/// counts as built only if it could be measured, so that it is there.
pub proof fn lemma_failure_fails_build(stage: Stage, reply: BuildReply<Seq<char>>)
    requires
        stage.fits(reply),
    ensures
        stage.after(reply) is Failed <==> match reply {
            BuildReply::Ended(o) => o.code != Some(0i32),
            BuildReply::Image(there) => !there,
            BuildReply::Size(size) => size is Err,
        },
        stage.after(reply) is Built ==> reply matches BuildReply::Size(Ok(_)),
{
}

/// What a program printed is reported when the program fails.
pub proof fn lemma_failed_output_is_reported(
    build: BuildView,
    output: ProcessOutput<Seq<char>>,
)
    requires
        build.stage.fits(BuildReply::Ended(output)),
        output.code != Some(0i32),
    ensures
        ({
            let next = build.after(BuildReply::Ended(output));
            &&& next.stage is Failed
            &&& next.report() == next.stage->Failed_0.text(next.fault) + streams_text(
                output.stdout,
                output.stderr,
            )
        }),
{
}

/// A build that is over stays as it is, and a build leaves its image where it
/// said at first.
pub proof fn lemma_build_result_is_final(build: BuildView, reply: BuildReply<Seq<char>>)
    ensures
        build.stage.over() ==> build.after(reply) == build,
        build.after(reply).image == build.image,
{
}

/// The arguments with which `nix` builds the system of a node.
pub open spec fn closure_args_text(out_link: Seq<char>, flake_dir: Seq<char>) -> Seq<Seq<char>> {
    seq![
        "build"@,
        "--no-sandbox"@,
        "--out-link"@,
        out_link,
        flake_dir + "#nixosConfigurations.pifrost-node.config.system.build.toplevel"@,
    ]
}

/// The arguments with which `nix` builds the system of a node.
pub fn closure_args(out_link: &str, flake_dir: &str) -> (r: Vec<String>)
    ensures
        texts(r@) == closure_args_text(out_link@, flake_dir@),
{
    let mut args: Vec<String> = Vec::new();
    args.push("build".to_string());
    args.push("--no-sandbox".to_string());
    args.push("--out-link".to_string());
    args.push(out_link.to_string());
    args.push(
        concat2(
            flake_dir,
            "#nixosConfigurations.pifrost-node.config.system.build.toplevel",
        ),
    );
    assert(texts(args@) =~= closure_args_text(out_link@, flake_dir@));
    args
}

/// The arguments with which `nix` builds the tools that install a system.
pub open spec fn install_tools_args_text(out_link: Seq<char>) -> Seq<Seq<char>> {
    seq!["build"@, "--no-sandbox"@, "--out-link"@, out_link, "nixpkgs#nixos-install-tools"@]
}

/// The arguments with which `nix` builds the tools that install a system.
pub fn install_tools_args(out_link: &str) -> (r: Vec<String>)
    ensures
        texts(r@) == install_tools_args_text(out_link@),
{
    let mut args: Vec<String> = Vec::new();
    args.push("build".to_string());
    args.push("--no-sandbox".to_string());
    args.push("--out-link".to_string());
    args.push(out_link.to_string());
    args.push("nixpkgs#nixos-install-tools".to_string());
    assert(texts(args@) =~= install_tools_args_text(out_link@));
    args
}

/// The part of the script for a container with Nix that builds what the image is
/// made of.
pub const NIX_PARTS: &'static str = r#"set -eux

cd /host-project
git add flake.nix nix/ 2>/dev/null || true

echo "=== Building NixOS system closure ==="
nix build --no-sandbox --out-link /host-output/closure \
  .#nixosConfigurations.pifrost-node.config.system.build.toplevel

echo "=== Building nixos-install-tools ==="
nix build --no-sandbox --out-link /host-output/install-tools \
  nixpkgs#nixos-install-tools

echo "=== Building disk utilities ==="
mkdir -p /host-output/tools/bin
for pkg in parted e2fsprogs dosfstools utillinux rsync gnused; do
  nix build --no-sandbox --out-link "/host-output/tools/$pkg" "nixpkgs#$pkg" 2>&1
  if [ -d "/host-output/tools/$pkg/bin" ]; then
    cp -r "/host-output/tools/$pkg/bin/"* /host-output/tools/bin/ 2>/dev/null || true
  fi
done
export PATH="/host-output/tools/bin:$PATH"

echo "=== Creating raw disk image ==="
"#;

/// The part of that script that makes the image, behind the name of its file.
pub const NIX_IMAGE: &'static str = r#"
rm -f "$DISK_IMAGE"
dd if=/dev/zero of="$DISK_IMAGE" bs=1M count=5000 status=progress

echo "=== Partitioning ==="
parted -s "$DISK_IMAGE" mklabel gpt
parted -s "$DISK_IMAGE" mkpart primary fat32 1MiB 513MiB
parted -s "$DISK_IMAGE" set 1 esp on
parted -s "$DISK_IMAGE" set 1 boot on
parted -s "$DISK_IMAGE" mkpart primary ext4 513MiB 100%

echo "=== Setting up loopback ==="
LOOP=$(losetup --show -f "$DISK_IMAGE")
kpartx -av "$LOOP"
sleep 1
P1=/dev/mapper/$(basename "$LOOP")p1
P2=/dev/mapper/$(basename "$LOOP")p2

echo "=== Formatting ==="
mkfs.vfat -F 32 -n "system-boot" "$P1"
mkfs.ext4 -F -L "writable" "$P2"

echo "=== Mounting ==="
mkdir -p /mnt/root
mount "$P2" /mnt/root
mkdir -p /mnt/root/boot
mount "$P1" /mnt/root/boot

echo "=== Installing NixOS to image ==="
CLOSURE=$(readlink /host-output/closure)
INSTALL_TOOLS=$(readlink /host-output/install-tools)

# nixos-install copies the closure, runs activation, sets up bootloader
"$INSTALL_TOOLS/bin/nixos-install" \
  --root /mnt/root \
  --system "$CLOSURE" \
  --no-root-password \
  --no-bootloader 2>&1

if [ $? -ne 0 ]; then
  echo "WARNING: nixos-install had issues (continuing)"
fi

echo "=== Installing systemd-boot manually ==="
# Find systemd-boot in the closure
SYSTEMD_BOOT=$(find "$CLOSURE" -name "systemd-boot*.efi" -type f | head -1)
if [ -n "$SYSTEMD_BOOT" ]; then
  BOOTNAME=$(basename "$SYSTEMD_BOOT" | sed 's/systemd-boot/BOOT/')
  mkdir -p /mnt/root/boot/EFI/systemd /mnt/root/boot/EFI/BOOT
  cp "$SYSTEMD_BOOT" /mnt/root/boot/EFI/systemd/
  cp "$SYSTEMD_BOOT" "/mnt/root/boot/EFI/BOOT/$BOOTNAME"

  # Generate loader config
  mkdir -p /mnt/root/boot/loader/entries
  cat > /mnt/root/boot/loader/loader.conf << 'LOADER'
default nixos
timeout 5
console-mode max
editor no
LOADER

  CLOSURE_NAME=$(basename "$CLOSURE")
  cat > /mnt/root/boot/loader/entries/nixos.conf << 'ENTRY'
title NixOS
linux /nix/store/CLOSURE_NAME/kernel
initrd /nix/store/CLOSURE_NAME/initrd
options init=/nix/store/CLOSURE_NAME/init loglevel=4
ENTRY
  sed -i "s|CLOSURE_NAME|$CLOSURE_NAME|g" /mnt/root/boot/loader/entries/nixos.conf
fi

echo "=== Cleaning up ==="
sync
umount /mnt/root/boot 2>/dev/null || true
umount /mnt/root 2>/dev/null || true
kpartx -dv "$LOOP" 2>/dev/null || true
losetup -d "$LOOP" 2>/dev/null || true

cp "$DISK_IMAGE" /host-output/"#;

/// The end of that script.
pub const NIX_END: &'static str = r#"
echo "=== Image built successfully ==="
"#;

/// The script that builds the whole image in a container that has Nix.
pub open spec fn nix_script() -> Seq<char> {
    NIX_PARTS@ + "DISK_IMAGE=/host-output/"@ + IMAGE_NAME@ + NIX_IMAGE@ + IMAGE_NAME@
        + ".final\nmv /host-output/"@ + IMAGE_NAME@ + ".final /host-output/"@ + IMAGE_NAME@
        + NIX_END@
}

/// The script that builds the whole image in a container that has Nix.
pub fn nix_build() -> (r: String)
    ensures
        r@ == nix_script(),
{
    let mut r = concat3(NIX_PARTS, "DISK_IMAGE=/host-output/", IMAGE_NAME);
    r.append(NIX_IMAGE);
    r.append(IMAGE_NAME);
    r.append(".final\nmv /host-output/");
    r.append(IMAGE_NAME);
    r.append(".final /host-output/");
    r.append(IMAGE_NAME);
    r.append(NIX_END);
    r
}

/// The arguments with which `docker` builds the whole image.
pub open spec fn nix_container_args_text(host_project: Seq<char>, host_output: Seq<char>) -> Seq<
    Seq<char>,
> {
    seq![
        "run"@,
        "--rm"@,
        "--privileged"@,
        "-v"@,
        host_project + ":/host-project"@,
        "-v"@,
        host_output + ":/host-output"@,
        "-e"@,
        "NIX_CONFIG=experimental-features = nix-command flakes"@,
        "nixos/nix"@,
        "/bin/sh"@,
        "-c"@,
        nix_script(),
    ]
}

/// The arguments with which `docker` builds the whole image.
pub fn nix_container_args(host_project: &str, host_output: &str) -> (r: Vec<String>)
    ensures
        texts(r@) == nix_container_args_text(host_project@, host_output@),
{
    let mut args: Vec<String> = Vec::new();
    args.push("run".to_string());
    args.push("--rm".to_string());
    args.push("--privileged".to_string());
    args.push("-v".to_string());
    args.push(concat2(host_project, ":/host-project"));
    args.push("-v".to_string());
    args.push(concat2(host_output, ":/host-output"));
    args.push("-e".to_string());
    args.push("NIX_CONFIG=experimental-features = nix-command flakes".to_string());
    args.push("nixos/nix".to_string());
    args.push("/bin/sh".to_string());
    args.push("-c".to_string());
    args.push(nix_build());
    assert(texts(args@) =~= nix_container_args_text(host_project@, host_output@));
    args
}

/// The script that puts the image together, behind the name of its file.
pub const ASSEMBLY: &'static str = r#"
rm -f "$DISK_IMAGE"
dd if=/dev/zero of="$DISK_IMAGE" bs=1M count=5000 status=progress

parted -s "$DISK_IMAGE" mklabel gpt
parted -s "$DISK_IMAGE" mkpart primary fat32 1MiB 513MiB
parted -s "$DISK_IMAGE" set 1 esp on
parted -s "$DISK_IMAGE" set 1 boot on
parted -s "$DISK_IMAGE" mkpart primary ext4 513MiB 100%

LOOP=$(losetup --show -f "$DISK_IMAGE")
kpartx -av "$LOOP"
sleep 1
P1=/dev/mapper/$(basename "$LOOP")p1
P2=/dev/mapper/$(basename "$LOOP")p2

mkfs.vfat -F 32 -n "system-boot" "$P1"
mkfs.ext4 -F -L "writable" "$P2"

mkdir -p /mnt/root
mount "$P2" /mnt/root
mkdir -p /mnt/root/boot
mount "$P1" /mnt/root/boot

# Copy store contents
mkdir -p /mnt/root/nix/store
cp -a /build-images/result/. /mnt/root/nix/store/

CLOSURE=$(find /mnt/root/nix/store -maxdepth 1 -name "*-nixos-system-*" | head -1)
if [ -z "$CLOSURE" ]; then
  echo "ERROR: system closure not found in store"
  exit 1
fi

CLOSURE_NAME=$(basename "$CLOSURE")

# Create system profile
mkdir -p /mnt/root/nix/var/nix/profiles/system-1-link
ln -sfn /nix/store/$CLOSURE_NAME /mnt/root/nix/var/nix/profiles/system-1-link
ln -sfn system-1-link /mnt/root/nix/var/nix/profiles/system
mkdir -p /mnt/root/nix/var/nix/profiles/per-user/root

mkdir -p /mnt/root/etc
echo "NixOS" > /mnt/root/etc/NIXOS

# Install systemd-boot
SYSTEMD_BOOT=$(find "$CLOSURE" -name "systemd-boot*.efi" -type f | head -1)
if [ -n "$SYSTEMD_BOOT" ]; then
  BOOTNAME=$(basename "$SYSTEMD_BOOT" | sed 's/systemd-boot/BOOT/')
  mkdir -p /mnt/root/boot/EFI/systemd /mnt/root/boot/EFI/BOOT
  cp "$SYSTEMD_BOOT" /mnt/root/boot/EFI/systemd/
  cp "$SYSTEMD_BOOT" "/mnt/root/boot/EFI/BOOT/$BOOTNAME"

  mkdir -p /mnt/root/boot/loader/entries
  cat > /mnt/root/boot/loader/loader.conf << 'LOADER'
default nixos
timeout 5
console-mode max
editor no
LOADER

  cat > /mnt/root/boot/loader/entries/nixos.conf << 'ENTRY'
title NixOS
linux /nix/store/CLOSURE_NAME/kernel
initrd /nix/store/CLOSURE_NAME/initrd
options init=/nix/store/CLOSURE_NAME/init loglevel=4
ENTRY
  sed -i "s|CLOSURE_NAME|$CLOSURE_NAME|g" /mnt/root/boot/loader/entries/nixos.conf
fi

sync
umount /mnt/root/boot 2>/dev/null || true
umount /mnt/root 2>/dev/null || true
kpartx -dv "$LOOP" 2>/dev/null || true
losetup -d "$LOOP" 2>/dev/null || true
echo "=== Image built ==="
"#;

/// The script that puts the image together.
pub open spec fn assembly_script() -> Seq<char> {
    "set -eux\n"@ + "DISK_IMAGE=/build-images/"@ + IMAGE_NAME@ + ASSEMBLY@
}

/// The arguments with which `docker` puts the image together.
pub open spec fn assembly_args_text(host_output: Seq<char>) -> Seq<Seq<char>> {
    seq![
        "run"@,
        "--rm"@,
        "--privileged"@,
        "-v"@,
        host_output + ":/build-images"@,
        "--entrypoint"@,
        "/bin/bash"@,
        WORKER_IMAGE@,
        "-c"@,
        assembly_script(),
    ]
}

/// The arguments with which `docker` puts the image together. Loop devices need
/// root, so this runs in a container for a build on the host too.
pub fn assembly_args(host_output: &str) -> (r: Vec<String>)
    ensures
        texts(r@) == assembly_args_text(host_output@),
{
    let mut args: Vec<String> = Vec::new();
    args.push("run".to_string());
    args.push("--rm".to_string());
    args.push("--privileged".to_string());
    args.push("-v".to_string());
    args.push(concat2(host_output, ":/build-images"));
    args.push("--entrypoint".to_string());
    args.push("/bin/bash".to_string());
    args.push(WORKER_IMAGE.to_string());
    args.push("-c".to_string());
    let mut script = concat3("set -eux\n", "DISK_IMAGE=/build-images/", IMAGE_NAME);
    script.append(ASSEMBLY);
    args.push(script);
    assert(texts(args@) =~= assembly_args_text(host_output@));
    args
}

/// Both ways to build leave the image under its one name in the directory that is
/// mounted for the output.
pub proof fn lemma_scripts_write_image()
    ensures
        contains(nix_script(), "DISK_IMAGE=/host-output/"@ + IMAGE_NAME@),
        contains(
            nix_script(),
            ".final\nmv /host-output/"@ + IMAGE_NAME@ + ".final /host-output/"@ + IMAGE_NAME@
                + NIX_END@,
        ),
        contains(assembly_script(), "DISK_IMAGE=/build-images/"@ + IMAGE_NAME@),
{
    let script = nix_script();
    let first = "DISK_IMAGE=/host-output/"@ + IMAGE_NAME@;
    let at = NIX_PARTS@.len() as int;
    assert(occurs_at(script, first, at)) by {
        assert(script.subrange(at, at + first.len()) =~= first);
    }
    let last = ".final\nmv /host-output/"@ + IMAGE_NAME@ + ".final /host-output/"@ + IMAGE_NAME@
        + NIX_END@;
    let tail = at + first.len() + NIX_IMAGE@.len() + IMAGE_NAME@.len();
    assert(occurs_at(script, last, tail)) by {
        assert(script.subrange(tail, tail + last.len()) =~= last);
    }
    let host = assembly_script();
    let named = "DISK_IMAGE=/build-images/"@ + IMAGE_NAME@;
    let begin = "set -eux\n"@.len() as int;
    assert(occurs_at(host, named, begin)) by {
        assert(host.subrange(begin, begin + named.len()) =~= named);
    }
}

/// What is said of a finished image.
pub fn image_line(path: &str, bytes: u64) -> (r: String)
    ensures
        r@ == "Image built: "@ + path@ + " ("@ + size_with_two_places(bytes as nat) + ")"@,
{
    let mut r = concat3("Image built: ", path, " (");
    r.append(humansize(bytes).as_str());
    r.append(")");
    r
}

/// What is said of an image that is not built anew.
pub fn reuse_line(path: &str) -> (r: String)
    ensures
        r@ == "Output image already exists at "@ + path@ + " (use --force to rebuild)"@,
{
    concat3("Output image already exists at ", path, " (use --force to rebuild)")
}

/// A directory, and whether it holds `flake.nix`.
#[derive(Debug)]
pub struct FlakePlace {
    pub directory: String,
    pub holds_flake: bool,
}

/// What is said when no directory holds `flake.nix`.
pub const NO_FLAKE: &'static str = "Cannot locate flake.nix in current directory or executable directory";

/// The directory of `flake.nix`, with slashes between its parts: the current one
/// comes before that of the program. There is none if neither holds the file.
pub fn resolve_flake_dir(current: &FlakePlace, program: Option<&FlakePlace>) -> (r: Option<String>)
    ensures
        match r {
            Some(dir) => if current.holds_flake {
                dir@ == replaced(current.directory@, '\\', '/')
            } else {
                &&& program is Some
                &&& program->0.holds_flake
                &&& dir@ == replaced(program->0.directory@, '\\', '/')
            },
            None => !current.holds_flake && (program is Some ==> !program->0.holds_flake),
        },
{
    if current.holds_flake {
        return Some(replace_char(current.directory.as_str(), '\\', '/'));
    }
    if let Some(p) = program {
        if p.holds_flake {
            return Some(replace_char(p.directory.as_str(), '\\', '/'));
        }
    }
    None
}

} // verus!
