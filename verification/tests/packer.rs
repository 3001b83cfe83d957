use pifrost::cli::BakeArgs;
use pifrost::packer::{
    assembly_args, closure_args, image_line, image_path, install_tools_args, nix_build,
    nix_container_args, resolve_flake_dir, reuse_line, Build, BuildError, BuildReply,
    FlakePlace, PackerManager, Probe, Setup, Stage, IMAGE_NAME, NO_BUILDER, NO_FLAKE,
};
use pifrost::process::ProcessOutput;

fn args(force: bool) -> BakeArgs {
    BakeArgs {
        arch: "amd64".to_string(),
        kube_uuid: "u".to_string(),
        output_dir: "./output".to_string(),
        force,
    }
}

fn tried(code: Option<i32>) -> Probe<String> {
    Probe::Ended(ProcessOutput { stdout: "o\n".to_string(), stderr: "e\n".to_string(), code })
}

fn works() -> Probe<String> {
    tried(Some(0))
}

#[test]
fn nix_comes_before_docker() {
    for docker in [None, Some(works()), Some(Probe::NotStarted)] {
        match PackerManager::new(&works(), docker) {
            Setup::Ready(p) => assert!(!p.use_docker),
            other => panic!("{:?}", other),
        }
    }
}

#[test]
fn docker_is_tried_without_nix() {
    for nix in [Probe::NotStarted, tried(Some(1)), tried(None)] {
        assert!(matches!(PackerManager::new(&nix, None), Setup::TryDocker));
        match PackerManager::new(&nix, Some(works())) {
            Setup::Ready(p) => assert!(p.use_docker),
            other => panic!("{:?}", other),
        }
        match PackerManager::new(&nix, Some(Probe::NotStarted)) {
            Setup::Failed(fault) => assert_eq!(fault.message(), "Docker daemon not accessible"),
            other => panic!("{:?}", other),
        }
        match PackerManager::new(&nix, Some(tried(Some(1)))) {
            Setup::Failed(fault) => assert_eq!(
                fault.message(),
                "Docker daemon is not running\nstdout: o\nstderr: e"
            ),
            other => panic!("{:?}", other),
        }
    }
    assert!(NO_BUILDER.starts_with("Nix is not installed and Docker is not available.\n"));
}

#[test]
fn an_image_is_not_built_twice() {
    let host = PackerManager { use_docker: false };
    let kept = host.build_image(&args(false), true, '/');
    assert_eq!(kept.stage, Stage::Kept);
    assert_eq!(kept.result(), Some(Ok("./output/stateless-debian-kube.img".to_string())));
    assert_eq!(host.build_image(&args(true), true, '/').stage, Stage::Closure);
    assert_eq!(host.build_image(&args(false), false, '/').stage, Stage::Closure);
    let docker = PackerManager { use_docker: true };
    assert_eq!(docker.build_image(&args(false), false, '/').stage, Stage::Container);
    assert_eq!(reuse_line("a/b.img"), "Output image already exists at a/b.img (use --force to rebuild)");
}

#[test]
fn the_image_lies_in_the_output_directory() {
    for dir in ["./output", "out/", "/", "", "/srv/images"] {
        let a = BakeArgs { output_dir: dir.to_string(), ..args(false) };
        let joined = std::path::Path::new(dir).join("stateless-debian-kube.img");
        assert_eq!(image_path(&a, '/'), joined.display().to_string());
    }
    let win = BakeArgs { output_dir: "C:\\out".to_string(), ..args(false) };
    assert_eq!(image_path(&win, '\\'), "C:\\out\\stateless-debian-kube.img");
}

fn ended(code: Option<i32>) -> BuildReply<String> {
    BuildReply::Ended(ProcessOutput {
        stdout: " building \n".to_string(),
        stderr: "no space\n".to_string(),
        code,
    })
}

fn ok() -> BuildReply<String> {
    ended(Some(0))
}

fn built(start: Stage, replies: Vec<BuildReply<String>>) -> Build {
    let packer = PackerManager { use_docker: start == Stage::Container };
    let mut b = packer.build_image(&args(true), false, '/');
    assert_eq!(b.stage, start);
    for r in replies {
        b.advance(r);
    }
    b
}

#[test]
fn builds_end_well() {
    let image = || Some(Ok("./output/stateless-debian-kube.img".to_string()));
    let host = built(Stage::Closure, vec![ok(), ok(), ok(), BuildReply::Size(Ok(5))]);
    assert_eq!(host.bytes, 5);
    assert_eq!(host.stage, Stage::Built);
    assert_eq!(host.result(), image());
    let halfway = built(Stage::Closure, vec![ok(), ok()]);
    assert_eq!(halfway.stage, Stage::Assembly);
    assert_eq!(halfway.result(), None);
    let container = built(
        Stage::Container,
        vec![ok(), BuildReply::Image(true), BuildReply::Size(Ok(7))],
    );
    assert_eq!(container.result(), image());
    let early = built(Stage::Container, vec![BuildReply::Image(true)]);
    assert_eq!(early.stage, Stage::Container);
}

#[test]
fn failures_are_reported_with_the_output() {
    let report = |b: Build| match b.result() {
        Some(Err(report)) => report,
        other => panic!("{:?}", other),
    };
    let tail = "\nstdout: building\nstderr: no space";
    assert_eq!(
        report(built(Stage::Closure, vec![ended(Some(7)), ok()])),
        format!("nix build failed with exit code: Some(7){}", tail)
    );
    assert_eq!(
        report(built(Stage::Closure, vec![ok(), ended(Some(7))])),
        format!("Failed to build nixos-install-tools{}", tail)
    );
    assert_eq!(
        report(built(Stage::Closure, vec![ok(), ok(), ended(Some(7))])),
        format!("Image assembly in Docker failed{}", tail)
    );
    assert_eq!(
        report(built(Stage::Container, vec![ended(None)])),
        format!("Nix build via Docker failed with exit code: None{}", tail)
    );
}

#[test]
fn a_missing_image_is_reported() {
    let gone = || BuildReply::Size(Err("No such file or directory (os error 2)".to_string()));
    let host = built(Stage::Closure, vec![ok(), ok(), ok(), BuildReply::Image(false), gone()]);
    assert_eq!(host.result(), Some(Err("No such file or directory (os error 2)".to_string())));
    let container = built(Stage::Container, vec![ok(), BuildReply::Image(false), ok()]);
    assert_eq!(
        container.result(),
        Some(Err("Docker build completed but output not found".to_string()))
    );
    let late = built(Stage::Container, vec![ok(), BuildReply::Image(true), gone()]);
    assert_eq!(late.result(), Some(Err("No such file or directory (os error 2)".to_string())));
}

#[test]
fn failures_are_named() {
    assert_eq!(BuildError::Closure(Some(1)).message(""), "nix build failed with exit code: Some(1)");
    assert_eq!(BuildError::InstallTools.message(""), "Failed to build nixos-install-tools");
    assert_eq!(BuildError::Assembly.message(""), "Image assembly in Docker failed");
    assert_eq!(
        BuildError::Container(None).message(""),
        "Nix build via Docker failed with exit code: None"
    );
    assert_eq!(BuildError::Unreadable.message("denied"), "denied");
    assert_eq!(BuildError::NoImage.message(""), "Docker build completed but output not found");
}

#[test]
fn arguments_of_nix() {
    assert_eq!(
        closure_args("output/result", "/src"),
        vec![
            "build",
            "--no-sandbox",
            "--out-link",
            "output/result",
            "/src#nixosConfigurations.pifrost-node.config.system.build.toplevel",
        ]
    );
    assert_eq!(
        install_tools_args("output/install-tools"),
        vec![
            "build",
            "--no-sandbox",
            "--out-link",
            "output/install-tools",
            "nixpkgs#nixos-install-tools",
        ]
    );
}

#[test]
fn arguments_of_docker() {
    assert_eq!(
        nix_container_args("/src", "/src/output"),
        vec![
            "run",
            "--rm",
            "--privileged",
            "-v",
            "/src:/host-project",
            "-v",
            "/src/output:/host-output",
            "-e",
            "NIX_CONFIG=experimental-features = nix-command flakes",
            "nixos/nix",
            "/bin/sh",
            "-c",
            nix_build().as_str(),
        ]
    );
    let script = nix_build();
    assert!(script.starts_with("set -eux\n\ncd /host-project\n"));
    assert!(script.contains(&format!("\nDISK_IMAGE=/host-output/{}\n", IMAGE_NAME)));
    assert!(script.ends_with(
        "\ncp \"$DISK_IMAGE\" /host-output/stateless-debian-kube.img.final\nmv /host-output/stateless-debian-kube.img.final /host-output/stateless-debian-kube.img\necho \"=== Image built successfully ===\"\n"
    ));
    let a = assembly_args("/o");
    for s in [&script, &a[9]] {
        assert!(s.contains("\nmkfs.vfat -F 32 -n \"system-boot\" \"$P1\"\n"));
        assert!(s.contains("\nmkfs.ext4 -F -L \"writable\" \"$P2\"\n"));
    }
    assert_eq!(
        a[..9],
        [
            "run",
            "--rm",
            "--privileged",
            "-v",
            "/o:/build-images",
            "--entrypoint",
            "/bin/bash",
            "pifrost-worker:latest",
            "-c",
        ]
    );
    assert!(a[9].starts_with(
        "set -eux\nDISK_IMAGE=/build-images/stateless-debian-kube.img\nrm -f \"$DISK_IMAGE\"\n"
    ));
    assert!(a[9].ends_with("echo \"=== Image built ===\"\n"));
}

#[test]
fn a_built_image_is_reported() {
    assert_eq!(
        image_line("./output/stateless-debian-kube.img", 5242880000),
        "Image built: ./output/stateless-debian-kube.img (4.88 GiB)"
    );
}

#[test]
fn the_flake_is_looked_for() {
    let place = |d: &str, holds_flake: bool| FlakePlace { directory: d.to_string(), holds_flake };
    let here = place("C:\\src", true);
    let empty = place("C:\\tmp", false);
    let exe = place("C:\\bin", true);
    assert_eq!(resolve_flake_dir(&here, Some(&exe)).as_deref(), Some("C:/src"));
    assert_eq!(resolve_flake_dir(&empty, Some(&exe)).as_deref(), Some("C:/bin"));
    assert_eq!(resolve_flake_dir(&empty, Some(&empty)), None);
    assert_eq!(resolve_flake_dir(&empty, None), None);
    assert_eq!(
        NO_FLAKE,
        "Cannot locate flake.nix in current directory or executable directory"
    );
}
