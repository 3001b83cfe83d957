# pifrost

pifrost bakes disk images for Kubernetes nodes, partitions and flashes drives
through Docker, and provisions RKE2 clusters over SSH.

`src/` is a library whose behaviour is stated in contracts and proved with
Verus. It does no I/O: it says what is to be run and decides what the outcome
means. `app/` is the command line around it, which runs the programs, reads and
writes the files and asks the user.

| Module      | Content |
|-------------|---------|
| `text`      | texts: trimming, searching, splitting, decimal numbers |
| `size`      | sizes with a unit, rounded as floating point would |
| `process`   | programs that have ended |
| `config`    | the configuration of a cluster and its defaults |
| `init`      | the questions that lead to a configuration |
| `ssh`       | calls of `ssh` and `scp`, and what their outcome means |
| `plan`      | plans of steps, and the state of one that is carried out |
| `provision` | the plans for a single node: hardening, RKE2, Rancher |
| `cluster`   | the provisioning of a whole cluster |
| `cli`       | the options of the drive commands, and the consent they need |
| `token`     | the token that the nodes of a cluster share |
| `docker`    | the worker image, and the scripts that bootstrap and flash a drive |
| `usb`       | which USB devices are passed through to Docker |
| `packer`    | building an image with Nix |
| `winflash`  | GUID partition tables, and the naming of physical drives |
| `flash`     | the order in which an image is written to a physical drive |

## Drives

A bootstrapped drive has three partitions:

| # | Label         | Size      | Format |
|---|---------------|-----------|--------|
| 1 | `system-boot` | 512 MB    | FAT32  |
| 2 | `writable`    | 4 GB      | EXT4   |
| 3 | `kube-state`  | remainder | EXT4   |

Flashing a new image through Docker writes partitions 1 and 2 and leaves the
third, which holds the state of the cluster, as it is.

**On Windows the third partition is lost.** There an image is written to the
physical drive itself: `diskpart` removes all partitions, and the image, with its
own partition table, is copied from the first byte to the end of its furthest
partition. To keep the state of the cluster, flash from a machine where Docker
sees the drive.

`bake` takes `--arch` and `--kube-uuid`, but the build reads neither: the
architecture is that of the NixOS configuration, and the UUID is given to the
partition when a drive is bootstrapped.

## Commands

    pifrost bake --arch amd64 --output-dir ./output
    pifrost bootstrap --drive /dev/sdc --name k8s-1 --role server
    pifrost flash --drive /dev/sdc --image ./output/stateless-debian-kube.img
    pifrost init
    pifrost template
    pifrost provision --config nodeconfig.toml
