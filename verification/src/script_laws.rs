//! What the scripts that build images and prepare drives do, and in which order.

use vstd::prelude::*;
use crate::config::TEMPLATE;
use crate::docker::{
    bootstrap_head, bootstrap_script, container_args, flash_lines, k3s_config_text, layout,
    names_partition, network_text, node_mode_text, partition_text, partitioning, server_url,
    without_tail, NodeSeed, CLEAR_DRIVE, FINISH_BOOTSTRAP, FORMAT_PARTITIONS, LIST_DISKS,
    NAME_PARTITIONS, SEED_STATE, WORKER_DOCKERFILE,
};
use crate::packer::{
    assembly_script, nix_script, ASSEMBLY, IMAGE_NAME, NIX_END, NIX_IMAGE, NIX_PARTS,
};
use crate::text::{
    contains, decimal, holds_in_order, lemma_in_order_both, lemma_in_order_earlier,
    lemma_in_order_inside, lemma_part_first, occurs_at,
};
use crate::usb::REFRESH_PATH;

verus! {

/// Both ways to build make the image alike: an empty file of the same size; a boot
/// partition of 512 MiB, which alone bears the flags that firmware boots from, and
/// the rest for the system; each formatted with its own file system and label; the
/// system mounted first, and the boot partition below it; the boot loader with an
/// entry for the system; and at the end the boot partition let go before the system.
#[verifier::rlimit(60)]
pub proof fn lemma_images_are_made_alike()
    ensures
        ({
            let steps = seq![
                "rm -f \"$DISK_IMAGE\"\ndd if=/dev/zero of=\"$DISK_IMAGE\" bs=1M count=5000 status=progress\n"@,
                "parted -s \"$DISK_IMAGE\" mklabel gpt\nparted -s \"$DISK_IMAGE\" mkpart primary fat32 1MiB 513MiB\nparted -s \"$DISK_IMAGE\" set 1 esp on\nparted -s \"$DISK_IMAGE\" set 1 boot on\nparted -s \"$DISK_IMAGE\" mkpart primary ext4 513MiB 100%\n"@,
                "LOOP=$(losetup --show -f \"$DISK_IMAGE\")\nkpartx -av \"$LOOP\"\nsleep 1\nP1=/dev/mapper/$(basename \"$LOOP\")p1\nP2=/dev/mapper/$(basename \"$LOOP\")p2\n"@,
                "mkfs.vfat -F 32 -n \"system-boot\" \"$P1\"\nmkfs.ext4 -F -L \"writable\" \"$P2\"\n"@,
                "mkdir -p /mnt/root\nmount \"$P2\" /mnt/root\nmkdir -p /mnt/root/boot\nmount \"$P1\" /mnt/root/boot\n"@,
                "SYSTEMD_BOOT=$(find \"$CLOSURE\" -name \"systemd-boot*.efi\" -type f | head -1)\nif [ -n \"$SYSTEMD_BOOT\" ]; then\n  BOOTNAME=$(basename \"$SYSTEMD_BOOT\" | sed 's/systemd-boot/BOOT/')\n  mkdir -p /mnt/root/boot/EFI/systemd /mnt/root/boot/EFI/BOOT\n  cp \"$SYSTEMD_BOOT\" /mnt/root/boot/EFI/systemd/\n  cp \"$SYSTEMD_BOOT\" \"/mnt/root/boot/EFI/BOOT/$BOOTNAME\"\n"@,
                "  mkdir -p /mnt/root/boot/loader/entries\n  cat > /mnt/root/boot/loader/loader.conf << 'LOADER'\ndefault nixos\ntimeout 5\nconsole-mode max\neditor no\nLOADER\n"@,
                "  cat > /mnt/root/boot/loader/entries/nixos.conf << 'ENTRY'\ntitle NixOS\nlinux /nix/store/CLOSURE_NAME/kernel\ninitrd /nix/store/CLOSURE_NAME/initrd\noptions init=/nix/store/CLOSURE_NAME/init loglevel=4\nENTRY\n  sed -i \"s|CLOSURE_NAME|$CLOSURE_NAME|g\" /mnt/root/boot/loader/entries/nixos.conf\nfi\n"@,
                "sync\numount /mnt/root/boot 2>/dev/null || true\numount /mnt/root 2>/dev/null || true\nkpartx -dv \"$LOOP\" 2>/dev/null || true\nlosetup -d \"$LOOP\" 2>/dev/null || true\n"@,
            ];
            holds_in_order(nix_script(), steps) && holds_in_order(assembly_script(), steps)
        }),
{
    let steps = seq![
        "rm -f \"$DISK_IMAGE\"\ndd if=/dev/zero of=\"$DISK_IMAGE\" bs=1M count=5000 status=progress\n"@,
        "parted -s \"$DISK_IMAGE\" mklabel gpt\nparted -s \"$DISK_IMAGE\" mkpart primary fat32 1MiB 513MiB\nparted -s \"$DISK_IMAGE\" set 1 esp on\nparted -s \"$DISK_IMAGE\" set 1 boot on\nparted -s \"$DISK_IMAGE\" mkpart primary ext4 513MiB 100%\n"@,
        "LOOP=$(losetup --show -f \"$DISK_IMAGE\")\nkpartx -av \"$LOOP\"\nsleep 1\nP1=/dev/mapper/$(basename \"$LOOP\")p1\nP2=/dev/mapper/$(basename \"$LOOP\")p2\n"@,
        "mkfs.vfat -F 32 -n \"system-boot\" \"$P1\"\nmkfs.ext4 -F -L \"writable\" \"$P2\"\n"@,
        "mkdir -p /mnt/root\nmount \"$P2\" /mnt/root\nmkdir -p /mnt/root/boot\nmount \"$P1\" /mnt/root/boot\n"@,
        "SYSTEMD_BOOT=$(find \"$CLOSURE\" -name \"systemd-boot*.efi\" -type f | head -1)\nif [ -n \"$SYSTEMD_BOOT\" ]; then\n  BOOTNAME=$(basename \"$SYSTEMD_BOOT\" | sed 's/systemd-boot/BOOT/')\n  mkdir -p /mnt/root/boot/EFI/systemd /mnt/root/boot/EFI/BOOT\n  cp \"$SYSTEMD_BOOT\" /mnt/root/boot/EFI/systemd/\n  cp \"$SYSTEMD_BOOT\" \"/mnt/root/boot/EFI/BOOT/$BOOTNAME\"\n"@,
        "  mkdir -p /mnt/root/boot/loader/entries\n  cat > /mnt/root/boot/loader/loader.conf << 'LOADER'\ndefault nixos\ntimeout 5\nconsole-mode max\neditor no\nLOADER\n"@,
        "  cat > /mnt/root/boot/loader/entries/nixos.conf << 'ENTRY'\ntitle NixOS\nlinux /nix/store/CLOSURE_NAME/kernel\ninitrd /nix/store/CLOSURE_NAME/initrd\noptions init=/nix/store/CLOSURE_NAME/init loglevel=4\nENTRY\n  sed -i \"s|CLOSURE_NAME|$CLOSURE_NAME|g\" /mnt/root/boot/loader/entries/nixos.conf\nfi\n"@,
        "sync\numount /mnt/root/boot 2>/dev/null || true\numount /mnt/root 2>/dev/null || true\nkpartx -dv \"$LOOP\" 2>/dev/null || true\nlosetup -d \"$LOOP\" 2>/dev/null || true\n"@,
    ];
    assert(holds_in_order(NIX_IMAGE@, steps)) by {
        reveal_strlit(r#"
rm -f "$DISK_IMAGE"
dd if=/dev/zero of="$DISK_IMAGE" bs=1M count=5000 status=progress

echo "=== Partitioning ==="
parted -s "$DISK_IMAGE" mklabel gpt
parted -s "$DISK_IMAGE" mkpart primary fat32 1MiB 513MiB
parted -s "$DISK_IMAGE" set 1 esp on
parted -s "$DISK_IMAGE" set 1 boot on
parted -s "$DISK_IMAGE" mkpart primary ext4 513MiB 100%

echo "=== Setting up loopback ==="
LOOP=$(losetup --show -f "$DISK_IMAGE")
kpartx -av "$LOOP"
sleep 1
P1=/dev/mapper/$(basename "$LOOP")p1
P2=/dev/mapper/$(basename "$LOOP")p2

echo "=== Formatting ==="
mkfs.vfat -F 32 -n "system-boot" "$P1"
mkfs.ext4 -F -L "writable" "$P2"

echo "=== Mounting ==="
mkdir -p /mnt/root
mount "$P2" /mnt/root
mkdir -p /mnt/root/boot
mount "$P1" /mnt/root/boot

echo "=== Installing NixOS to image ==="
CLOSURE=$(readlink /host-output/closure)
INSTALL_TOOLS=$(readlink /host-output/install-tools)

# nixos-install copies the closure, runs activation, sets up bootloader
"$INSTALL_TOOLS/bin/nixos-install" \
  --root /mnt/root \
  --system "$CLOSURE" \
  --no-root-password \
  --no-bootloader 2>&1

if [ $? -ne 0 ]; then
  echo "WARNING: nixos-install had issues (continuing)"
fi

echo "=== Installing systemd-boot manually ==="
# Find systemd-boot in the closure
SYSTEMD_BOOT=$(find "$CLOSURE" -name "systemd-boot*.efi" -type f | head -1)
if [ -n "$SYSTEMD_BOOT" ]; then
  BOOTNAME=$(basename "$SYSTEMD_BOOT" | sed 's/systemd-boot/BOOT/')
  mkdir -p /mnt/root/boot/EFI/systemd /mnt/root/boot/EFI/BOOT
  cp "$SYSTEMD_BOOT" /mnt/root/boot/EFI/systemd/
  cp "$SYSTEMD_BOOT" "/mnt/root/boot/EFI/BOOT/$BOOTNAME"

  # Generate loader config
  mkdir -p /mnt/root/boot/loader/entries
  cat > /mnt/root/boot/loader/loader.conf << 'LOADER'
default nixos
timeout 5
console-mode max
editor no
LOADER

  CLOSURE_NAME=$(basename "$CLOSURE")
  cat > /mnt/root/boot/loader/entries/nixos.conf << 'ENTRY'
title NixOS
linux /nix/store/CLOSURE_NAME/kernel
initrd /nix/store/CLOSURE_NAME/initrd
options init=/nix/store/CLOSURE_NAME/init loglevel=4
ENTRY
  sed -i "s|CLOSURE_NAME|$CLOSURE_NAME|g" /mnt/root/boot/loader/entries/nixos.conf
fi

echo "=== Cleaning up ==="
sync
umount /mnt/root/boot 2>/dev/null || true
umount /mnt/root 2>/dev/null || true
kpartx -dv "$LOOP" 2>/dev/null || true
losetup -d "$LOOP" 2>/dev/null || true

cp "$DISK_IMAGE" /host-output/"#);
        assert(occurs_at(NIX_IMAGE@, steps[0], 1) && steps[0].len() == 86) by {
            reveal_strlit(
                "rm -f \"$DISK_IMAGE\"\ndd if=/dev/zero of=\"$DISK_IMAGE\" bs=1M count=5000 status=progress\n",
            );
            assert(NIX_IMAGE@.subrange(1, 87)
                =~= "rm -f \"$DISK_IMAGE\"\ndd if=/dev/zero of=\"$DISK_IMAGE\" bs=1M count=5000 status=progress\n"@);
        }
        assert(occurs_at(NIX_IMAGE@, steps[1], 116) && steps[1].len() == 224) by {
            reveal_strlit(
                "parted -s \"$DISK_IMAGE\" mklabel gpt\nparted -s \"$DISK_IMAGE\" mkpart primary fat32 1MiB 513MiB\nparted -s \"$DISK_IMAGE\" set 1 esp on\nparted -s \"$DISK_IMAGE\" set 1 boot on\nparted -s \"$DISK_IMAGE\" mkpart primary ext4 513MiB 100%\n",
            );
            assert(NIX_IMAGE@.subrange(116, 340)
                =~= "parted -s \"$DISK_IMAGE\" mklabel gpt\nparted -s \"$DISK_IMAGE\" mkpart primary fat32 1MiB 513MiB\nparted -s \"$DISK_IMAGE\" set 1 esp on\nparted -s \"$DISK_IMAGE\" set 1 boot on\nparted -s \"$DISK_IMAGE\" mkpart primary ext4 513MiB 100%\n"@);
        }
        assert(occurs_at(NIX_IMAGE@, steps[2], 376) && steps[2].len() == 141) by {
            reveal_strlit(
                "LOOP=$(losetup --show -f \"$DISK_IMAGE\")\nkpartx -av \"$LOOP\"\nsleep 1\nP1=/dev/mapper/$(basename \"$LOOP\")p1\nP2=/dev/mapper/$(basename \"$LOOP\")p2\n",
            );
            assert(NIX_IMAGE@.subrange(376, 517)
                =~= "LOOP=$(losetup --show -f \"$DISK_IMAGE\")\nkpartx -av \"$LOOP\"\nsleep 1\nP1=/dev/mapper/$(basename \"$LOOP\")p1\nP2=/dev/mapper/$(basename \"$LOOP\")p2\n"@);
        }
        assert(occurs_at(NIX_IMAGE@, steps[3], 544) && steps[3].len() == 72) by {
            reveal_strlit(
                "mkfs.vfat -F 32 -n \"system-boot\" \"$P1\"\nmkfs.ext4 -F -L \"writable\" \"$P2\"\n",
            );
            assert(NIX_IMAGE@.subrange(544, 616)
                =~= "mkfs.vfat -F 32 -n \"system-boot\" \"$P1\"\nmkfs.ext4 -F -L \"writable\" \"$P2\"\n"@);
        }
        assert(occurs_at(NIX_IMAGE@, steps[4], 641) && steps[4].len() == 92) by {
            reveal_strlit(
                "mkdir -p /mnt/root\nmount \"$P2\" /mnt/root\nmkdir -p /mnt/root/boot\nmount \"$P1\" /mnt/root/boot\n",
            );
            assert(NIX_IMAGE@.subrange(641, 733)
                =~= "mkdir -p /mnt/root\nmount \"$P2\" /mnt/root\nmkdir -p /mnt/root/boot\nmount \"$P1\" /mnt/root/boot\n"@);
        }
        assert(occurs_at(NIX_IMAGE@, steps[5], 1236) && steps[5].len() == 344) by {
            reveal_strlit(
                "SYSTEMD_BOOT=$(find \"$CLOSURE\" -name \"systemd-boot*.efi\" -type f | head -1)\nif [ -n \"$SYSTEMD_BOOT\" ]; then\n  BOOTNAME=$(basename \"$SYSTEMD_BOOT\" | sed 's/systemd-boot/BOOT/')\n  mkdir -p /mnt/root/boot/EFI/systemd /mnt/root/boot/EFI/BOOT\n  cp \"$SYSTEMD_BOOT\" /mnt/root/boot/EFI/systemd/\n  cp \"$SYSTEMD_BOOT\" \"/mnt/root/boot/EFI/BOOT/$BOOTNAME\"\n",
            );
            assert(NIX_IMAGE@.subrange(1236, 1580)
                =~= "SYSTEMD_BOOT=$(find \"$CLOSURE\" -name \"systemd-boot*.efi\" -type f | head -1)\nif [ -n \"$SYSTEMD_BOOT\" ]; then\n  BOOTNAME=$(basename \"$SYSTEMD_BOOT\" | sed 's/systemd-boot/BOOT/')\n  mkdir -p /mnt/root/boot/EFI/systemd /mnt/root/boot/EFI/BOOT\n  cp \"$SYSTEMD_BOOT\" /mnt/root/boot/EFI/systemd/\n  cp \"$SYSTEMD_BOOT\" \"/mnt/root/boot/EFI/BOOT/$BOOTNAME\"\n"@);
        }
        assert(occurs_at(NIX_IMAGE@, steps[6], 1608) && steps[6].len() == 153) by {
            reveal_strlit(
                "  mkdir -p /mnt/root/boot/loader/entries\n  cat > /mnt/root/boot/loader/loader.conf << 'LOADER'\ndefault nixos\ntimeout 5\nconsole-mode max\neditor no\nLOADER\n",
            );
            assert(NIX_IMAGE@.subrange(1608, 1761)
                =~= "  mkdir -p /mnt/root/boot/loader/entries\n  cat > /mnt/root/boot/loader/loader.conf << 'LOADER'\ndefault nixos\ntimeout 5\nconsole-mode max\neditor no\nLOADER\n"@);
        }
        assert(occurs_at(NIX_IMAGE@, steps[7], 1800) && steps[7].len() == 292) by {
            reveal_strlit(
                "  cat > /mnt/root/boot/loader/entries/nixos.conf << 'ENTRY'\ntitle NixOS\nlinux /nix/store/CLOSURE_NAME/kernel\ninitrd /nix/store/CLOSURE_NAME/initrd\noptions init=/nix/store/CLOSURE_NAME/init loglevel=4\nENTRY\n  sed -i \"s|CLOSURE_NAME|$CLOSURE_NAME|g\" /mnt/root/boot/loader/entries/nixos.conf\nfi\n",
            );
            assert(NIX_IMAGE@.subrange(1800, 2092)
                =~= "  cat > /mnt/root/boot/loader/entries/nixos.conf << 'ENTRY'\ntitle NixOS\nlinux /nix/store/CLOSURE_NAME/kernel\ninitrd /nix/store/CLOSURE_NAME/initrd\noptions init=/nix/store/CLOSURE_NAME/init loglevel=4\nENTRY\n  sed -i \"s|CLOSURE_NAME|$CLOSURE_NAME|g\" /mnt/root/boot/loader/entries/nixos.conf\nfi\n"@);
        }
        assert(occurs_at(NIX_IMAGE@, steps[8], 2120) && steps[8].len() == 162) by {
            reveal_strlit(
                "sync\numount /mnt/root/boot 2>/dev/null || true\numount /mnt/root 2>/dev/null || true\nkpartx -dv \"$LOOP\" 2>/dev/null || true\nlosetup -d \"$LOOP\" 2>/dev/null || true\n",
            );
            assert(NIX_IMAGE@.subrange(2120, 2282)
                =~= "sync\numount /mnt/root/boot 2>/dev/null || true\numount /mnt/root 2>/dev/null || true\nkpartx -dv \"$LOOP\" 2>/dev/null || true\nlosetup -d \"$LOOP\" 2>/dev/null || true\n"@);
        }
        lemma_part_first(NIX_IMAGE@, steps, 8, 2092, 2120);
        lemma_part_first(NIX_IMAGE@, steps, 7, 1761, 1800);
        lemma_part_first(NIX_IMAGE@, steps, 6, 1580, 1608);
        lemma_part_first(NIX_IMAGE@, steps, 5, 733, 1236);
        lemma_part_first(NIX_IMAGE@, steps, 4, 616, 641);
        lemma_part_first(NIX_IMAGE@, steps, 3, 517, 544);
        lemma_part_first(NIX_IMAGE@, steps, 2, 340, 376);
        lemma_part_first(NIX_IMAGE@, steps, 1, 87, 116);
        lemma_part_first(NIX_IMAGE@, steps, 0, 0, 1);
    }
    assert(holds_in_order(ASSEMBLY@, steps)) by {
        reveal_strlit(r#"
rm -f "$DISK_IMAGE"
dd if=/dev/zero of="$DISK_IMAGE" bs=1M count=5000 status=progress

parted -s "$DISK_IMAGE" mklabel gpt
parted -s "$DISK_IMAGE" mkpart primary fat32 1MiB 513MiB
parted -s "$DISK_IMAGE" set 1 esp on
parted -s "$DISK_IMAGE" set 1 boot on
parted -s "$DISK_IMAGE" mkpart primary ext4 513MiB 100%

LOOP=$(losetup --show -f "$DISK_IMAGE")
kpartx -av "$LOOP"
sleep 1
P1=/dev/mapper/$(basename "$LOOP")p1
P2=/dev/mapper/$(basename "$LOOP")p2

mkfs.vfat -F 32 -n "system-boot" "$P1"
mkfs.ext4 -F -L "writable" "$P2"

mkdir -p /mnt/root
mount "$P2" /mnt/root
mkdir -p /mnt/root/boot
mount "$P1" /mnt/root/boot

# Copy store contents
mkdir -p /mnt/root/nix/store
cp -a /build-images/result/. /mnt/root/nix/store/

CLOSURE=$(find /mnt/root/nix/store -maxdepth 1 -name "*-nixos-system-*" | head -1)
if [ -z "$CLOSURE" ]; then
  echo "ERROR: system closure not found in store"
  exit 1
fi

CLOSURE_NAME=$(basename "$CLOSURE")

# Create system profile
mkdir -p /mnt/root/nix/var/nix/profiles/system-1-link
ln -sfn /nix/store/$CLOSURE_NAME /mnt/root/nix/var/nix/profiles/system-1-link
ln -sfn system-1-link /mnt/root/nix/var/nix/profiles/system
mkdir -p /mnt/root/nix/var/nix/profiles/per-user/root

mkdir -p /mnt/root/etc
echo "NixOS" > /mnt/root/etc/NIXOS

# Install systemd-boot
SYSTEMD_BOOT=$(find "$CLOSURE" -name "systemd-boot*.efi" -type f | head -1)
if [ -n "$SYSTEMD_BOOT" ]; then
  BOOTNAME=$(basename "$SYSTEMD_BOOT" | sed 's/systemd-boot/BOOT/')
  mkdir -p /mnt/root/boot/EFI/systemd /mnt/root/boot/EFI/BOOT
  cp "$SYSTEMD_BOOT" /mnt/root/boot/EFI/systemd/
  cp "$SYSTEMD_BOOT" "/mnt/root/boot/EFI/BOOT/$BOOTNAME"

  mkdir -p /mnt/root/boot/loader/entries
  cat > /mnt/root/boot/loader/loader.conf << 'LOADER'
default nixos
timeout 5
console-mode max
editor no
LOADER

  cat > /mnt/root/boot/loader/entries/nixos.conf << 'ENTRY'
title NixOS
linux /nix/store/CLOSURE_NAME/kernel
initrd /nix/store/CLOSURE_NAME/initrd
options init=/nix/store/CLOSURE_NAME/init loglevel=4
ENTRY
  sed -i "s|CLOSURE_NAME|$CLOSURE_NAME|g" /mnt/root/boot/loader/entries/nixos.conf
fi

sync
umount /mnt/root/boot 2>/dev/null || true
umount /mnt/root 2>/dev/null || true
kpartx -dv "$LOOP" 2>/dev/null || true
losetup -d "$LOOP" 2>/dev/null || true
echo "=== Image built ==="
"#);
        assert(occurs_at(ASSEMBLY@, steps[0], 1) && steps[0].len() == 86) by {
            reveal_strlit(
                "rm -f \"$DISK_IMAGE\"\ndd if=/dev/zero of=\"$DISK_IMAGE\" bs=1M count=5000 status=progress\n",
            );
            assert(ASSEMBLY@.subrange(1, 87)
                =~= "rm -f \"$DISK_IMAGE\"\ndd if=/dev/zero of=\"$DISK_IMAGE\" bs=1M count=5000 status=progress\n"@);
        }
        assert(occurs_at(ASSEMBLY@, steps[1], 88) && steps[1].len() == 224) by {
            reveal_strlit(
                "parted -s \"$DISK_IMAGE\" mklabel gpt\nparted -s \"$DISK_IMAGE\" mkpart primary fat32 1MiB 513MiB\nparted -s \"$DISK_IMAGE\" set 1 esp on\nparted -s \"$DISK_IMAGE\" set 1 boot on\nparted -s \"$DISK_IMAGE\" mkpart primary ext4 513MiB 100%\n",
            );
            assert(ASSEMBLY@.subrange(88, 312)
                =~= "parted -s \"$DISK_IMAGE\" mklabel gpt\nparted -s \"$DISK_IMAGE\" mkpart primary fat32 1MiB 513MiB\nparted -s \"$DISK_IMAGE\" set 1 esp on\nparted -s \"$DISK_IMAGE\" set 1 boot on\nparted -s \"$DISK_IMAGE\" mkpart primary ext4 513MiB 100%\n"@);
        }
        assert(occurs_at(ASSEMBLY@, steps[2], 313) && steps[2].len() == 141) by {
            reveal_strlit(
                "LOOP=$(losetup --show -f \"$DISK_IMAGE\")\nkpartx -av \"$LOOP\"\nsleep 1\nP1=/dev/mapper/$(basename \"$LOOP\")p1\nP2=/dev/mapper/$(basename \"$LOOP\")p2\n",
            );
            assert(ASSEMBLY@.subrange(313, 454)
                =~= "LOOP=$(losetup --show -f \"$DISK_IMAGE\")\nkpartx -av \"$LOOP\"\nsleep 1\nP1=/dev/mapper/$(basename \"$LOOP\")p1\nP2=/dev/mapper/$(basename \"$LOOP\")p2\n"@);
        }
        assert(occurs_at(ASSEMBLY@, steps[3], 455) && steps[3].len() == 72) by {
            reveal_strlit(
                "mkfs.vfat -F 32 -n \"system-boot\" \"$P1\"\nmkfs.ext4 -F -L \"writable\" \"$P2\"\n",
            );
            assert(ASSEMBLY@.subrange(455, 527)
                =~= "mkfs.vfat -F 32 -n \"system-boot\" \"$P1\"\nmkfs.ext4 -F -L \"writable\" \"$P2\"\n"@);
        }
        assert(occurs_at(ASSEMBLY@, steps[4], 528) && steps[4].len() == 92) by {
            reveal_strlit(
                "mkdir -p /mnt/root\nmount \"$P2\" /mnt/root\nmkdir -p /mnt/root/boot\nmount \"$P1\" /mnt/root/boot\n",
            );
            assert(ASSEMBLY@.subrange(528, 620)
                =~= "mkdir -p /mnt/root\nmount \"$P2\" /mnt/root\nmkdir -p /mnt/root/boot\nmount \"$P1\" /mnt/root/boot\n"@);
        }
        assert(occurs_at(ASSEMBLY@, steps[5], 1286) && steps[5].len() == 344) by {
            reveal_strlit(
                "SYSTEMD_BOOT=$(find \"$CLOSURE\" -name \"systemd-boot*.efi\" -type f | head -1)\nif [ -n \"$SYSTEMD_BOOT\" ]; then\n  BOOTNAME=$(basename \"$SYSTEMD_BOOT\" | sed 's/systemd-boot/BOOT/')\n  mkdir -p /mnt/root/boot/EFI/systemd /mnt/root/boot/EFI/BOOT\n  cp \"$SYSTEMD_BOOT\" /mnt/root/boot/EFI/systemd/\n  cp \"$SYSTEMD_BOOT\" \"/mnt/root/boot/EFI/BOOT/$BOOTNAME\"\n",
            );
            assert(ASSEMBLY@.subrange(1286, 1630)
                =~= "SYSTEMD_BOOT=$(find \"$CLOSURE\" -name \"systemd-boot*.efi\" -type f | head -1)\nif [ -n \"$SYSTEMD_BOOT\" ]; then\n  BOOTNAME=$(basename \"$SYSTEMD_BOOT\" | sed 's/systemd-boot/BOOT/')\n  mkdir -p /mnt/root/boot/EFI/systemd /mnt/root/boot/EFI/BOOT\n  cp \"$SYSTEMD_BOOT\" /mnt/root/boot/EFI/systemd/\n  cp \"$SYSTEMD_BOOT\" \"/mnt/root/boot/EFI/BOOT/$BOOTNAME\"\n"@);
        }
        assert(occurs_at(ASSEMBLY@, steps[6], 1631) && steps[6].len() == 153) by {
            reveal_strlit(
                "  mkdir -p /mnt/root/boot/loader/entries\n  cat > /mnt/root/boot/loader/loader.conf << 'LOADER'\ndefault nixos\ntimeout 5\nconsole-mode max\neditor no\nLOADER\n",
            );
            assert(ASSEMBLY@.subrange(1631, 1784)
                =~= "  mkdir -p /mnt/root/boot/loader/entries\n  cat > /mnt/root/boot/loader/loader.conf << 'LOADER'\ndefault nixos\ntimeout 5\nconsole-mode max\neditor no\nLOADER\n"@);
        }
        assert(occurs_at(ASSEMBLY@, steps[7], 1785) && steps[7].len() == 292) by {
            reveal_strlit(
                "  cat > /mnt/root/boot/loader/entries/nixos.conf << 'ENTRY'\ntitle NixOS\nlinux /nix/store/CLOSURE_NAME/kernel\ninitrd /nix/store/CLOSURE_NAME/initrd\noptions init=/nix/store/CLOSURE_NAME/init loglevel=4\nENTRY\n  sed -i \"s|CLOSURE_NAME|$CLOSURE_NAME|g\" /mnt/root/boot/loader/entries/nixos.conf\nfi\n",
            );
            assert(ASSEMBLY@.subrange(1785, 2077)
                =~= "  cat > /mnt/root/boot/loader/entries/nixos.conf << 'ENTRY'\ntitle NixOS\nlinux /nix/store/CLOSURE_NAME/kernel\ninitrd /nix/store/CLOSURE_NAME/initrd\noptions init=/nix/store/CLOSURE_NAME/init loglevel=4\nENTRY\n  sed -i \"s|CLOSURE_NAME|$CLOSURE_NAME|g\" /mnt/root/boot/loader/entries/nixos.conf\nfi\n"@);
        }
        assert(occurs_at(ASSEMBLY@, steps[8], 2078) && steps[8].len() == 162) by {
            reveal_strlit(
                "sync\numount /mnt/root/boot 2>/dev/null || true\numount /mnt/root 2>/dev/null || true\nkpartx -dv \"$LOOP\" 2>/dev/null || true\nlosetup -d \"$LOOP\" 2>/dev/null || true\n",
            );
            assert(ASSEMBLY@.subrange(2078, 2240)
                =~= "sync\numount /mnt/root/boot 2>/dev/null || true\numount /mnt/root 2>/dev/null || true\nkpartx -dv \"$LOOP\" 2>/dev/null || true\nlosetup -d \"$LOOP\" 2>/dev/null || true\n"@);
        }
        lemma_part_first(ASSEMBLY@, steps, 8, 2077, 2078);
        lemma_part_first(ASSEMBLY@, steps, 7, 1784, 1785);
        lemma_part_first(ASSEMBLY@, steps, 6, 1630, 1631);
        lemma_part_first(ASSEMBLY@, steps, 5, 620, 1286);
        lemma_part_first(ASSEMBLY@, steps, 4, 527, 528);
        lemma_part_first(ASSEMBLY@, steps, 3, 454, 455);
        lemma_part_first(ASSEMBLY@, steps, 2, 312, 313);
        lemma_part_first(ASSEMBLY@, steps, 1, 87, 88);
        lemma_part_first(ASSEMBLY@, steps, 0, 0, 1);
    }
    let before = NIX_PARTS@ + "DISK_IMAGE=/host-output/"@ + IMAGE_NAME@;
    let behind = IMAGE_NAME@ + ".final\nmv /host-output/"@ + IMAGE_NAME@ + ".final /host-output/"@
        + IMAGE_NAME@ + NIX_END@;
    lemma_in_order_inside(before, NIX_IMAGE@, behind, steps, 0, 0);
    assert(nix_script() =~= before + NIX_IMAGE@ + behind);
    lemma_in_order_earlier(nix_script(), steps, 0, before.len() as int, 0);
    let head = "set -eux\n"@ + "DISK_IMAGE=/build-images/"@ + IMAGE_NAME@;
    lemma_in_order_inside(head, ASSEMBLY@, Seq::empty(), steps, 0, 0);
    assert(assembly_script() =~= head + ASSEMBLY@ + Seq::<char>::empty());
    lemma_in_order_earlier(assembly_script(), steps, 0, head.len() as int, 0);
}

/// A container with Nix builds the system, the tools that install it and the tools
/// that the rest needs, then installs this very system, with those tools, to the
/// mounted image, names it in the entry of the boot loader, and copies the image only
/// after it has let go of it.
#[verifier::rlimit(60)]
pub proof fn lemma_container_installs_what_it_built()
    ensures
        holds_in_order(
            nix_script(),
            seq![
                "cd /host-project\ngit add flake.nix nix/ 2>/dev/null || true\n"@,
                "nix build --no-sandbox --out-link /host-output/closure \\\n  .#nixosConfigurations.pifrost-node.config.system.build.toplevel\n"@,
                "nix build --no-sandbox --out-link /host-output/install-tools \\\n  nixpkgs#nixos-install-tools\n"@,
                "mkdir -p /host-output/tools/bin\nfor pkg in parted e2fsprogs dosfstools utillinux rsync gnused; do\n  nix build --no-sandbox --out-link \"/host-output/tools/$pkg\" \"nixpkgs#$pkg\" 2>&1\n  if [ -d \"/host-output/tools/$pkg/bin\" ]; then\n    cp -r \"/host-output/tools/$pkg/bin/\"* /host-output/tools/bin/ 2>/dev/null || true\n  fi\ndone\nexport PATH=\"/host-output/tools/bin:$PATH\"\n"@,
            ] + seq![
                "mount \"$P1\" /mnt/root/boot\n"@,
                "CLOSURE=$(readlink /host-output/closure)\nINSTALL_TOOLS=$(readlink /host-output/install-tools)\n"@,
                "\"$INSTALL_TOOLS/bin/nixos-install\" \\\n  --root /mnt/root \\\n  --system \"$CLOSURE\" \\\n  --no-root-password \\\n  --no-bootloader 2>&1\n"@,
                "  CLOSURE_NAME=$(basename \"$CLOSURE\")\n"@,
                "losetup -d \"$LOOP\" 2>/dev/null || true\n"@,
                "cp \"$DISK_IMAGE\" /host-output/"@,
            ],
        ),
{
    let built = seq![
        "cd /host-project\ngit add flake.nix nix/ 2>/dev/null || true\n"@,
        "nix build --no-sandbox --out-link /host-output/closure \\\n  .#nixosConfigurations.pifrost-node.config.system.build.toplevel\n"@,
        "nix build --no-sandbox --out-link /host-output/install-tools \\\n  nixpkgs#nixos-install-tools\n"@,
        "mkdir -p /host-output/tools/bin\nfor pkg in parted e2fsprogs dosfstools utillinux rsync gnused; do\n  nix build --no-sandbox --out-link \"/host-output/tools/$pkg\" \"nixpkgs#$pkg\" 2>&1\n  if [ -d \"/host-output/tools/$pkg/bin\" ]; then\n    cp -r \"/host-output/tools/$pkg/bin/\"* /host-output/tools/bin/ 2>/dev/null || true\n  fi\ndone\nexport PATH=\"/host-output/tools/bin:$PATH\"\n"@,
    ];
    let installed = seq![
        "mount \"$P1\" /mnt/root/boot\n"@,
        "CLOSURE=$(readlink /host-output/closure)\nINSTALL_TOOLS=$(readlink /host-output/install-tools)\n"@,
        "\"$INSTALL_TOOLS/bin/nixos-install\" \\\n  --root /mnt/root \\\n  --system \"$CLOSURE\" \\\n  --no-root-password \\\n  --no-bootloader 2>&1\n"@,
        "  CLOSURE_NAME=$(basename \"$CLOSURE\")\n"@,
        "losetup -d \"$LOOP\" 2>/dev/null || true\n"@,
        "cp \"$DISK_IMAGE\" /host-output/"@,
    ];
    assert(holds_in_order(NIX_PARTS@, built)) by {
        reveal_strlit(r#"set -eux

cd /host-project
git add flake.nix nix/ 2>/dev/null || true

echo "=== Building NixOS system closure ==="
nix build --no-sandbox --out-link /host-output/closure \
  .#nixosConfigurations.pifrost-node.config.system.build.toplevel

echo "=== Building nixos-install-tools ==="
nix build --no-sandbox --out-link /host-output/install-tools \
  nixpkgs#nixos-install-tools

echo "=== Building disk utilities ==="
mkdir -p /host-output/tools/bin
for pkg in parted e2fsprogs dosfstools utillinux rsync gnused; do
  nix build --no-sandbox --out-link "/host-output/tools/$pkg" "nixpkgs#$pkg" 2>&1
  if [ -d "/host-output/tools/$pkg/bin" ]; then
    cp -r "/host-output/tools/$pkg/bin/"* /host-output/tools/bin/ 2>/dev/null || true
  fi
done
export PATH="/host-output/tools/bin:$PATH"

echo "=== Creating raw disk image ==="
"#);
        assert(occurs_at(NIX_PARTS@, built[0], 10) && built[0].len() == 60) by {
            reveal_strlit("cd /host-project\ngit add flake.nix nix/ 2>/dev/null || true\n");
            assert(NIX_PARTS@.subrange(10, 70)
                =~= "cd /host-project\ngit add flake.nix nix/ 2>/dev/null || true\n"@);
        }
        assert(occurs_at(NIX_PARTS@, built[1], 116) && built[1].len() == 123) by {
            reveal_strlit(
                "nix build --no-sandbox --out-link /host-output/closure \\\n  .#nixosConfigurations.pifrost-node.config.system.build.toplevel\n",
            );
            assert(NIX_PARTS@.subrange(116, 239)
                =~= "nix build --no-sandbox --out-link /host-output/closure \\\n  .#nixosConfigurations.pifrost-node.config.system.build.toplevel\n"@);
        }
        assert(occurs_at(NIX_PARTS@, built[2], 284) && built[2].len() == 93) by {
            reveal_strlit(
                "nix build --no-sandbox --out-link /host-output/install-tools \\\n  nixpkgs#nixos-install-tools\n",
            );
            assert(NIX_PARTS@.subrange(284, 377)
                =~= "nix build --no-sandbox --out-link /host-output/install-tools \\\n  nixpkgs#nixos-install-tools\n"@);
        }
        assert(occurs_at(NIX_PARTS@, built[3], 417) && built[3].len() == 367) by {
            reveal_strlit(
                "mkdir -p /host-output/tools/bin\nfor pkg in parted e2fsprogs dosfstools utillinux rsync gnused; do\n  nix build --no-sandbox --out-link \"/host-output/tools/$pkg\" \"nixpkgs#$pkg\" 2>&1\n  if [ -d \"/host-output/tools/$pkg/bin\" ]; then\n    cp -r \"/host-output/tools/$pkg/bin/\"* /host-output/tools/bin/ 2>/dev/null || true\n  fi\ndone\nexport PATH=\"/host-output/tools/bin:$PATH\"\n",
            );
            assert(NIX_PARTS@.subrange(417, 784)
                =~= "mkdir -p /host-output/tools/bin\nfor pkg in parted e2fsprogs dosfstools utillinux rsync gnused; do\n  nix build --no-sandbox --out-link \"/host-output/tools/$pkg\" \"nixpkgs#$pkg\" 2>&1\n  if [ -d \"/host-output/tools/$pkg/bin\" ]; then\n    cp -r \"/host-output/tools/$pkg/bin/\"* /host-output/tools/bin/ 2>/dev/null || true\n  fi\ndone\nexport PATH=\"/host-output/tools/bin:$PATH\"\n"@);
        }
        lemma_part_first(NIX_PARTS@, built, 3, 377, 417);
        lemma_part_first(NIX_PARTS@, built, 2, 239, 284);
        lemma_part_first(NIX_PARTS@, built, 1, 70, 116);
        lemma_part_first(NIX_PARTS@, built, 0, 0, 10);
    }
    assert(holds_in_order(NIX_IMAGE@, installed)) by {
        reveal_strlit(r#"
rm -f "$DISK_IMAGE"
dd if=/dev/zero of="$DISK_IMAGE" bs=1M count=5000 status=progress

echo "=== Partitioning ==="
parted -s "$DISK_IMAGE" mklabel gpt
parted -s "$DISK_IMAGE" mkpart primary fat32 1MiB 513MiB
parted -s "$DISK_IMAGE" set 1 esp on
parted -s "$DISK_IMAGE" set 1 boot on
parted -s "$DISK_IMAGE" mkpart primary ext4 513MiB 100%

echo "=== Setting up loopback ==="
LOOP=$(losetup --show -f "$DISK_IMAGE")
kpartx -av "$LOOP"
sleep 1
P1=/dev/mapper/$(basename "$LOOP")p1
P2=/dev/mapper/$(basename "$LOOP")p2

echo "=== Formatting ==="
mkfs.vfat -F 32 -n "system-boot" "$P1"
mkfs.ext4 -F -L "writable" "$P2"

echo "=== Mounting ==="
mkdir -p /mnt/root
mount "$P2" /mnt/root
mkdir -p /mnt/root/boot
mount "$P1" /mnt/root/boot

echo "=== Installing NixOS to image ==="
CLOSURE=$(readlink /host-output/closure)
INSTALL_TOOLS=$(readlink /host-output/install-tools)

# nixos-install copies the closure, runs activation, sets up bootloader
"$INSTALL_TOOLS/bin/nixos-install" \
  --root /mnt/root \
  --system "$CLOSURE" \
  --no-root-password \
  --no-bootloader 2>&1

if [ $? -ne 0 ]; then
  echo "WARNING: nixos-install had issues (continuing)"
fi

echo "=== Installing systemd-boot manually ==="
# Find systemd-boot in the closure
SYSTEMD_BOOT=$(find "$CLOSURE" -name "systemd-boot*.efi" -type f | head -1)
if [ -n "$SYSTEMD_BOOT" ]; then
  BOOTNAME=$(basename "$SYSTEMD_BOOT" | sed 's/systemd-boot/BOOT/')
  mkdir -p /mnt/root/boot/EFI/systemd /mnt/root/boot/EFI/BOOT
  cp "$SYSTEMD_BOOT" /mnt/root/boot/EFI/systemd/
  cp "$SYSTEMD_BOOT" "/mnt/root/boot/EFI/BOOT/$BOOTNAME"

  # Generate loader config
  mkdir -p /mnt/root/boot/loader/entries
  cat > /mnt/root/boot/loader/loader.conf << 'LOADER'
default nixos
timeout 5
console-mode max
editor no
LOADER

  CLOSURE_NAME=$(basename "$CLOSURE")
  cat > /mnt/root/boot/loader/entries/nixos.conf << 'ENTRY'
title NixOS
linux /nix/store/CLOSURE_NAME/kernel
initrd /nix/store/CLOSURE_NAME/initrd
options init=/nix/store/CLOSURE_NAME/init loglevel=4
ENTRY
  sed -i "s|CLOSURE_NAME|$CLOSURE_NAME|g" /mnt/root/boot/loader/entries/nixos.conf
fi

echo "=== Cleaning up ==="
sync
umount /mnt/root/boot 2>/dev/null || true
umount /mnt/root 2>/dev/null || true
kpartx -dv "$LOOP" 2>/dev/null || true
losetup -d "$LOOP" 2>/dev/null || true

cp "$DISK_IMAGE" /host-output/"#);
        assert(occurs_at(NIX_IMAGE@, installed[0], 706) && installed[0].len() == 27) by {
            reveal_strlit("mount \"$P1\" /mnt/root/boot\n");
            assert(NIX_IMAGE@.subrange(706, 733) =~= "mount \"$P1\" /mnt/root/boot\n"@);
        }
        assert(occurs_at(NIX_IMAGE@, installed[1], 775) && installed[1].len() == 94) by {
            reveal_strlit(
                "CLOSURE=$(readlink /host-output/closure)\nINSTALL_TOOLS=$(readlink /host-output/install-tools)\n",
            );
            assert(NIX_IMAGE@.subrange(775, 869)
                =~= "CLOSURE=$(readlink /host-output/closure)\nINSTALL_TOOLS=$(readlink /host-output/install-tools)\n"@);
        }
        assert(occurs_at(NIX_IMAGE@, installed[2], 942) && installed[2].len() == 128) by {
            reveal_strlit(
                "\"$INSTALL_TOOLS/bin/nixos-install\" \\\n  --root /mnt/root \\\n  --system \"$CLOSURE\" \\\n  --no-root-password \\\n  --no-bootloader 2>&1\n",
            );
            assert(NIX_IMAGE@.subrange(942, 1070)
                =~= "\"$INSTALL_TOOLS/bin/nixos-install\" \\\n  --root /mnt/root \\\n  --system \"$CLOSURE\" \\\n  --no-root-password \\\n  --no-bootloader 2>&1\n"@);
        }
        assert(occurs_at(NIX_IMAGE@, installed[3], 1762) && installed[3].len() == 38) by {
            reveal_strlit("  CLOSURE_NAME=$(basename \"$CLOSURE\")\n");
            assert(NIX_IMAGE@.subrange(1762, 1800)
                =~= "  CLOSURE_NAME=$(basename \"$CLOSURE\")\n"@);
        }
        assert(occurs_at(NIX_IMAGE@, installed[4], 2243) && installed[4].len() == 39) by {
            reveal_strlit("losetup -d \"$LOOP\" 2>/dev/null || true\n");
            assert(NIX_IMAGE@.subrange(2243, 2282)
                =~= "losetup -d \"$LOOP\" 2>/dev/null || true\n"@);
        }
        assert(occurs_at(NIX_IMAGE@, installed[5], 2283) && installed[5].len() == 30) by {
            reveal_strlit("cp \"$DISK_IMAGE\" /host-output/");
            assert(NIX_IMAGE@.subrange(2283, 2313) =~= "cp \"$DISK_IMAGE\" /host-output/"@);
        }
        lemma_part_first(NIX_IMAGE@, installed, 5, 2282, 2283);
        lemma_part_first(NIX_IMAGE@, installed, 4, 1800, 2243);
        lemma_part_first(NIX_IMAGE@, installed, 3, 1070, 1762);
        lemma_part_first(NIX_IMAGE@, installed, 2, 869, 942);
        lemma_part_first(NIX_IMAGE@, installed, 1, 733, 775);
        lemma_part_first(NIX_IMAGE@, installed, 0, 0, 706);
    }
    let name = "DISK_IMAGE=/host-output/"@ + IMAGE_NAME@;
    let behind = IMAGE_NAME@ + ".final\nmv /host-output/"@ + IMAGE_NAME@ + ".final /host-output/"@
        + IMAGE_NAME@ + NIX_END@;
    lemma_in_order_inside(name, NIX_IMAGE@, behind, installed, 0, 0);
    let rest = name + NIX_IMAGE@ + behind;
    lemma_in_order_earlier(rest, installed, 0, name.len() as int, 0);
    lemma_in_order_both(NIX_PARTS@, rest, built, installed);
    assert(nix_script() =~= NIX_PARTS@ + rest);
}

/// A build on the host copies what was built there to the mounted image, stops if no
/// system is among it, and makes that system the one that boots.
#[verifier::rlimit(60)]
pub proof fn lemma_host_build_is_copied()
    ensures
        holds_in_order(
            assembly_script(),
            seq![
                "mount \"$P1\" /mnt/root/boot\n"@,
                "mkdir -p /mnt/root/nix/store\ncp -a /build-images/result/. /mnt/root/nix/store/\n"@,
                "CLOSURE=$(find /mnt/root/nix/store -maxdepth 1 -name \"*-nixos-system-*\" | head -1)\nif [ -z \"$CLOSURE\" ]; then\n  echo \"ERROR: system closure not found in store\"\n  exit 1\nfi\n"@,
                "CLOSURE_NAME=$(basename \"$CLOSURE\")\n"@,
                "mkdir -p /mnt/root/nix/var/nix/profiles/system-1-link\nln -sfn /nix/store/$CLOSURE_NAME /mnt/root/nix/var/nix/profiles/system-1-link\nln -sfn system-1-link /mnt/root/nix/var/nix/profiles/system\nmkdir -p /mnt/root/nix/var/nix/profiles/per-user/root\n"@,
                "mkdir -p /mnt/root/etc\necho \"NixOS\" > /mnt/root/etc/NIXOS\n"@,
                "SYSTEMD_BOOT=$(find \"$CLOSURE\" -name \"systemd-boot*.efi\" -type f | head -1)\n"@,
            ],
        ),
{
    let steps = seq![
        "mount \"$P1\" /mnt/root/boot\n"@,
        "mkdir -p /mnt/root/nix/store\ncp -a /build-images/result/. /mnt/root/nix/store/\n"@,
        "CLOSURE=$(find /mnt/root/nix/store -maxdepth 1 -name \"*-nixos-system-*\" | head -1)\nif [ -z \"$CLOSURE\" ]; then\n  echo \"ERROR: system closure not found in store\"\n  exit 1\nfi\n"@,
        "CLOSURE_NAME=$(basename \"$CLOSURE\")\n"@,
        "mkdir -p /mnt/root/nix/var/nix/profiles/system-1-link\nln -sfn /nix/store/$CLOSURE_NAME /mnt/root/nix/var/nix/profiles/system-1-link\nln -sfn system-1-link /mnt/root/nix/var/nix/profiles/system\nmkdir -p /mnt/root/nix/var/nix/profiles/per-user/root\n"@,
        "mkdir -p /mnt/root/etc\necho \"NixOS\" > /mnt/root/etc/NIXOS\n"@,
        "SYSTEMD_BOOT=$(find \"$CLOSURE\" -name \"systemd-boot*.efi\" -type f | head -1)\n"@,
    ];
    assert(holds_in_order(ASSEMBLY@, steps)) by {
        reveal_strlit(r#"
rm -f "$DISK_IMAGE"
dd if=/dev/zero of="$DISK_IMAGE" bs=1M count=5000 status=progress

parted -s "$DISK_IMAGE" mklabel gpt
parted -s "$DISK_IMAGE" mkpart primary fat32 1MiB 513MiB
parted -s "$DISK_IMAGE" set 1 esp on
parted -s "$DISK_IMAGE" set 1 boot on
parted -s "$DISK_IMAGE" mkpart primary ext4 513MiB 100%

LOOP=$(losetup --show -f "$DISK_IMAGE")
kpartx -av "$LOOP"
sleep 1
P1=/dev/mapper/$(basename "$LOOP")p1
P2=/dev/mapper/$(basename "$LOOP")p2

mkfs.vfat -F 32 -n "system-boot" "$P1"
mkfs.ext4 -F -L "writable" "$P2"

mkdir -p /mnt/root
mount "$P2" /mnt/root
mkdir -p /mnt/root/boot
mount "$P1" /mnt/root/boot

# Copy store contents
mkdir -p /mnt/root/nix/store
cp -a /build-images/result/. /mnt/root/nix/store/

CLOSURE=$(find /mnt/root/nix/store -maxdepth 1 -name "*-nixos-system-*" | head -1)
if [ -z "$CLOSURE" ]; then
  echo "ERROR: system closure not found in store"
  exit 1
fi

CLOSURE_NAME=$(basename "$CLOSURE")

# Create system profile
mkdir -p /mnt/root/nix/var/nix/profiles/system-1-link
ln -sfn /nix/store/$CLOSURE_NAME /mnt/root/nix/var/nix/profiles/system-1-link
ln -sfn system-1-link /mnt/root/nix/var/nix/profiles/system
mkdir -p /mnt/root/nix/var/nix/profiles/per-user/root

mkdir -p /mnt/root/etc
echo "NixOS" > /mnt/root/etc/NIXOS

# Install systemd-boot
SYSTEMD_BOOT=$(find "$CLOSURE" -name "systemd-boot*.efi" -type f | head -1)
if [ -n "$SYSTEMD_BOOT" ]; then
  BOOTNAME=$(basename "$SYSTEMD_BOOT" | sed 's/systemd-boot/BOOT/')
  mkdir -p /mnt/root/boot/EFI/systemd /mnt/root/boot/EFI/BOOT
  cp "$SYSTEMD_BOOT" /mnt/root/boot/EFI/systemd/
  cp "$SYSTEMD_BOOT" "/mnt/root/boot/EFI/BOOT/$BOOTNAME"

  mkdir -p /mnt/root/boot/loader/entries
  cat > /mnt/root/boot/loader/loader.conf << 'LOADER'
default nixos
timeout 5
console-mode max
editor no
LOADER

  cat > /mnt/root/boot/loader/entries/nixos.conf << 'ENTRY'
title NixOS
linux /nix/store/CLOSURE_NAME/kernel
initrd /nix/store/CLOSURE_NAME/initrd
options init=/nix/store/CLOSURE_NAME/init loglevel=4
ENTRY
  sed -i "s|CLOSURE_NAME|$CLOSURE_NAME|g" /mnt/root/boot/loader/entries/nixos.conf
fi

sync
umount /mnt/root/boot 2>/dev/null || true
umount /mnt/root 2>/dev/null || true
kpartx -dv "$LOOP" 2>/dev/null || true
losetup -d "$LOOP" 2>/dev/null || true
echo "=== Image built ==="
"#);
        assert(occurs_at(ASSEMBLY@, steps[0], 593) && steps[0].len() == 27) by {
            reveal_strlit("mount \"$P1\" /mnt/root/boot\n");
            assert(ASSEMBLY@.subrange(593, 620) =~= "mount \"$P1\" /mnt/root/boot\n"@);
        }
        assert(occurs_at(ASSEMBLY@, steps[1], 643) && steps[1].len() == 79) by {
            reveal_strlit(
                "mkdir -p /mnt/root/nix/store\ncp -a /build-images/result/. /mnt/root/nix/store/\n",
            );
            assert(ASSEMBLY@.subrange(643, 722)
                =~= "mkdir -p /mnt/root/nix/store\ncp -a /build-images/result/. /mnt/root/nix/store/\n"@);
        }
        assert(occurs_at(ASSEMBLY@, steps[2], 723) && steps[2].len() == 172) by {
            reveal_strlit(
                "CLOSURE=$(find /mnt/root/nix/store -maxdepth 1 -name \"*-nixos-system-*\" | head -1)\nif [ -z \"$CLOSURE\" ]; then\n  echo \"ERROR: system closure not found in store\"\n  exit 1\nfi\n",
            );
            assert(ASSEMBLY@.subrange(723, 895)
                =~= "CLOSURE=$(find /mnt/root/nix/store -maxdepth 1 -name \"*-nixos-system-*\" | head -1)\nif [ -z \"$CLOSURE\" ]; then\n  echo \"ERROR: system closure not found in store\"\n  exit 1\nfi\n"@);
        }
        assert(occurs_at(ASSEMBLY@, steps[3], 896) && steps[3].len() == 36) by {
            reveal_strlit("CLOSURE_NAME=$(basename \"$CLOSURE\")\n");
            assert(ASSEMBLY@.subrange(896, 932) =~= "CLOSURE_NAME=$(basename \"$CLOSURE\")\n"@);
        }
        assert(occurs_at(ASSEMBLY@, steps[4], 957) && steps[4].len() == 246) by {
            reveal_strlit(
                "mkdir -p /mnt/root/nix/var/nix/profiles/system-1-link\nln -sfn /nix/store/$CLOSURE_NAME /mnt/root/nix/var/nix/profiles/system-1-link\nln -sfn system-1-link /mnt/root/nix/var/nix/profiles/system\nmkdir -p /mnt/root/nix/var/nix/profiles/per-user/root\n",
            );
            assert(ASSEMBLY@.subrange(957, 1203)
                =~= "mkdir -p /mnt/root/nix/var/nix/profiles/system-1-link\nln -sfn /nix/store/$CLOSURE_NAME /mnt/root/nix/var/nix/profiles/system-1-link\nln -sfn system-1-link /mnt/root/nix/var/nix/profiles/system\nmkdir -p /mnt/root/nix/var/nix/profiles/per-user/root\n"@);
        }
        assert(occurs_at(ASSEMBLY@, steps[5], 1204) && steps[5].len() == 58) by {
            reveal_strlit("mkdir -p /mnt/root/etc\necho \"NixOS\" > /mnt/root/etc/NIXOS\n");
            assert(ASSEMBLY@.subrange(1204, 1262)
                =~= "mkdir -p /mnt/root/etc\necho \"NixOS\" > /mnt/root/etc/NIXOS\n"@);
        }
        assert(occurs_at(ASSEMBLY@, steps[6], 1286) && steps[6].len() == 76) by {
            reveal_strlit(
                "SYSTEMD_BOOT=$(find \"$CLOSURE\" -name \"systemd-boot*.efi\" -type f | head -1)\n",
            );
            assert(ASSEMBLY@.subrange(1286, 1362)
                =~= "SYSTEMD_BOOT=$(find \"$CLOSURE\" -name \"systemd-boot*.efi\" -type f | head -1)\n"@);
        }
        lemma_part_first(ASSEMBLY@, steps, 6, 1262, 1286);
        lemma_part_first(ASSEMBLY@, steps, 5, 1203, 1204);
        lemma_part_first(ASSEMBLY@, steps, 4, 932, 957);
        lemma_part_first(ASSEMBLY@, steps, 3, 895, 896);
        lemma_part_first(ASSEMBLY@, steps, 2, 722, 723);
        lemma_part_first(ASSEMBLY@, steps, 1, 620, 643);
        lemma_part_first(ASSEMBLY@, steps, 0, 0, 593);
    }
    let head = "set -eux\n"@ + "DISK_IMAGE=/build-images/"@ + IMAGE_NAME@;
    lemma_in_order_inside(head, ASSEMBLY@, Seq::empty(), steps, 0, 0);
    assert(assembly_script() =~= head + ASSEMBLY@ + Seq::<char>::empty());
    lemma_in_order_earlier(assembly_script(), steps, 0, head.len() as int, 0);
}

/// The text of the part of the bootstrap script that creates the partitions.
#[verifier::rlimit(60)]
proof fn lemma_partitioning_text()
    ensures
        partitioning() == "\necho \">>> Clearing partition table on $DEVICE\"\nparted -s \"$DEVICE\" mklabel gpt\n\necho \">>> Creating boot partition (512MB, FAT32)\"\nparted -s \"$DEVICE\" mkpart primary fat32 1MiB 513MiB\nparted -s \"$DEVICE\" set 1 esp on\nparted -s \"$DEVICE\" set 1 boot on\n\necho \">>> Creating OS partition (4GB, EXT4)\"\nparted -s \"$DEVICE\" mkpart primary ext4 513MiB 4609MiB\n\necho \">>> Creating kube-state partition (remainder, EXT4)\"\nparted -s \"$DEVICE\" mkpart primary ext4 4609MiB 100%\n"@,
{
    reveal_with_fuel(decimal, 5);
    let one = "parted -s \"$DEVICE\" mkpart primary fat32 1MiB 513MiB\n"@;
    let two = "parted -s \"$DEVICE\" mkpart primary ext4 513MiB 4609MiB\n"@;
    let three = "parted -s \"$DEVICE\" mkpart primary ext4 4609MiB 100%\n"@;
    assert(decimal(1) =~= seq!['1']);
    assert(decimal(5) =~= seq!['5']);
    assert(decimal(51) =~= seq!['5', '1']);
    assert(decimal(513) =~= seq!['5', '1', '3']);
    assert(decimal(4) =~= seq!['4']);
    assert(decimal(46) =~= seq!['4', '6']);
    assert(decimal(460) =~= seq!['4', '6', '0']);
    assert(decimal(4609) =~= seq!['4', '6', '0', '9']);
    assert(partition_text("fat32"@, layout()[0]) =~= one && partition_text("ext4"@, layout()[1])
        =~= two && partition_text("ext4"@, layout()[2]) =~= three) by {
        reveal_strlit("parted -s \"$DEVICE\" mkpart primary ");
        reveal_strlit("fat32");
        reveal_strlit("ext4");
        reveal_strlit(" ");
        reveal_strlit("MiB ");
        reveal_strlit("MiB");
        reveal_strlit("100%");
        reveal_strlit("\n");
        reveal_strlit("parted -s \"$DEVICE\" mkpart primary fat32 1MiB 513MiB\n");
        reveal_strlit("parted -s \"$DEVICE\" mkpart primary ext4 513MiB 4609MiB\n");
        reveal_strlit("parted -s \"$DEVICE\" mkpart primary ext4 4609MiB 100%\n");
    }
    let clear = CLEAR_DRIVE@;
    let e1 = "\necho \">>> Creating boot partition (512MB, FAT32)\"\n"@;
    let e2 = "\necho \">>> Creating OS partition (4GB, EXT4)\"\n"@;
    let e3 = "\necho \">>> Creating kube-state partition (remainder, EXT4)\"\n"@;
    let flags = "parted -s \"$DEVICE\" set 1 esp on\nparted -s \"$DEVICE\" set 1 boot on\n"@;
    assert(partitioning() =~= clear + e1 + one + flags + e2 + two + e3 + three);
    assert(clear + e1 + one + flags + e2 + two + e3 + three
        =~= "\necho \">>> Clearing partition table on $DEVICE\"\nparted -s \"$DEVICE\" mklabel gpt\n\necho \">>> Creating boot partition (512MB, FAT32)\"\nparted -s \"$DEVICE\" mkpart primary fat32 1MiB 513MiB\nparted -s \"$DEVICE\" set 1 esp on\nparted -s \"$DEVICE\" set 1 boot on\n\necho \">>> Creating OS partition (4GB, EXT4)\"\nparted -s \"$DEVICE\" mkpart primary ext4 513MiB 4609MiB\n\necho \">>> Creating kube-state partition (remainder, EXT4)\"\nparted -s \"$DEVICE\" mkpart primary ext4 4609MiB 100%\n"@) by {
        let whole = "\necho \">>> Clearing partition table on $DEVICE\"\nparted -s \"$DEVICE\" mklabel gpt\n\necho \">>> Creating boot partition (512MB, FAT32)\"\nparted -s \"$DEVICE\" mkpart primary fat32 1MiB 513MiB\nparted -s \"$DEVICE\" set 1 esp on\nparted -s \"$DEVICE\" set 1 boot on\n\necho \">>> Creating OS partition (4GB, EXT4)\"\nparted -s \"$DEVICE\" mkpart primary ext4 513MiB 4609MiB\n\necho \">>> Creating kube-state partition (remainder, EXT4)\"\nparted -s \"$DEVICE\" mkpart primary ext4 4609MiB 100%\n"@;
        reveal_strlit(
            "\necho \">>> Clearing partition table on $DEVICE\"\nparted -s \"$DEVICE\" mklabel gpt\n\necho \">>> Creating boot partition (512MB, FAT32)\"\nparted -s \"$DEVICE\" mkpart primary fat32 1MiB 513MiB\nparted -s \"$DEVICE\" set 1 esp on\nparted -s \"$DEVICE\" set 1 boot on\n\necho \">>> Creating OS partition (4GB, EXT4)\"\nparted -s \"$DEVICE\" mkpart primary ext4 513MiB 4609MiB\n\necho \">>> Creating kube-state partition (remainder, EXT4)\"\nparted -s \"$DEVICE\" mkpart primary ext4 4609MiB 100%\n",
        );
        assert(whole.subrange(0, 80) =~= clear) by {
            reveal_strlit(r#"
echo ">>> Clearing partition table on $DEVICE"
parted -s "$DEVICE" mklabel gpt
"#);
        }
        assert(clear.len() == 80) by {
            reveal_strlit(r#"
echo ">>> Clearing partition table on $DEVICE"
parted -s "$DEVICE" mklabel gpt
"#);
        }
        assert(whole.subrange(80, 131) =~= e1) by {
            reveal_strlit("\necho \">>> Creating boot partition (512MB, FAT32)\"\n");
        }
        assert(e1.len() == 51) by {
            reveal_strlit("\necho \">>> Creating boot partition (512MB, FAT32)\"\n");
        }
        assert(whole.subrange(131, 184) =~= one) by {
            reveal_strlit("parted -s \"$DEVICE\" mkpart primary fat32 1MiB 513MiB\n");
        }
        assert(one.len() == 53) by {
            reveal_strlit("parted -s \"$DEVICE\" mkpart primary fat32 1MiB 513MiB\n");
        }
        assert(whole.subrange(184, 251) =~= flags) by {
            reveal_strlit(
                "parted -s \"$DEVICE\" set 1 esp on\nparted -s \"$DEVICE\" set 1 boot on\n",
            );
        }
        assert(flags.len() == 67) by {
            reveal_strlit(
                "parted -s \"$DEVICE\" set 1 esp on\nparted -s \"$DEVICE\" set 1 boot on\n",
            );
        }
        assert(whole.subrange(251, 297) =~= e2) by {
            reveal_strlit("\necho \">>> Creating OS partition (4GB, EXT4)\"\n");
        }
        assert(e2.len() == 46) by {
            reveal_strlit("\necho \">>> Creating OS partition (4GB, EXT4)\"\n");
        }
        assert(whole.subrange(297, 352) =~= two) by {
            reveal_strlit("parted -s \"$DEVICE\" mkpart primary ext4 513MiB 4609MiB\n");
        }
        assert(two.len() == 55) by {
            reveal_strlit("parted -s \"$DEVICE\" mkpart primary ext4 513MiB 4609MiB\n");
        }
        assert(whole.subrange(352, 412) =~= e3) by {
            reveal_strlit("\necho \">>> Creating kube-state partition (remainder, EXT4)\"\n");
        }
        assert(e3.len() == 60) by {
            reveal_strlit("\necho \">>> Creating kube-state partition (remainder, EXT4)\"\n");
        }
        assert(whole.subrange(412, 465) =~= three) by {
            reveal_strlit("parted -s \"$DEVICE\" mkpart primary ext4 4609MiB 100%\n");
        }
        assert(three.len() == 53) by {
            reveal_strlit("parted -s \"$DEVICE\" mkpart primary ext4 4609MiB 100%\n");
        }
    }
}

/// The order in which the partitions are made.
#[verifier::rlimit(60)]
proof fn lemma_partitioning_order()
    ensures
        holds_in_order(
            partitioning(),
            seq![
                "parted -s \"$DEVICE\" mklabel gpt\n"@,
                "parted -s \"$DEVICE\" mkpart primary fat32 1MiB 513MiB\nparted -s \"$DEVICE\" set 1 esp on\nparted -s \"$DEVICE\" set 1 boot on\n"@,
                "parted -s \"$DEVICE\" mkpart primary ext4 513MiB 4609MiB\n"@,
                "parted -s \"$DEVICE\" mkpart primary ext4 4609MiB 100%\n"@,
            ],
        ),
{
    let a = seq![
        "parted -s \"$DEVICE\" mklabel gpt\n"@,
        "parted -s \"$DEVICE\" mkpart primary fat32 1MiB 513MiB\nparted -s \"$DEVICE\" set 1 esp on\nparted -s \"$DEVICE\" set 1 boot on\n"@,
        "parted -s \"$DEVICE\" mkpart primary ext4 513MiB 4609MiB\n"@,
        "parted -s \"$DEVICE\" mkpart primary ext4 4609MiB 100%\n"@,
    ];
    let text = partitioning();
    lemma_partitioning_text();
    assert(holds_in_order(text, a)) by {
        reveal_strlit(
            "\necho \">>> Clearing partition table on $DEVICE\"\nparted -s \"$DEVICE\" mklabel gpt\n\necho \">>> Creating boot partition (512MB, FAT32)\"\nparted -s \"$DEVICE\" mkpart primary fat32 1MiB 513MiB\nparted -s \"$DEVICE\" set 1 esp on\nparted -s \"$DEVICE\" set 1 boot on\n\necho \">>> Creating OS partition (4GB, EXT4)\"\nparted -s \"$DEVICE\" mkpart primary ext4 513MiB 4609MiB\n\necho \">>> Creating kube-state partition (remainder, EXT4)\"\nparted -s \"$DEVICE\" mkpart primary ext4 4609MiB 100%\n",
        );
        assert(occurs_at(text, a[0], 48) && a[0].len() == 32) by {
            reveal_strlit("parted -s \"$DEVICE\" mklabel gpt\n");
            assert(text.subrange(48, 80) =~= "parted -s \"$DEVICE\" mklabel gpt\n"@);
        }
        assert(occurs_at(text, a[1], 131) && a[1].len() == 120) by {
            reveal_strlit(
                "parted -s \"$DEVICE\" mkpart primary fat32 1MiB 513MiB\nparted -s \"$DEVICE\" set 1 esp on\nparted -s \"$DEVICE\" set 1 boot on\n",
            );
            assert(text.subrange(131, 251)
                =~= "parted -s \"$DEVICE\" mkpart primary fat32 1MiB 513MiB\nparted -s \"$DEVICE\" set 1 esp on\nparted -s \"$DEVICE\" set 1 boot on\n"@);
        }
        assert(occurs_at(text, a[2], 297) && a[2].len() == 55) by {
            reveal_strlit("parted -s \"$DEVICE\" mkpart primary ext4 513MiB 4609MiB\n");
            assert(text.subrange(297, 352)
                =~= "parted -s \"$DEVICE\" mkpart primary ext4 513MiB 4609MiB\n"@);
        }
        assert(occurs_at(text, a[3], 412) && a[3].len() == 53) by {
            reveal_strlit("parted -s \"$DEVICE\" mkpart primary ext4 4609MiB 100%\n");
            assert(text.subrange(412, 465)
                =~= "parted -s \"$DEVICE\" mkpart primary ext4 4609MiB 100%\n"@);
        }
        lemma_part_first(text, a, 3, 352, 412);
        lemma_part_first(text, a, 2, 251, 297);
        lemma_part_first(text, a, 1, 80, 131);
        lemma_part_first(text, a, 0, 0, 48);
    }
}

/// The order in which their names are found out.
#[verifier::rlimit(60)]
proof fn lemma_naming_order()
    ensures
        ({
            let named = |number: Seq<char>, infix: Seq<char>|
                "    PART"@ + number + "=\"${DEVICE}"@ + infix + number + "\"\n"@;
            let names = "if [[ \"$DEVICE\" == /dev/nvme* ]] || [[ \"$DEVICE\" == /dev/mmcblk* ]] || [[ \"$DEVICE\" == /dev/loop* ]]; then\n"@ + named("1"@, "p"@) + named("2"@, "p"@) + named("3"@, "p"@)
                + "else\n"@ + named("1"@, ""@) + named("2"@, ""@) + named("3"@, ""@) + "fi\n"@;
            holds_in_order(NAME_PARTITIONS@, seq!["sleep 2\npartprobe \"$DEVICE\" 2>/dev/null || true\nsleep 1\n"@, names])
        }),
{
    lemma_names_text();
    let b = seq![
        "sleep 2\npartprobe \"$DEVICE\" 2>/dev/null || true\nsleep 1\n"@,
        "if [[ \"$DEVICE\" == /dev/nvme* ]] || [[ \"$DEVICE\" == /dev/mmcblk* ]] || [[ \"$DEVICE\" == /dev/loop* ]]; then\n    PART1=\"${DEVICE}p1\"\n    PART2=\"${DEVICE}p2\"\n    PART3=\"${DEVICE}p3\"\nelse\n    PART1=\"${DEVICE}1\"\n    PART2=\"${DEVICE}2\"\n    PART3=\"${DEVICE}3\"\nfi\n"@,
    ];
    assert(holds_in_order(NAME_PARTITIONS@, b)) by {
        reveal_strlit(r#"
echo ">>> Waiting for kernel to re-read partition table"
sleep 2
partprobe "$DEVICE" 2>/dev/null || true
sleep 1

# Determine partition device names
if [[ "$DEVICE" == /dev/nvme* ]] || [[ "$DEVICE" == /dev/mmcblk* ]] || [[ "$DEVICE" == /dev/loop* ]]; then
    PART1="${DEVICE}p1"
    PART2="${DEVICE}p2"
    PART3="${DEVICE}p3"
else
    PART1="${DEVICE}1"
    PART2="${DEVICE}2"
    PART3="${DEVICE}3"
fi
"#);
        assert(occurs_at(NAME_PARTITIONS@, b[0], 58) && b[0].len() == 56) by {
            reveal_strlit("sleep 2\npartprobe \"$DEVICE\" 2>/dev/null || true\nsleep 1\n");
            assert(NAME_PARTITIONS@.subrange(58, 114)
                =~= "sleep 2\npartprobe \"$DEVICE\" 2>/dev/null || true\nsleep 1\n"@);
        }
        assert(occurs_at(NAME_PARTITIONS@, b[1], 150) && b[1].len() == 256) by {
            reveal_strlit(
                "if [[ \"$DEVICE\" == /dev/nvme* ]] || [[ \"$DEVICE\" == /dev/mmcblk* ]] || [[ \"$DEVICE\" == /dev/loop* ]]; then\n    PART1=\"${DEVICE}p1\"\n    PART2=\"${DEVICE}p2\"\n    PART3=\"${DEVICE}p3\"\nelse\n    PART1=\"${DEVICE}1\"\n    PART2=\"${DEVICE}2\"\n    PART3=\"${DEVICE}3\"\nfi\n",
            );
            assert(NAME_PARTITIONS@.subrange(150, 406)
                =~= "if [[ \"$DEVICE\" == /dev/nvme* ]] || [[ \"$DEVICE\" == /dev/mmcblk* ]] || [[ \"$DEVICE\" == /dev/loop* ]]; then\n    PART1=\"${DEVICE}p1\"\n    PART2=\"${DEVICE}p2\"\n    PART3=\"${DEVICE}p3\"\nelse\n    PART1=\"${DEVICE}1\"\n    PART2=\"${DEVICE}2\"\n    PART3=\"${DEVICE}3\"\nfi\n"@);
        }
        lemma_part_first(NAME_PARTITIONS@, b, 1, 114, 150);
        lemma_part_first(NAME_PARTITIONS@, b, 0, 0, 58);
    }
}

/// The order in which they are formatted.
#[verifier::rlimit(60)]
proof fn lemma_formatting_order()
    ensures
        holds_in_order(
            FORMAT_PARTITIONS@,
            seq![
                "mkfs.vfat -F 32 -n \"system-boot\" \"$PART1\"\n"@,
                "mkfs.ext4 -F -L \"writable\" \"$PART2\"\n"@,
                "mkfs.ext4 -F -L \"kube-state\" -U \"$KUBE_UUID\" \"$PART3\"\n"@,
            ],
        ),
{
    let c = seq![
        "mkfs.vfat -F 32 -n \"system-boot\" \"$PART1\"\n"@,
        "mkfs.ext4 -F -L \"writable\" \"$PART2\"\n"@,
        "mkfs.ext4 -F -L \"kube-state\" -U \"$KUBE_UUID\" \"$PART3\"\n"@,
    ];
    assert(holds_in_order(FORMAT_PARTITIONS@, c)) by {
        reveal_strlit(r#"
echo ">>> Formatting boot partition (FAT32)"
mkfs.vfat -F 32 -n "system-boot" "$PART1"

echo ">>> Formatting OS partition (EXT4)"
mkfs.ext4 -F -L "writable" "$PART2"

echo ">>> Formatting kube-state partition (EXT4, UUID=$KUBE_UUID)"
mkfs.ext4 -F -L "kube-state" -U "$KUBE_UUID" "$PART3"
"#);
        assert(occurs_at(FORMAT_PARTITIONS@, c[0], 46) && c[0].len() == 42) by {
            reveal_strlit("mkfs.vfat -F 32 -n \"system-boot\" \"$PART1\"\n");
            assert(FORMAT_PARTITIONS@.subrange(46, 88)
                =~= "mkfs.vfat -F 32 -n \"system-boot\" \"$PART1\"\n"@);
        }
        assert(occurs_at(FORMAT_PARTITIONS@, c[1], 131) && c[1].len() == 36) by {
            reveal_strlit("mkfs.ext4 -F -L \"writable\" \"$PART2\"\n");
            assert(FORMAT_PARTITIONS@.subrange(131, 167)
                =~= "mkfs.ext4 -F -L \"writable\" \"$PART2\"\n"@);
        }
        assert(occurs_at(FORMAT_PARTITIONS@, c[2], 235) && c[2].len() == 54) by {
            reveal_strlit("mkfs.ext4 -F -L \"kube-state\" -U \"$KUBE_UUID\" \"$PART3\"\n");
            assert(FORMAT_PARTITIONS@.subrange(235, 289)
                =~= "mkfs.ext4 -F -L \"kube-state\" -U \"$KUBE_UUID\" \"$PART3\"\n"@);
        }
        lemma_part_first(FORMAT_PARTITIONS@, c, 2, 167, 235);
        lemma_part_first(FORMAT_PARTITIONS@, c, 1, 88, 131);
        lemma_part_first(FORMAT_PARTITIONS@, c, 0, 0, 46);
    }
}

/// The order in which the state partition is prepared.
#[verifier::rlimit(60)]
proof fn lemma_seeding_order()
    ensures
        holds_in_order(
            SEED_STATE@,
            seq![
                "TMPMNT=$(mktemp -d)\nmount \"$PART3\" \"$TMPMNT\"\n"@,
                "MACHINE_ID=$(head -c 16 /dev/urandom | xxd -p -c 32)\necho \"$MACHINE_ID\" > \"$TMPMNT/machine-id\"\n"@,
                "install -d -m 755 \"$TMPMNT/k3s\"\ninstall -d -m 755 \"$TMPMNT/containerd\"\ninstall -d -m 755 \"$TMPMNT/etc/k3s\"\ninstall -d -m 755 \"$TMPMNT/etc/network\" 2>/dev/null || true\n"@,
            ],
        ),
{
    let d = seq![
        "TMPMNT=$(mktemp -d)\nmount \"$PART3\" \"$TMPMNT\"\n"@,
        "MACHINE_ID=$(head -c 16 /dev/urandom | xxd -p -c 32)\necho \"$MACHINE_ID\" > \"$TMPMNT/machine-id\"\n"@,
        "install -d -m 755 \"$TMPMNT/k3s\"\ninstall -d -m 755 \"$TMPMNT/containerd\"\ninstall -d -m 755 \"$TMPMNT/etc/k3s\"\ninstall -d -m 755 \"$TMPMNT/etc/network\" 2>/dev/null || true\n"@,
    ];
    assert(holds_in_order(SEED_STATE@, d)) by {
        reveal_strlit(r#"
echo ">>> Seeding kube-state partition"
TMPMNT=$(mktemp -d)
mount "$PART3" "$TMPMNT"

# Generate machine-id
MACHINE_ID=$(head -c 16 /dev/urandom | xxd -p -c 32)
echo "$MACHINE_ID" > "$TMPMNT/machine-id"

# Seed directories
install -d -m 755 "$TMPMNT/k3s"
install -d -m 755 "$TMPMNT/containerd"
install -d -m 755 "$TMPMNT/etc/k3s"
install -d -m 755 "$TMPMNT/etc/network" 2>/dev/null || true

# Write node-mode.env
"#);
        assert(occurs_at(SEED_STATE@, d[0], 41) && d[0].len() == 45) by {
            reveal_strlit("TMPMNT=$(mktemp -d)\nmount \"$PART3\" \"$TMPMNT\"\n");
            assert(SEED_STATE@.subrange(41, 86)
                =~= "TMPMNT=$(mktemp -d)\nmount \"$PART3\" \"$TMPMNT\"\n"@);
        }
        assert(occurs_at(SEED_STATE@, d[1], 109) && d[1].len() == 95) by {
            reveal_strlit(
                "MACHINE_ID=$(head -c 16 /dev/urandom | xxd -p -c 32)\necho \"$MACHINE_ID\" > \"$TMPMNT/machine-id\"\n",
            );
            assert(SEED_STATE@.subrange(109, 204)
                =~= "MACHINE_ID=$(head -c 16 /dev/urandom | xxd -p -c 32)\necho \"$MACHINE_ID\" > \"$TMPMNT/machine-id\"\n"@);
        }
        assert(occurs_at(SEED_STATE@, d[2], 224) && d[2].len() == 167) by {
            reveal_strlit(
                "install -d -m 755 \"$TMPMNT/k3s\"\ninstall -d -m 755 \"$TMPMNT/containerd\"\ninstall -d -m 755 \"$TMPMNT/etc/k3s\"\ninstall -d -m 755 \"$TMPMNT/etc/network\" 2>/dev/null || true\n",
            );
            assert(SEED_STATE@.subrange(224, 391)
                =~= "install -d -m 755 \"$TMPMNT/k3s\"\ninstall -d -m 755 \"$TMPMNT/containerd\"\ninstall -d -m 755 \"$TMPMNT/etc/k3s\"\ninstall -d -m 755 \"$TMPMNT/etc/network\" 2>/dev/null || true\n"@);
        }
        lemma_part_first(SEED_STATE@, d, 2, 204, 224);
        lemma_part_first(SEED_STATE@, d, 1, 86, 109);
        lemma_part_first(SEED_STATE@, d, 0, 0, 41);
    }
}

/// The order in which the script comes to its end.
#[verifier::rlimit(60)]
proof fn lemma_finishing_order()
    ensures
        holds_in_order(
            FINISH_BOOTSTRAP@,
            seq![
                "if [ -n \"$NETCONF\" ] && [ \"$NETCONF\" != \"\" ]; then\n    echo \"$NETCONF\" > \"$TMPMNT/etc/network/interfaces\" 2>/dev/null || true\nfi\n"@,
                "umount \"$TMPMNT\"\nrmdir \"$TMPMNT\"\n"@,
            ],
        ),
{
    let f = seq![
        "if [ -n \"$NETCONF\" ] && [ \"$NETCONF\" != \"\" ]; then\n    echo \"$NETCONF\" > \"$TMPMNT/etc/network/interfaces\" 2>/dev/null || true\nfi\n"@,
        "umount \"$TMPMNT\"\nrmdir \"$TMPMNT\"\n"@,
    ];
    assert(holds_in_order(FINISH_BOOTSTRAP@, f)) by {
        reveal_strlit(r#"
# Write network config if provided
if [ -n "$NETCONF" ] && [ "$NETCONF" != "" ]; then
    echo "$NETCONF" > "$TMPMNT/etc/network/interfaces" 2>/dev/null || true
fi

umount "$TMPMNT"
rmdir "$TMPMNT"
echo ">>> Bootstrap complete"
"#);
        assert(occurs_at(FINISH_BOOTSTRAP@, f[0], 36) && f[0].len() == 129) by {
            reveal_strlit(
                "if [ -n \"$NETCONF\" ] && [ \"$NETCONF\" != \"\" ]; then\n    echo \"$NETCONF\" > \"$TMPMNT/etc/network/interfaces\" 2>/dev/null || true\nfi\n",
            );
            assert(FINISH_BOOTSTRAP@.subrange(36, 165)
                =~= "if [ -n \"$NETCONF\" ] && [ \"$NETCONF\" != \"\" ]; then\n    echo \"$NETCONF\" > \"$TMPMNT/etc/network/interfaces\" 2>/dev/null || true\nfi\n"@);
        }
        assert(occurs_at(FINISH_BOOTSTRAP@, f[1], 166) && f[1].len() == 33) by {
            reveal_strlit("umount \"$TMPMNT\"\nrmdir \"$TMPMNT\"\n");
            assert(FINISH_BOOTSTRAP@.subrange(166, 199)
                =~= "umount \"$TMPMNT\"\nrmdir \"$TMPMNT\"\n"@);
        }
        lemma_part_first(FINISH_BOOTSTRAP@, f, 1, 165, 166);
        lemma_part_first(FINISH_BOOTSTRAP@, f, 0, 0, 36);
    }
}

/// Bootstrapping a drive does this, in this order: a new partition table; a boot
/// partition, marked for the firmware to boot from, a partition for the system and
/// one for the state of the cluster; the names of the partitions, found out once the
/// kernel knows them, with a `p` before the number for the kinds of drives that have
/// it and without it for all others; a file system for each, with its label; the
/// state partition mounted, and in it an identity, the directories, the node's mode
/// and the configuration of K3s; the network, if it is configured; and at the end the
/// partition is let go.
#[verifier::rlimit(60)]
pub proof fn lemma_bootstrap_order(drive: Seq<char>, seed: NodeSeed<Seq<char>>)
    ensures
        ({
            let named = |number: Seq<char>, infix: Seq<char>|
                "    PART"@ + number + "=\"${DEVICE}"@ + infix + number + "\"\n"@;
            let names = "if [[ \"$DEVICE\" == /dev/nvme* ]] || [[ \"$DEVICE\" == /dev/mmcblk* ]] || [[ \"$DEVICE\" == /dev/loop* ]]; then\n"@ + named("1"@, "p"@) + named("2"@, "p"@) + named("3"@, "p"@)
                + "else\n"@ + named("1"@, ""@) + named("2"@, ""@) + named("3"@, ""@) + "fi\n"@;
            holds_in_order(
                bootstrap_script(drive, seed),
                seq![
                    "parted -s \"$DEVICE\" mklabel gpt\n"@,
                    "parted -s \"$DEVICE\" mkpart primary fat32 1MiB 513MiB\nparted -s \"$DEVICE\" set 1 esp on\nparted -s \"$DEVICE\" set 1 boot on\n"@,
                    "parted -s \"$DEVICE\" mkpart primary ext4 513MiB 4609MiB\n"@,
                    "parted -s \"$DEVICE\" mkpart primary ext4 4609MiB 100%\n"@,
                ] + seq![
                    "sleep 2\npartprobe \"$DEVICE\" 2>/dev/null || true\nsleep 1\n"@,
                    names,
                ] + seq![
                    "mkfs.vfat -F 32 -n \"system-boot\" \"$PART1\"\n"@,
                    "mkfs.ext4 -F -L \"writable\" \"$PART2\"\n"@,
                    "mkfs.ext4 -F -L \"kube-state\" -U \"$KUBE_UUID\" \"$PART3\"\n"@,
                ] + seq![
                    "TMPMNT=$(mktemp -d)\nmount \"$PART3\" \"$TMPMNT\"\n"@,
                    "MACHINE_ID=$(head -c 16 /dev/urandom | xxd -p -c 32)\necho \"$MACHINE_ID\" > \"$TMPMNT/machine-id\"\n"@,
                    "install -d -m 755 \"$TMPMNT/k3s\"\ninstall -d -m 755 \"$TMPMNT/containerd\"\ninstall -d -m 755 \"$TMPMNT/etc/k3s\"\ninstall -d -m 755 \"$TMPMNT/etc/network\" 2>/dev/null || true\n"@,
                ] + seq![
                    "cat > \"$TMPMNT/node-mode.env\" << 'EOF2'\n"@ + node_mode_text(seed) + "EOF2\n"@,
                    "cat > \"$TMPMNT/etc/k3s/config.yaml\" << 'EOF3'\n"@ + k3s_config_text(seed)
                        + "EOF3\n"@,
                ] + seq![
                    "if [ -n \"$NETCONF\" ] && [ \"$NETCONF\" != \"\" ]; then\n    echo \"$NETCONF\" > \"$TMPMNT/etc/network/interfaces\" 2>/dev/null || true\nfi\n"@,
                    "umount \"$TMPMNT\"\nrmdir \"$TMPMNT\"\n"@,
                ],
            )
        }),
{
    let a = seq![
        "parted -s \"$DEVICE\" mklabel gpt\n"@,
        "parted -s \"$DEVICE\" mkpart primary fat32 1MiB 513MiB\nparted -s \"$DEVICE\" set 1 esp on\nparted -s \"$DEVICE\" set 1 boot on\n"@,
        "parted -s \"$DEVICE\" mkpart primary ext4 513MiB 4609MiB\n"@,
        "parted -s \"$DEVICE\" mkpart primary ext4 4609MiB 100%\n"@,
    ];
    let named = |number: Seq<char>, infix: Seq<char>|
        "    PART"@ + number + "=\"${DEVICE}"@ + infix + number + "\"\n"@;
    let names = "if [[ \"$DEVICE\" == /dev/nvme* ]] || [[ \"$DEVICE\" == /dev/mmcblk* ]] || [[ \"$DEVICE\" == /dev/loop* ]]; then\n"@ + named("1"@, "p"@) + named("2"@, "p"@) + named("3"@, "p"@) + "else\n"@
        + named("1"@, ""@) + named("2"@, ""@) + named("3"@, ""@) + "fi\n"@;
    let b = seq!["sleep 2\npartprobe \"$DEVICE\" 2>/dev/null || true\nsleep 1\n"@, names];
    let c = seq![
        "mkfs.vfat -F 32 -n \"system-boot\" \"$PART1\"\n"@,
        "mkfs.ext4 -F -L \"writable\" \"$PART2\"\n"@,
        "mkfs.ext4 -F -L \"kube-state\" -U \"$KUBE_UUID\" \"$PART3\"\n"@,
    ];
    let d = seq![
        "TMPMNT=$(mktemp -d)\nmount \"$PART3\" \"$TMPMNT\"\n"@,
        "MACHINE_ID=$(head -c 16 /dev/urandom | xxd -p -c 32)\necho \"$MACHINE_ID\" > \"$TMPMNT/machine-id\"\n"@,
        "install -d -m 755 \"$TMPMNT/k3s\"\ninstall -d -m 755 \"$TMPMNT/containerd\"\ninstall -d -m 755 \"$TMPMNT/etc/k3s\"\ninstall -d -m 755 \"$TMPMNT/etc/network\" 2>/dev/null || true\n"@,
    ];
    let f = seq![
        "if [ -n \"$NETCONF\" ] && [ \"$NETCONF\" != \"\" ]; then\n    echo \"$NETCONF\" > \"$TMPMNT/etc/network/interfaces\" 2>/dev/null || true\nfi\n"@,
        "umount \"$TMPMNT\"\nrmdir \"$TMPMNT\"\n"@,
    ];
    let text = partitioning();
    lemma_partitioning_order();
    lemma_naming_order();
    lemma_formatting_order();
    lemma_seeding_order();
    lemma_finishing_order();
    let mode = "cat > \"$TMPMNT/node-mode.env\" << 'EOF2'\n"@ + node_mode_text(seed) + "EOF2\n"@;
    let gap = "\n# Write config.yaml for K3s\n"@;
    let config = "cat > \"$TMPMNT/etc/k3s/config.yaml\" << 'EOF3'\n"@ + k3s_config_text(seed)
        + "EOF3\n"@;
    let e = seq![mode, config];
    let files = mode + gap + config;
    assert(holds_in_order(files, e)) by {
        assert(files.subrange(0, mode.len() as int) =~= mode);
        let at = (mode.len() + gap.len()) as int;
        assert(files.subrange(at, at + config.len()) =~= config);
        lemma_part_first(files, e, 1, mode.len() as int, at);
        lemma_part_first(files, e, 0, 0, 0);
    }
    lemma_in_order_both(text, NAME_PARTITIONS@, a, b);
    lemma_in_order_both(text + NAME_PARTITIONS@, FORMAT_PARTITIONS@, a + b, c);
    lemma_in_order_both(text + NAME_PARTITIONS@ + FORMAT_PARTITIONS@, SEED_STATE@, a + b + c, d);
    let seeded = text + NAME_PARTITIONS@ + FORMAT_PARTITIONS@ + SEED_STATE@;
    lemma_in_order_both(seeded, files, a + b + c + d, e);
    lemma_in_order_both(seeded + files, FINISH_BOOTSTRAP@, a + b + c + d + e, f);
    let head = bootstrap_head(drive, seed);
    let rest = seeded + files + FINISH_BOOTSTRAP@;
    let all = a + b + c + d + e + f;
    lemma_in_order_inside(head, rest, Seq::empty(), all, 0, 0);
    assert(bootstrap_script(drive, seed) =~= head + rest + Seq::<char>::empty());
    lemma_in_order_earlier(bootstrap_script(drive, seed), all, 0, head.len() as int, 0);
}

/// The text that names the partitions.
#[verifier::rlimit(60)]
proof fn lemma_names_text()
    ensures
        ({
            let named = |number: Seq<char>, infix: Seq<char>|
                "    PART"@ + number + "=\"${DEVICE}"@ + infix + number + "\"\n"@;
            "if [[ \"$DEVICE\" == /dev/nvme* ]] || [[ \"$DEVICE\" == /dev/mmcblk* ]] || [[ \"$DEVICE\" == /dev/loop* ]]; then\n"@ + named("1"@, "p"@) + named("2"@, "p"@) + named("3"@, "p"@) + "else\n"@
                + named("1"@, ""@) + named("2"@, ""@) + named("3"@, ""@) + "fi\n"@
                == "if [[ \"$DEVICE\" == /dev/nvme* ]] || [[ \"$DEVICE\" == /dev/mmcblk* ]] || [[ \"$DEVICE\" == /dev/loop* ]]; then\n    PART1=\"${DEVICE}p1\"\n    PART2=\"${DEVICE}p2\"\n    PART3=\"${DEVICE}p3\"\nelse\n    PART1=\"${DEVICE}1\"\n    PART2=\"${DEVICE}2\"\n    PART3=\"${DEVICE}3\"\nfi\n"@
        }),
{
    let named = |number: Seq<char>, infix: Seq<char>|
        "    PART"@ + number + "=\"${DEVICE}"@ + infix + number + "\"\n"@;
    let kind = "if [[ \"$DEVICE\" == /dev/nvme* ]] || [[ \"$DEVICE\" == /dev/mmcblk* ]] || [[ \"$DEVICE\" == /dev/loop* ]]; then\n"@;
    reveal_strlit("    PART");
    reveal_strlit("=\"${DEVICE}");
    reveal_strlit("\"\n");
    reveal_strlit("p");
    reveal_strlit("");
    reveal_strlit("1");
    reveal_strlit("2");
    reveal_strlit("3");
    let p1 = "    PART1=\"${DEVICE}p1\"\n"@;
    assert(named("1"@, "p"@) =~= p1) by {
        reveal_strlit("    PART1=\"${DEVICE}p1\"\n");
    }
    let p2 = "    PART2=\"${DEVICE}p2\"\n"@;
    assert(named("2"@, "p"@) =~= p2) by {
        reveal_strlit("    PART2=\"${DEVICE}p2\"\n");
    }
    let p3 = "    PART3=\"${DEVICE}p3\"\n"@;
    assert(named("3"@, "p"@) =~= p3) by {
        reveal_strlit("    PART3=\"${DEVICE}p3\"\n");
    }
    let q1 = "    PART1=\"${DEVICE}1\"\n"@;
    assert(named("1"@, ""@) =~= q1) by {
        reveal_strlit("    PART1=\"${DEVICE}1\"\n");
    }
    let q2 = "    PART2=\"${DEVICE}2\"\n"@;
    assert(named("2"@, ""@) =~= q2) by {
        reveal_strlit("    PART2=\"${DEVICE}2\"\n");
    }
    let q3 = "    PART3=\"${DEVICE}3\"\n"@;
    assert(named("3"@, ""@) =~= q3) by {
        reveal_strlit("    PART3=\"${DEVICE}3\"\n");
    }

    let whole = "if [[ \"$DEVICE\" == /dev/nvme* ]] || [[ \"$DEVICE\" == /dev/mmcblk* ]] || [[ \"$DEVICE\" == /dev/loop* ]]; then\n    PART1=\"${DEVICE}p1\"\n    PART2=\"${DEVICE}p2\"\n    PART3=\"${DEVICE}p3\"\nelse\n    PART1=\"${DEVICE}1\"\n    PART2=\"${DEVICE}2\"\n    PART3=\"${DEVICE}3\"\nfi\n"@;
    assert(kind + p1 + p2 + p3 + "else\n"@ + q1 + q2 + q3 + "fi\n"@ =~= whole) by {
        reveal_strlit(
            "if [[ \"$DEVICE\" == /dev/nvme* ]] || [[ \"$DEVICE\" == /dev/mmcblk* ]] || [[ \"$DEVICE\" == /dev/loop* ]]; then\n    PART1=\"${DEVICE}p1\"\n    PART2=\"${DEVICE}p2\"\n    PART3=\"${DEVICE}p3\"\nelse\n    PART1=\"${DEVICE}1\"\n    PART2=\"${DEVICE}2\"\n    PART3=\"${DEVICE}3\"\nfi\n",
        );
        assert(whole.subrange(0, 107) =~= kind) by {
            reveal_strlit(
                "if [[ \"$DEVICE\" == /dev/nvme* ]] || [[ \"$DEVICE\" == /dev/mmcblk* ]] || [[ \"$DEVICE\" == /dev/loop* ]]; then\n",
            );
        }
        assert(kind.len() == 107) by {
            reveal_strlit(
                "if [[ \"$DEVICE\" == /dev/nvme* ]] || [[ \"$DEVICE\" == /dev/mmcblk* ]] || [[ \"$DEVICE\" == /dev/loop* ]]; then\n",
            );
        }
        assert(whole.subrange(107, 131) =~= p1) by {
            reveal_strlit("    PART1=\"${DEVICE}p1\"\n");
        }
        assert(p1.len() == 24) by {
            reveal_strlit("    PART1=\"${DEVICE}p1\"\n");
        }
        assert(whole.subrange(131, 155) =~= p2) by {
            reveal_strlit("    PART2=\"${DEVICE}p2\"\n");
        }
        assert(p2.len() == 24) by {
            reveal_strlit("    PART2=\"${DEVICE}p2\"\n");
        }
        assert(whole.subrange(155, 179) =~= p3) by {
            reveal_strlit("    PART3=\"${DEVICE}p3\"\n");
        }
        assert(p3.len() == 24) by {
            reveal_strlit("    PART3=\"${DEVICE}p3\"\n");
        }
        assert(whole.subrange(179, 184) =~= "else\n"@) by {
            reveal_strlit("else\n");
        }
        assert("else\n"@.len() == 5) by {
            reveal_strlit("else\n");
        }
        assert(whole.subrange(184, 207) =~= q1) by {
            reveal_strlit("    PART1=\"${DEVICE}1\"\n");
        }
        assert(q1.len() == 23) by {
            reveal_strlit("    PART1=\"${DEVICE}1\"\n");
        }
        assert(whole.subrange(207, 230) =~= q2) by {
            reveal_strlit("    PART2=\"${DEVICE}2\"\n");
        }
        assert(q2.len() == 23) by {
            reveal_strlit("    PART2=\"${DEVICE}2\"\n");
        }
        assert(whole.subrange(230, 253) =~= q3) by {
            reveal_strlit("    PART3=\"${DEVICE}3\"\n");
        }
        assert(q3.len() == 23) by {
            reveal_strlit("    PART3=\"${DEVICE}3\"\n");
        }
        assert(whole.subrange(253, 256) =~= "fi\n"@) by {
            reveal_strlit("fi\n");
        }
        assert("fi\n"@.len() == 3) by {
            reveal_strlit("fi\n");
        }
    }
}

/// No other partition is marked: wherever the part of the bootstrap script that
/// creates the partitions sets a flag, it does so on partition 1, and the flags that
/// it sets are the two that firmware boots from.
#[verifier::rlimit(80)]
pub proof fn lemma_only_boot_partition_is_marked()
    ensures
        forall|i: int|
            #[trigger] occurs_at(partitioning(), "parted -s \"$DEVICE\" set "@, i)
                ==> occurs_at(partitioning(), "parted -s \"$DEVICE\" set 1 esp on\n"@, i)
                || occurs_at(partitioning(), "parted -s \"$DEVICE\" set 1 boot on\n"@, i),
        exists|i: int|
            #[trigger] occurs_at(partitioning(), "parted -s \"$DEVICE\" set 1 esp on\n"@, i),
        exists|i: int|
            #[trigger] occurs_at(partitioning(), "parted -s \"$DEVICE\" set 1 boot on\n"@, i),
{
    lemma_partitioning_text();
    let text = partitioning();
    let esp = "parted -s \"$DEVICE\" set 1 esp on\n"@;
    let boot = "parted -s \"$DEVICE\" set 1 boot on\n"@;
    reveal_strlit(
        "\necho \">>> Clearing partition table on $DEVICE\"\nparted -s \"$DEVICE\" mklabel gpt\n\necho \">>> Creating boot partition (512MB, FAT32)\"\nparted -s \"$DEVICE\" mkpart primary fat32 1MiB 513MiB\nparted -s \"$DEVICE\" set 1 esp on\nparted -s \"$DEVICE\" set 1 boot on\n\necho \">>> Creating OS partition (4GB, EXT4)\"\nparted -s \"$DEVICE\" mkpart primary ext4 513MiB 4609MiB\n\necho \">>> Creating kube-state partition (remainder, EXT4)\"\nparted -s \"$DEVICE\" mkpart primary ext4 4609MiB 100%\n",
    );
    assert(occurs_at(text, esp, 184)) by {
        reveal_strlit("parted -s \"$DEVICE\" set 1 esp on\n");
        assert(text.subrange(184, 217) =~= esp);
    }
    assert(occurs_at(text, boot, 217)) by {
        reveal_strlit("parted -s \"$DEVICE\" set 1 boot on\n");
        assert(text.subrange(217, 251) =~= boot);
    }
    let mark = "parted -s \"$DEVICE\" set "@;
    assert forall|i: int| #[trigger] occurs_at(text, mark, i) implies i == 184 || i
        == 217 by {
        reveal_strlit("parted -s \"$DEVICE\" set ");
        let found = text.subrange(i, i + mark.len());
        assert(found[20] == text[i + 20] && found[21] == text[i + 21] && found[22] == text[i + 22]
            && found[19] == text[i + 19]);
    }
}

/// Behind the partitions nothing changes them any more: no other part of the
/// bootstrap script runs the program that does.
#[verifier::rlimit(60)]
pub proof fn lemma_partitions_stay()
    ensures
        !contains(NAME_PARTITIONS@, "parted "@),
        !contains(FORMAT_PARTITIONS@, "parted "@),
        !contains(SEED_STATE@, "parted "@),
        !contains(FINISH_BOOTSTRAP@, "parted "@),
{
    reveal_strlit("parted ");
    assert forall|i: int| !#[trigger] occurs_at(NAME_PARTITIONS@, "parted "@, i) by {
        reveal_strlit(r#"
echo ">>> Waiting for kernel to re-read partition table"
sleep 2
partprobe "$DEVICE" 2>/dev/null || true
sleep 1

# Determine partition device names
if [[ "$DEVICE" == /dev/nvme* ]] || [[ "$DEVICE" == /dev/mmcblk* ]] || [[ "$DEVICE" == /dev/loop* ]]; then
    PART1="${DEVICE}p1"
    PART2="${DEVICE}p2"
    PART3="${DEVICE}p3"
else
    PART1="${DEVICE}1"
    PART2="${DEVICE}2"
    PART3="${DEVICE}3"
fi
"#);
        if occurs_at(NAME_PARTITIONS@, "parted "@, i) {
            let found = NAME_PARTITIONS@.subrange(i, i + 7);
            assert(found[0] == NAME_PARTITIONS@[i] && found[3] == NAME_PARTITIONS@[i + 3] && found[4] == NAME_PARTITIONS@[i + 4] && found[5] == NAME_PARTITIONS@[i + 5] && found[6]
                == NAME_PARTITIONS@[i + 6]);
        }
    }
    assert forall|i: int| !#[trigger] occurs_at(FORMAT_PARTITIONS@, "parted "@, i) by {
        reveal_strlit(r#"
echo ">>> Formatting boot partition (FAT32)"
mkfs.vfat -F 32 -n "system-boot" "$PART1"

echo ">>> Formatting OS partition (EXT4)"
mkfs.ext4 -F -L "writable" "$PART2"

echo ">>> Formatting kube-state partition (EXT4, UUID=$KUBE_UUID)"
mkfs.ext4 -F -L "kube-state" -U "$KUBE_UUID" "$PART3"
"#);
        if occurs_at(FORMAT_PARTITIONS@, "parted "@, i) {
            let found = FORMAT_PARTITIONS@.subrange(i, i + 7);
            assert(found[0] == FORMAT_PARTITIONS@[i] && found[3] == FORMAT_PARTITIONS@[i + 3] && found[4] == FORMAT_PARTITIONS@[i + 4] && found[5] == FORMAT_PARTITIONS@[i + 5] && found[6]
                == FORMAT_PARTITIONS@[i + 6]);
        }
    }
    assert forall|i: int| !#[trigger] occurs_at(SEED_STATE@, "parted "@, i) by {
        reveal_strlit(r#"
echo ">>> Seeding kube-state partition"
TMPMNT=$(mktemp -d)
mount "$PART3" "$TMPMNT"

# Generate machine-id
MACHINE_ID=$(head -c 16 /dev/urandom | xxd -p -c 32)
echo "$MACHINE_ID" > "$TMPMNT/machine-id"

# Seed directories
install -d -m 755 "$TMPMNT/k3s"
install -d -m 755 "$TMPMNT/containerd"
install -d -m 755 "$TMPMNT/etc/k3s"
install -d -m 755 "$TMPMNT/etc/network" 2>/dev/null || true

# Write node-mode.env
"#);
        if occurs_at(SEED_STATE@, "parted "@, i) {
            let found = SEED_STATE@.subrange(i, i + 7);
            assert(found[0] == SEED_STATE@[i] && found[3] == SEED_STATE@[i + 3] && found[4] == SEED_STATE@[i + 4] && found[5] == SEED_STATE@[i + 5] && found[6]
                == SEED_STATE@[i + 6]);
        }
    }
    assert forall|i: int| !#[trigger] occurs_at(FINISH_BOOTSTRAP@, "parted "@, i) by {
        reveal_strlit(r#"
# Write network config if provided
if [ -n "$NETCONF" ] && [ "$NETCONF" != "" ]; then
    echo "$NETCONF" > "$TMPMNT/etc/network/interfaces" 2>/dev/null || true
fi

umount "$TMPMNT"
rmdir "$TMPMNT"
echo ">>> Bootstrap complete"
"#);
        if occurs_at(FINISH_BOOTSTRAP@, "parted "@, i) {
            let found = FINISH_BOOTSTRAP@.subrange(i, i + 7);
            assert(found[0] == FINISH_BOOTSTRAP@[i] && found[3] == FINISH_BOOTSTRAP@[i + 3] && found[4] == FINISH_BOOTSTRAP@[i + 4] && found[5] == FINISH_BOOTSTRAP@[i + 5] && found[6]
                == FINISH_BOOTSTRAP@[i + 6]);
        }
    }
}

/// A drive is flashed in this order: it is made sure that the image is there, and
/// otherwise the script ends; the image is attached, its loop device found, if need
/// be by attaching it anew, and the names of its partitions made of that; the names
/// of the drive's first two partitions are found out; the first partition of the
/// image is copied, then the second; and the image is let go.
pub proof fn lemma_flash_order(drive: Seq<char>, image: Seq<char>)
    ensures
        lines_in_order(
            flash_lines(drive, image),
            seq![
                "set -euo pipefail"@,
                "DEVICE=\""@ + drive + "\""@,
                "IMAGE=\"/build-images/"@ + image + "\""@,
                "if [ ! -f \"$IMAGE\" ]; then"@,
                "    exit 1"@,
                "kpartx -av \"$IMAGE\" 2>&1"@,
                "LOOP_DEV=$(kpartx -l \"$IMAGE\" | head -1 | awk '{print $1}' | sed 's/p[0-9]//' | head -1)"@,
                "if [ -z \"$LOOP_DEV\" ]; then"@,
                "    LOOP_DEV=$(losetup --show -f \"$IMAGE\")"@,
                "    kpartx -av \"$LOOP_DEV\" 2>&1"@,
                "MAPPER_BASE=$(basename \"$LOOP_DEV\")"@,
                "if [[ \"$DEVICE\" == /dev/nvme* ]] || [[ \"$DEVICE\" == /dev/mmcblk* ]] || [[ \"$DEVICE\" == /dev/loop* ]]; then"@,
                "dd if=/dev/mapper/${MAPPER_BASE}p1 of=\"$TARGET_P1\" bs=4M status=progress conv=fsync"@,
                "dd if=/dev/mapper/${MAPPER_BASE}p2 of=\"$TARGET_P2\" bs=4M status=progress conv=fsync"@,
                "kpartx -dv \"$IMAGE\" 2>&1 || true"@,
                "losetup -d \"$LOOP_DEV\" 2>/dev/null || true"@,
            ],
            0,
            0,
        ),
{
    let lines = flash_lines(drive, image);
    let wanted = seq![
        "set -euo pipefail"@,
        "DEVICE=\""@ + drive + "\""@,
        "IMAGE=\"/build-images/"@ + image + "\""@,
        "if [ ! -f \"$IMAGE\" ]; then"@,
        "    exit 1"@,
        "kpartx -av \"$IMAGE\" 2>&1"@,
        "LOOP_DEV=$(kpartx -l \"$IMAGE\" | head -1 | awk '{print $1}' | sed 's/p[0-9]//' | head -1)"@,
        "if [ -z \"$LOOP_DEV\" ]; then"@,
        "    LOOP_DEV=$(losetup --show -f \"$IMAGE\")"@,
        "    kpartx -av \"$LOOP_DEV\" 2>&1"@,
        "MAPPER_BASE=$(basename \"$LOOP_DEV\")"@,
        "if [[ \"$DEVICE\" == /dev/nvme* ]] || [[ \"$DEVICE\" == /dev/mmcblk* ]] || [[ \"$DEVICE\" == /dev/loop* ]]; then"@,
        "dd if=/dev/mapper/${MAPPER_BASE}p1 of=\"$TARGET_P1\" bs=4M status=progress conv=fsync"@,
        "dd if=/dev/mapper/${MAPPER_BASE}p2 of=\"$TARGET_P2\" bs=4M status=progress conv=fsync"@,
        "kpartx -dv \"$IMAGE\" 2>&1 || true"@,
        "losetup -d \"$LOOP_DEV\" 2>/dev/null || true"@,
    ];
    assert(lines[0] == wanted[0]);
    assert(lines[2] == wanted[1]);
    assert(lines[3] == wanted[2]);
    assert(lines[6] == wanted[3]);
    assert(lines[9] == wanted[4]);
    assert(lines[13] == wanted[5]);
    assert(lines[16] == wanted[6]);
    assert(lines[17] == wanted[7]);
    assert(lines[18] == wanted[8]);
    assert(lines[19] == wanted[9]);
    assert(lines[25] == wanted[10]);
    assert(lines[27] == wanted[11]);
    assert(lines[36] == wanted[12]);
    assert(lines[39] == wanted[13]);
    assert(lines[42] == wanted[14]);
    assert(lines[43] == wanted[15]);
    lemma_line_first(lines, wanted, 15, 43, 43);
    lemma_line_first(lines, wanted, 14, 40, 42);
    lemma_line_first(lines, wanted, 13, 37, 39);
    lemma_line_first(lines, wanted, 12, 28, 36);
    lemma_line_first(lines, wanted, 11, 26, 27);
    lemma_line_first(lines, wanted, 10, 20, 25);
    lemma_line_first(lines, wanted, 9, 19, 19);
    lemma_line_first(lines, wanted, 8, 18, 18);
    lemma_line_first(lines, wanted, 7, 17, 17);
    lemma_line_first(lines, wanted, 6, 14, 16);
    lemma_line_first(lines, wanted, 5, 10, 13);
    lemma_line_first(lines, wanted, 4, 7, 9);
    lemma_line_first(lines, wanted, 3, 4, 6);
    lemma_line_first(lines, wanted, 2, 3, 3);
    lemma_line_first(lines, wanted, 1, 1, 2);
    lemma_line_first(lines, wanted, 0, 0, 0);

}

/// The script ends only where the image is missing, and it is attached anew only where
/// its loop device was not found: nothing but that stands in these branches, and what
/// follows them is done in any case.
pub proof fn lemma_flash_guards(drive: Seq<char>, image: Seq<char>)
    ensures
        ({
            let lines = flash_lines(drive, image);
            &&& exists|i: int|
                {
                    &&& 0 <= i < lines.len() - 4
                    &&& #[trigger] lines[i] == "if [ ! -f \"$IMAGE\" ]; then"@
                    &&& lines[i + 1] == "    echo \"ERROR: Image not found at $IMAGE\""@
                    &&& lines[i + 3] == "    exit 1"@
                    &&& lines[i + 4] == "fi"@
                }
            &&& exists|i: int|
                {
                    &&& 0 <= i < lines.len() - 3
                    &&& #[trigger] lines[i] == "if [ -z \"$LOOP_DEV\" ]; then"@
                    &&& lines[i + 1] == "    LOOP_DEV=$(losetup --show -f \"$IMAGE\")"@
                    &&& lines[i + 2] == "    kpartx -av \"$LOOP_DEV\" 2>&1"@
                    &&& lines[i + 3] == "fi"@
                }
        }),
{
    let lines = flash_lines(drive, image);
    assert(lines[6] == "if [ ! -f \"$IMAGE\" ]; then"@);
    assert(lines[17] == "if [ -z \"$LOOP_DEV\" ]; then"@);
}

/// Whether the lines of the second list from the `k`th on are among those of the
/// first from `from` on, one behind another.
pub open spec fn lines_in_order(
    lines: Seq<Seq<char>>,
    wanted: Seq<Seq<char>>,
    k: int,
    from: int,
) -> bool
    decreases wanted.len() - k,
{
    k >= wanted.len() || exists|i: int|
        from <= i < lines.len() && #[trigger] lines[i] == wanted[k] && lines_in_order(
            lines,
            wanted,
            k + 1,
            i + 1,
        )
}

proof fn lemma_line_first(
    lines: Seq<Seq<char>>,
    wanted: Seq<Seq<char>>,
    k: int,
    from: int,
    i: int,
)
    requires
        0 <= k < wanted.len(),
        from <= i < lines.len(),
        lines[i] == wanted[k],
        lines_in_order(lines, wanted, k + 1, i + 1),
    ensures
        lines_in_order(lines, wanted, k, from),
{
}

/// The targets of the copies are the first and the second partition of the drive by
/// the naming of its kind: directly behind the line that tells the kinds apart, a `p`
/// and the number are added to the drive's name, and between `else` and `fi` the
/// number alone. No other line names a target.
#[verifier::rlimit(60)]
pub proof fn lemma_flash_targets(drive: Seq<char>, image: Seq<char>)
    ensures
        ({
            let lines = flash_lines(drive, image);
            let named = |number: Seq<char>, infix: Seq<char>|
                "    TARGET_P"@ + number + "=\"${DEVICE}"@ + infix + number + "\""@;
            exists|i: int|
                {
                    &&& 0 <= i < lines.len() - 6
                    &&& #[trigger] lines[i] == "if [[ \"$DEVICE\" == /dev/nvme* ]] || [[ \"$DEVICE\" == /dev/mmcblk* ]] || [[ \"$DEVICE\" == /dev/loop* ]]; then"@
                    &&& lines[i + 1] == named("1"@, "p"@)
                    &&& lines[i + 2] == named("2"@, "p"@)
                    &&& lines[i + 3] == "else"@
                    &&& lines[i + 4] == named("1"@, ""@)
                    &&& lines[i + 5] == named("2"@, ""@)
                    &&& lines[i + 6] == "fi"@
                    &&& forall|j: int|
                        0 <= j < lines.len() && names_partition(#[trigger] lines[j]) ==> i + 1 <= j
                            <= i + 2 || i + 4 <= j <= i + 5
                }
        }),
{
    let lines = flash_lines(drive, image);
    let named = |number: Seq<char>, infix: Seq<char>|
        "    TARGET_P"@ + number + "=\"${DEVICE}"@ + infix + number + "\""@;
    reveal_strlit("    TARGET_P");
    reveal_strlit("=\"${DEVICE}");
    reveal_strlit("\"");
    reveal_strlit("p");
    reveal_strlit("");
    reveal_strlit("1");
    reveal_strlit("2");
    assert(named("1"@, "p"@) =~= "    TARGET_P1=\"${DEVICE}p1\""@) by {
        reveal_strlit("    TARGET_P1=\"${DEVICE}p1\"");
    }
    assert(named("2"@, "p"@) =~= "    TARGET_P2=\"${DEVICE}p2\""@) by {
        reveal_strlit("    TARGET_P2=\"${DEVICE}p2\"");
    }
    assert(named("1"@, ""@) =~= "    TARGET_P1=\"${DEVICE}1\""@) by {
        reveal_strlit("    TARGET_P1=\"${DEVICE}1\"");
    }
    assert(named("2"@, ""@) =~= "    TARGET_P2=\"${DEVICE}2\""@) by {
        reveal_strlit("    TARGET_P2=\"${DEVICE}2\"");
    }

    assert(lines[27] == "if [[ \"$DEVICE\" == /dev/nvme* ]] || [[ \"$DEVICE\" == /dev/mmcblk* ]] || [[ \"$DEVICE\" == /dev/loop* ]]; then"@);
    assert(!names_partition("set -euo pipefail"@)) by {
        reveal_strlit("set -euo pipefail");
        lemma_no_target("set -euo pipefail"@);
    }
    assert(!names_partition(""@)) by {
        reveal_strlit("");
        lemma_no_target(""@);
    }
    assert(!names_partition("DEVICE=\""@ + drive + "\""@)) by {
        reveal_strlit("DEVICE=\"");
        lemma_no_target("DEVICE=\""@ + drive + "\""@);
    }
    assert(!names_partition("IMAGE=\"/build-images/"@ + image + "\""@)) by {
        reveal_strlit("IMAGE=\"/build-images/");
        lemma_no_target("IMAGE=\"/build-images/"@ + image + "\""@);
    }
    assert(!names_partition("echo \">>> Verifying image exists\""@)) by {
        reveal_strlit("echo \">>> Verifying image exists\"");
        lemma_no_target("echo \">>> Verifying image exists\""@);
    }
    assert(!names_partition("if [ ! -f \"$IMAGE\" ]; then"@)) by {
        reveal_strlit("if [ ! -f \"$IMAGE\" ]; then");
        lemma_no_target("if [ ! -f \"$IMAGE\" ]; then"@);
    }
    assert(!names_partition("    echo \"ERROR: Image not found at $IMAGE\""@)) by {
        reveal_strlit("    echo \"ERROR: Image not found at $IMAGE\"");
        lemma_no_target("    echo \"ERROR: Image not found at $IMAGE\""@);
    }
    assert(!names_partition("    echo \"Ensure the image is in the ./output directory (mounted at /build-images).\""@)) by {
        reveal_strlit(
            "    echo \"Ensure the image is in the ./output directory (mounted at /build-images).\"",
        );
        lemma_no_target(
            "    echo \"Ensure the image is in the ./output directory (mounted at /build-images).\""@,
        );
    }
    assert(!names_partition("    exit 1"@)) by {
        reveal_strlit("    exit 1");
        lemma_no_target("    exit 1"@);
    }
    assert(!names_partition("fi"@)) by {
        reveal_strlit("fi");
        lemma_no_target("fi"@);
    }
    assert(!names_partition("echo \">>> Attaching image via loopback\""@)) by {
        reveal_strlit("echo \">>> Attaching image via loopback\"");
        lemma_no_target("echo \">>> Attaching image via loopback\""@);
    }
    assert(!names_partition("kpartx -av \"$IMAGE\" 2>&1"@)) by {
        reveal_strlit("kpartx -av \"$IMAGE\" 2>&1");
        lemma_no_target("kpartx -av \"$IMAGE\" 2>&1"@);
    }
    assert(!names_partition("# Determine loop device"@)) by {
        reveal_strlit("# Determine loop device");
        lemma_no_target("# Determine loop device"@);
    }
    assert(!names_partition("LOOP_DEV=$(kpartx -l \"$IMAGE\" | head -1 | awk '{print $1}' | sed 's/p[0-9]//' | head -1)"@)) by {
        reveal_strlit(
            "LOOP_DEV=$(kpartx -l \"$IMAGE\" | head -1 | awk '{print $1}' | sed 's/p[0-9]//' | head -1)",
        );
        lemma_no_target(
            "LOOP_DEV=$(kpartx -l \"$IMAGE\" | head -1 | awk '{print $1}' | sed 's/p[0-9]//' | head -1)"@,
        );
    }
    assert(!names_partition("if [ -z \"$LOOP_DEV\" ]; then"@)) by {
        reveal_strlit("if [ -z \"$LOOP_DEV\" ]; then");
        lemma_no_target("if [ -z \"$LOOP_DEV\" ]; then"@);
    }
    assert(!names_partition("    LOOP_DEV=$(losetup --show -f \"$IMAGE\")"@)) by {
        reveal_strlit("    LOOP_DEV=$(losetup --show -f \"$IMAGE\")");
        lemma_no_target("    LOOP_DEV=$(losetup --show -f \"$IMAGE\")"@);
    }
    assert(!names_partition("    kpartx -av \"$LOOP_DEV\" 2>&1"@)) by {
        reveal_strlit("    kpartx -av \"$LOOP_DEV\" 2>&1");
        lemma_no_target("    kpartx -av \"$LOOP_DEV\" 2>&1"@);
    }
    assert(!names_partition("echo \">>> Loop device: $LOOP_DEV\""@)) by {
        reveal_strlit("echo \">>> Loop device: $LOOP_DEV\"");
        lemma_no_target("echo \">>> Loop device: $LOOP_DEV\""@);
    }
    assert(!names_partition("# Map partition names"@)) by {
        reveal_strlit("# Map partition names");
        lemma_no_target("# Map partition names"@);
    }
    assert(!names_partition("MAPPER_BASE=$(basename \"$LOOP_DEV\")"@)) by {
        reveal_strlit("MAPPER_BASE=$(basename \"$LOOP_DEV\")");
        lemma_no_target("MAPPER_BASE=$(basename \"$LOOP_DEV\")"@);
    }
    assert(!names_partition("if [[ \"$DEVICE\" == /dev/nvme* ]] || [[ \"$DEVICE\" == /dev/mmcblk* ]] || [[ \"$DEVICE\" == /dev/loop* ]]; then"@)) by {
        reveal_strlit(
            "if [[ \"$DEVICE\" == /dev/nvme* ]] || [[ \"$DEVICE\" == /dev/mmcblk* ]] || [[ \"$DEVICE\" == /dev/loop* ]]; then",
        );
        lemma_no_target(
            "if [[ \"$DEVICE\" == /dev/nvme* ]] || [[ \"$DEVICE\" == /dev/mmcblk* ]] || [[ \"$DEVICE\" == /dev/loop* ]]; then"@,
        );
    }
    assert(!names_partition("else"@)) by {
        reveal_strlit("else");
        lemma_no_target("else"@);
    }
    assert(!names_partition("echo \">>> Flashing partition 1 (boot) to $TARGET_P1\""@)) by {
        reveal_strlit("echo \">>> Flashing partition 1 (boot) to $TARGET_P1\"");
        lemma_no_target("echo \">>> Flashing partition 1 (boot) to $TARGET_P1\""@);
    }
    assert(!names_partition("dd if=/dev/mapper/${MAPPER_BASE}p1 of=\"$TARGET_P1\" bs=4M status=progress conv=fsync"@)) by {
        reveal_strlit(
            "dd if=/dev/mapper/${MAPPER_BASE}p1 of=\"$TARGET_P1\" bs=4M status=progress conv=fsync",
        );
        lemma_no_target(
            "dd if=/dev/mapper/${MAPPER_BASE}p1 of=\"$TARGET_P1\" bs=4M status=progress conv=fsync"@,
        );
    }
    assert(!names_partition("echo \">>> Flashing partition 2 (OS) to $TARGET_P2\""@)) by {
        reveal_strlit("echo \">>> Flashing partition 2 (OS) to $TARGET_P2\"");
        lemma_no_target("echo \">>> Flashing partition 2 (OS) to $TARGET_P2\""@);
    }
    assert(!names_partition("dd if=/dev/mapper/${MAPPER_BASE}p2 of=\"$TARGET_P2\" bs=4M status=progress conv=fsync"@)) by {
        reveal_strlit(
            "dd if=/dev/mapper/${MAPPER_BASE}p2 of=\"$TARGET_P2\" bs=4M status=progress conv=fsync",
        );
        lemma_no_target(
            "dd if=/dev/mapper/${MAPPER_BASE}p2 of=\"$TARGET_P2\" bs=4M status=progress conv=fsync"@,
        );
    }
    assert(!names_partition("echo \">>> Detaching loopback\""@)) by {
        reveal_strlit("echo \">>> Detaching loopback\"");
        lemma_no_target("echo \">>> Detaching loopback\""@);
    }
    assert(!names_partition("kpartx -dv \"$IMAGE\" 2>&1 || true"@)) by {
        reveal_strlit("kpartx -dv \"$IMAGE\" 2>&1 || true");
        lemma_no_target("kpartx -dv \"$IMAGE\" 2>&1 || true"@);
    }
    assert(!names_partition("losetup -d \"$LOOP_DEV\" 2>/dev/null || true"@)) by {
        reveal_strlit("losetup -d \"$LOOP_DEV\" 2>/dev/null || true");
        lemma_no_target("losetup -d \"$LOOP_DEV\" 2>/dev/null || true"@);
    }
    assert(!names_partition("echo \">>> Flash complete — kube-state partition (p3) preserved intact\""@)) by {
        reveal_strlit("echo \">>> Flash complete — kube-state partition (p3) preserved intact\"");
        lemma_no_target(
            "echo \">>> Flash complete — kube-state partition (p3) preserved intact\""@,
        );
    }

    assert forall|j: int| 0 <= j < lines.len() && names_partition(#[trigger] lines[j]) implies 27
        + 1 <= j <= 27 + 2 || 27 + 4 <= j <= 27 + 5 by {
    }
}

/// A line whose fifth letter is no `T` behind white space names no target.
proof fn lemma_no_target(line: Seq<char>)
    requires
        line.len() < 5 || line[0] != ' ' || line[4] != 'T',
    ensures
        !names_partition(line),
{
    reveal_strlit("    TARGET_P1=\"${DEVICE}p1\"");
    reveal_strlit("    TARGET_P2=\"${DEVICE}p2\"");
    reveal_strlit("    TARGET_P1=\"${DEVICE}1\"");
    reveal_strlit("    TARGET_P2=\"${DEVICE}2\"");
}

/// The disks are listed one to a line, each by the path of its block device and,
/// behind white space, what the listing says of it, in the order in which the columns
/// are asked for.
pub proof fn lemma_disks_are_listed()
    ensures
        holds_in_order(
            LIST_DISKS@,
            seq![
                "lsblk -d -o NAME,SIZE,TYPE,MODEL -n 2>/dev/null | while read name size type model; do\n"@,
                "echo \"/dev/$name  ($size, $type, $model)\"\n"@,
                "done\n"@,
            ],
        ),
{
    let parts = seq![
        "lsblk -d -o NAME,SIZE,TYPE,MODEL -n 2>/dev/null | while read name size type model; do\n"@,
        "echo \"/dev/$name  ($size, $type, $model)\"\n"@,
        "done\n"@,
    ];
    assert(holds_in_order(LIST_DISKS@, parts)) by {
        reveal_strlit(r#"
            lsblk -d -o NAME,SIZE,TYPE,MODEL -n 2>/dev/null | while read name size type model; do
                echo "/dev/$name  ($size, $type, $model)"
            done
        "#);
        assert(occurs_at(LIST_DISKS@, parts[0], 13) && parts[0].len() == 86) by {
            reveal_strlit(
                "lsblk -d -o NAME,SIZE,TYPE,MODEL -n 2>/dev/null | while read name size type model; do\n",
            );
            assert(LIST_DISKS@.subrange(13, 99)
                =~= "lsblk -d -o NAME,SIZE,TYPE,MODEL -n 2>/dev/null | while read name size type model; do\n"@);
        }
        assert(occurs_at(LIST_DISKS@, parts[1], 115) && parts[1].len() == 42) by {
            reveal_strlit("echo \"/dev/$name  ($size, $type, $model)\"\n");
            assert(LIST_DISKS@.subrange(115, 157)
                =~= "echo \"/dev/$name  ($size, $type, $model)\"\n"@);
        }
        assert(occurs_at(LIST_DISKS@, parts[2], 169) && parts[2].len() == 5) by {
            reveal_strlit("done\n");
            assert(LIST_DISKS@.subrange(169, 174) =~= "done\n"@);
        }
        lemma_part_first(LIST_DISKS@, parts, 2, 157, 169);
        lemma_part_first(LIST_DISKS@, parts, 1, 99, 115);
        lemma_part_first(LIST_DISKS@, parts, 0, 0, 13);
    }
}

/// The worker image has every program that the scripts run: those that divide,
/// format, mount and attach drives and images, and the one that writes an identity in
/// digits.
pub proof fn lemma_worker_has_its_tools()
    ensures
        holds_in_order(
            WORKER_DOCKERFILE@,
            seq![
                "FROM debian:bookworm-slim\n"@,
                "apt-get install -y --no-install-recommends \\\n    parted e2fsprogs dosfstools curl ca-certificates util-linux mount kpartx xz-utils xxd \\\n"@,
                "ENTRYPOINT [\"/bin/bash\", \"-c\"]\n"@,
            ],
        ),
{
    let parts = seq![
        "FROM debian:bookworm-slim\n"@,
        "apt-get install -y --no-install-recommends \\\n    parted e2fsprogs dosfstools curl ca-certificates util-linux mount kpartx xz-utils xxd \\\n"@,
        "ENTRYPOINT [\"/bin/bash\", \"-c\"]\n"@,
    ];
    assert(holds_in_order(WORKER_DOCKERFILE@, parts)) by {
        reveal_strlit(r#"
FROM debian:bookworm-slim
RUN apt-get update && DEBIAN_FRONTEND=noninteractive apt-get install -y --no-install-recommends \
    parted e2fsprogs dosfstools curl ca-certificates util-linux mount kpartx xz-utils xxd \
    && rm -rf /var/lib/apt/lists/*
ENTRYPOINT ["/bin/bash", "-c"]
"#);
        assert(occurs_at(WORKER_DOCKERFILE@, parts[0], 1) && parts[0].len() == 26) by {
            reveal_strlit("FROM debian:bookworm-slim\n");
            assert(WORKER_DOCKERFILE@.subrange(1, 27) =~= "FROM debian:bookworm-slim\n"@);
        }
        assert(occurs_at(WORKER_DOCKERFILE@, parts[1], 80) && parts[1].len() == 137) by {
            reveal_strlit(
                "apt-get install -y --no-install-recommends \\\n    parted e2fsprogs dosfstools curl ca-certificates util-linux mount kpartx xz-utils xxd \\\n",
            );
            assert(WORKER_DOCKERFILE@.subrange(80, 217)
                =~= "apt-get install -y --no-install-recommends \\\n    parted e2fsprogs dosfstools curl ca-certificates util-linux mount kpartx xz-utils xxd \\\n"@);
        }
        assert(occurs_at(WORKER_DOCKERFILE@, parts[2], 252) && parts[2].len() == 31) by {
            reveal_strlit("ENTRYPOINT [\"/bin/bash\", \"-c\"]\n");
            assert(WORKER_DOCKERFILE@.subrange(252, 283)
                =~= "ENTRYPOINT [\"/bin/bash\", \"-c\"]\n"@);
        }
        lemma_part_first(WORKER_DOCKERFILE@, parts, 2, 217, 252);
        lemma_part_first(WORKER_DOCKERFILE@, parts, 1, 27, 80);
        lemma_part_first(WORKER_DOCKERFILE@, parts, 0, 0, 1);
    }
}

/// How a node starts goes by its role and by whether it knows a server. A server that
/// knows none starts a cluster, and any other does not; an agent joins the server that
/// it knows, at the port of the API, and is told so in both files. Nothing else is
/// written but the token and the name, and the role and the name.
pub proof fn lemma_role_decides_start(seed: NodeSeed<Seq<char>>, ip: Seq<char>)
    ensures
        ({
            let config = "token: \""@ + seed.token + "\"\nnode-name: \""@ + seed.name + "\"\n"@;
            let mode = "KUBE_ROLE=\""@ + seed.role + "\"\nNODE_NAME=\""@ + seed.name + "\"\n"@;
            let starts = seed.role == "server"@ && seed.server_ip is None;
            let joins = seed.role == "agent"@ && seed.server_ip == Some(ip);
            &&& starts ==> k3s_config_text(seed) == config + "cluster-init: true"@ + "\n"@
            &&& starts ==> node_mode_text(seed) == mode + "\n"@
            &&& joins ==> k3s_config_text(seed) == config + "server: \"https://"@ + ip
                + ":6443\"\n"@
            &&& joins ==> node_mode_text(seed) == mode + "SERVER_URL=\"https://"@ + ip
                + ":6443\"\n"@
            &&& seed.role == "server"@ && seed.server_ip is Some ==> k3s_config_text(seed) == config
                + "\n"@ && node_mode_text(seed) == mode + "\n"@
            &&& seed.role == "agent"@ && seed.server_ip is None ==> k3s_config_text(seed) == config
                + "\n"@ && node_mode_text(seed) == mode + "\n"@
        }),
{
    reveal_strlit("");
    reveal_strlit("server");
    reveal_strlit("agent");
    reveal_strlit("server: \"");
    reveal_strlit("https://");
    reveal_strlit("server: \"https://");
    reveal_strlit(":6443");
    reveal_strlit("\"");
    reveal_strlit("\n");
    reveal_strlit(":6443\"\n");
    reveal_strlit("SERVER_URL=\"");
    reveal_strlit("SERVER_URL=\"https://");
    assert("server"@.len() != "agent"@.len());
    let config = "token: \""@ + seed.token + "\"\nnode-name: \""@ + seed.name + "\"\n"@;
    let mode = "KUBE_ROLE=\""@ + seed.role + "\"\nNODE_NAME=\""@ + seed.name + "\"\n"@;
    if seed.server_ip == Some(ip) && seed.role == "agent"@ {
        assert(k3s_config_text(seed) =~= config + "server: \"https://"@ + ip + ":6443\"\n"@);
        assert(node_mode_text(seed) =~= mode + "SERVER_URL=\"https://"@ + ip + ":6443\"\n"@);
    } else if seed.role == "server"@ && seed.server_ip is None {
        assert(node_mode_text(seed) =~= mode + "\n"@);
    } else {
        if seed.role == "server"@ || seed.server_ip is None && seed.role == "agent"@ {
            assert(k3s_config_text(seed) =~= config + "\n"@);
            assert(node_mode_text(seed) =~= mode + "\n"@);
        }
    }
}

/// The bootstrap script ends with the first command that fails, and it is given the
/// drive, the identity of the state partition, the node's name and role, the token,
/// where the server is, and the text that configures the network; that text is there
/// only where both the address and the gateway are known.
pub proof fn lemma_bootstrap_inputs(drive: Seq<char>, seed: NodeSeed<Seq<char>>)
    ensures
        ({
            let url = if seed.server_ip is Some {
                "https://"@ + seed.server_ip->0 + ":6443"@
            } else {
                Seq::empty()
            };
            let network = if seed.ip is Some && seed.gateway is Some {
                "auto lo\niface lo inet loopback\n\nauto eth0\niface eth0 inet static\n    address "@
                    + seed.ip->0 + "\n    gateway "@ + seed.gateway->0 + "\n"@ + (
                if seed.dns is Some {
                    "    dns-nameservers "@ + seed.dns->0 + "\n"@
                } else {
                    Seq::empty()
                })
            } else {
                Seq::empty()
            };
            let head = "set -euo pipefail\n\nDEVICE=\""@ + drive + "\"\nKUBE_UUID=\""@
                + seed.kube_uuid + "\"\nNODE_NAME=\""@ + seed.name + "\"\nKUBE_ROLE=\""@ + seed.role
                + "\"\nCLUSTER_TOKEN=\""@ + seed.token + "\"\nSERVER_URL=\""@ + url
                + "\"\nNETCONF='"@ + network + "'\n"@;
            let script = bootstrap_script(drive, seed);
            script.len() >= head.len() && script.take(head.len() as int) == head
        }),
{
    reveal_strlit("");
    let url = if seed.server_ip is Some {
        "https://"@ + seed.server_ip->0 + ":6443"@
    } else {
        Seq::empty()
    };
    let network = if seed.ip is Some && seed.gateway is Some {
        "auto lo\niface lo inet loopback\n\nauto eth0\niface eth0 inet static\n    address "@
            + seed.ip->0 + "\n    gateway "@ + seed.gateway->0 + "\n"@ + (if seed.dns is Some {
            "    dns-nameservers "@ + seed.dns->0 + "\n"@
        } else {
            Seq::empty()
        })
    } else {
        Seq::empty()
    };
    assert(server_url(seed.server_ip) =~= url);
    assert(network_text(seed.ip, seed.gateway, seed.dns) =~= network);
    let head = bootstrap_head(drive, seed);
    assert(bootstrap_script(drive, seed).take(head.len() as int) =~= head);
}

/// The search path of the process is set to that of the machine, so that a program
/// that was just installed is found.
pub proof fn lemma_path_is_read_again()
    ensures
        REFRESH_PATH@ == "& {[Environment]::SetEnvironmentVariable("@ + "'Path', "@
            + "[Environment]::GetEnvironmentVariable('Path','Machine')"@ + ", 'Process')}"@,
{
    reveal_strlit(
        "& {[Environment]::SetEnvironmentVariable('Path', [Environment]::GetEnvironmentVariable('Path','Machine'), 'Process')}",
    );
    reveal_strlit("& {[Environment]::SetEnvironmentVariable(");
    reveal_strlit("'Path', ");
    reveal_strlit("[Environment]::GetEnvironmentVariable('Path','Machine')");
    reveal_strlit(", 'Process')}");
    assert(REFRESH_PATH@ =~= "& {[Environment]::SetEnvironmentVariable("@ + "'Path', "@
        + "[Environment]::GetEnvironmentVariable('Path','Machine')"@ + ", 'Process')}"@);
}

/// The configuration to start from has three servers and two workers, each with its
/// own address and name and all of them reached as `root`, by a key, on the port for
/// SSH; servers run no work; the version is the one that is the default; every part of
/// the hardening is switched on; and Rancher is deployed.
#[verifier::rlimit(60)]
pub proof fn lemma_template()
    ensures
        holds_in_order(
            TEMPLATE@,
            seq![
                "[cluster]\nname = \"my-cluster\"\nuse_servers_as_workers = false\n"@,
                "[[cluster.server_nodes]]\nhost = \"192.168.1.10\"\nport = 22\nuser = \"root\"\nauth = \"key\"\nkey_path = \"~/.ssh/id_rsa\"\n"@,
                "hostname = \"ctrl-01\"\n"@,
                "[[cluster.server_nodes]]\nhost = \"192.168.1.11\"\nport = 22\nuser = \"root\"\nauth = \"key\"\nkey_path = \"~/.ssh/id_rsa\"\nhostname = \"ctrl-02\"\n"@,
                "[[cluster.server_nodes]]\nhost = \"192.168.1.12\"\nport = 22\nuser = \"root\"\nauth = \"key\"\nkey_path = \"~/.ssh/id_rsa\"\nhostname = \"ctrl-03\"\n"@,
                "[[cluster.worker_nodes]]\nhost = \"192.168.1.20\"\nport = 22\nuser = \"root\"\nauth = \"key\"\nkey_path = \"~/.ssh/id_rsa\"\nhostname = \"node-01\"\n"@,
                "[[cluster.worker_nodes]]\nhost = \"192.168.1.21\"\nport = 22\nuser = \"root\"\nauth = \"key\"\nkey_path = \"~/.ssh/id_rsa\"\nhostname = \"node-02\"\n"@,
                "[rke2]\nversion = \"v1.32.3+rke2r1\"\nextra_args = \"\"\n"@,
                "[hardening]\nzero_logs = true\nno_fs_bloat = true\ndisable_swap = true\n"@,
                "[rancher]\ndeploy = true\nhostname = \"rancher.mycluster.local\"\n"@,
            ],
        ),
{
    let parts = seq![
        "[cluster]\nname = \"my-cluster\"\nuse_servers_as_workers = false\n"@,
        "[[cluster.server_nodes]]\nhost = \"192.168.1.10\"\nport = 22\nuser = \"root\"\nauth = \"key\"\nkey_path = \"~/.ssh/id_rsa\"\n"@,
        "hostname = \"ctrl-01\"\n"@,
        "[[cluster.server_nodes]]\nhost = \"192.168.1.11\"\nport = 22\nuser = \"root\"\nauth = \"key\"\nkey_path = \"~/.ssh/id_rsa\"\nhostname = \"ctrl-02\"\n"@,
        "[[cluster.server_nodes]]\nhost = \"192.168.1.12\"\nport = 22\nuser = \"root\"\nauth = \"key\"\nkey_path = \"~/.ssh/id_rsa\"\nhostname = \"ctrl-03\"\n"@,
        "[[cluster.worker_nodes]]\nhost = \"192.168.1.20\"\nport = 22\nuser = \"root\"\nauth = \"key\"\nkey_path = \"~/.ssh/id_rsa\"\nhostname = \"node-01\"\n"@,
        "[[cluster.worker_nodes]]\nhost = \"192.168.1.21\"\nport = 22\nuser = \"root\"\nauth = \"key\"\nkey_path = \"~/.ssh/id_rsa\"\nhostname = \"node-02\"\n"@,
        "[rke2]\nversion = \"v1.32.3+rke2r1\"\nextra_args = \"\"\n"@,
        "[hardening]\nzero_logs = true\nno_fs_bloat = true\ndisable_swap = true\n"@,
        "[rancher]\ndeploy = true\nhostname = \"rancher.mycluster.local\"\n"@,
    ];
    assert(holds_in_order(TEMPLATE@, parts)) by {
        reveal_strlit(r#"[cluster]
name = "my-cluster"
use_servers_as_workers = false

[[cluster.server_nodes]]
host = "192.168.1.10"
port = 22
user = "root"
auth = "key"
key_path = "~/.ssh/id_rsa"
# password = ""       # only needed when auth = "password"
hostname = "ctrl-01"

[[cluster.server_nodes]]
host = "192.168.1.11"
port = 22
user = "root"
auth = "key"
key_path = "~/.ssh/id_rsa"
hostname = "ctrl-02"

[[cluster.server_nodes]]
host = "192.168.1.12"
port = 22
user = "root"
auth = "key"
key_path = "~/.ssh/id_rsa"
hostname = "ctrl-03"

[[cluster.worker_nodes]]
host = "192.168.1.20"
port = 22
user = "root"
auth = "key"
key_path = "~/.ssh/id_rsa"
hostname = "node-01"

[[cluster.worker_nodes]]
host = "192.168.1.21"
port = 22
user = "root"
auth = "key"
key_path = "~/.ssh/id_rsa"
hostname = "node-02"

[rke2]
version = "v1.32.3+rke2r1"
extra_args = ""

[hardening]
zero_logs = true
no_fs_bloat = true
disable_swap = true

[rancher]
deploy = true
hostname = "rancher.mycluster.local"
"#);
        assert(occurs_at(TEMPLATE@, parts[0], 0) && parts[0].len() == 61) by {
            reveal_strlit("[cluster]\nname = \"my-cluster\"\nuse_servers_as_workers = false\n");
            assert(TEMPLATE@.subrange(0, 61)
                =~= "[cluster]\nname = \"my-cluster\"\nuse_servers_as_workers = false\n"@);
        }
        assert(occurs_at(TEMPLATE@, parts[1], 62) && parts[1].len() == 111) by {
            reveal_strlit(
                "[[cluster.server_nodes]]\nhost = \"192.168.1.10\"\nport = 22\nuser = \"root\"\nauth = \"key\"\nkey_path = \"~/.ssh/id_rsa\"\n",
            );
            assert(TEMPLATE@.subrange(62, 173)
                =~= "[[cluster.server_nodes]]\nhost = \"192.168.1.10\"\nport = 22\nuser = \"root\"\nauth = \"key\"\nkey_path = \"~/.ssh/id_rsa\"\n"@);
        }
        assert(occurs_at(TEMPLATE@, parts[2], 232) && parts[2].len() == 21) by {
            reveal_strlit("hostname = \"ctrl-01\"\n");
            assert(TEMPLATE@.subrange(232, 253) =~= "hostname = \"ctrl-01\"\n"@);
        }
        assert(occurs_at(TEMPLATE@, parts[3], 254) && parts[3].len() == 132) by {
            reveal_strlit(
                "[[cluster.server_nodes]]\nhost = \"192.168.1.11\"\nport = 22\nuser = \"root\"\nauth = \"key\"\nkey_path = \"~/.ssh/id_rsa\"\nhostname = \"ctrl-02\"\n",
            );
            assert(TEMPLATE@.subrange(254, 386)
                =~= "[[cluster.server_nodes]]\nhost = \"192.168.1.11\"\nport = 22\nuser = \"root\"\nauth = \"key\"\nkey_path = \"~/.ssh/id_rsa\"\nhostname = \"ctrl-02\"\n"@);
        }
        assert(occurs_at(TEMPLATE@, parts[4], 387) && parts[4].len() == 132) by {
            reveal_strlit(
                "[[cluster.server_nodes]]\nhost = \"192.168.1.12\"\nport = 22\nuser = \"root\"\nauth = \"key\"\nkey_path = \"~/.ssh/id_rsa\"\nhostname = \"ctrl-03\"\n",
            );
            assert(TEMPLATE@.subrange(387, 519)
                =~= "[[cluster.server_nodes]]\nhost = \"192.168.1.12\"\nport = 22\nuser = \"root\"\nauth = \"key\"\nkey_path = \"~/.ssh/id_rsa\"\nhostname = \"ctrl-03\"\n"@);
        }
        assert(occurs_at(TEMPLATE@, parts[5], 520) && parts[5].len() == 132) by {
            reveal_strlit(
                "[[cluster.worker_nodes]]\nhost = \"192.168.1.20\"\nport = 22\nuser = \"root\"\nauth = \"key\"\nkey_path = \"~/.ssh/id_rsa\"\nhostname = \"node-01\"\n",
            );
            assert(TEMPLATE@.subrange(520, 652)
                =~= "[[cluster.worker_nodes]]\nhost = \"192.168.1.20\"\nport = 22\nuser = \"root\"\nauth = \"key\"\nkey_path = \"~/.ssh/id_rsa\"\nhostname = \"node-01\"\n"@);
        }
        assert(occurs_at(TEMPLATE@, parts[6], 653) && parts[6].len() == 132) by {
            reveal_strlit(
                "[[cluster.worker_nodes]]\nhost = \"192.168.1.21\"\nport = 22\nuser = \"root\"\nauth = \"key\"\nkey_path = \"~/.ssh/id_rsa\"\nhostname = \"node-02\"\n",
            );
            assert(TEMPLATE@.subrange(653, 785)
                =~= "[[cluster.worker_nodes]]\nhost = \"192.168.1.21\"\nport = 22\nuser = \"root\"\nauth = \"key\"\nkey_path = \"~/.ssh/id_rsa\"\nhostname = \"node-02\"\n"@);
        }
        assert(occurs_at(TEMPLATE@, parts[7], 786) && parts[7].len() == 50) by {
            reveal_strlit("[rke2]\nversion = \"v1.32.3+rke2r1\"\nextra_args = \"\"\n");
            assert(TEMPLATE@.subrange(786, 836)
                =~= "[rke2]\nversion = \"v1.32.3+rke2r1\"\nextra_args = \"\"\n"@);
        }
        assert(occurs_at(TEMPLATE@, parts[8], 837) && parts[8].len() == 68) by {
            reveal_strlit(
                "[hardening]\nzero_logs = true\nno_fs_bloat = true\ndisable_swap = true\n",
            );
            assert(TEMPLATE@.subrange(837, 905)
                =~= "[hardening]\nzero_logs = true\nno_fs_bloat = true\ndisable_swap = true\n"@);
        }
        assert(occurs_at(TEMPLATE@, parts[9], 906) && parts[9].len() == 61) by {
            reveal_strlit("[rancher]\ndeploy = true\nhostname = \"rancher.mycluster.local\"\n");
            assert(TEMPLATE@.subrange(906, 967)
                =~= "[rancher]\ndeploy = true\nhostname = \"rancher.mycluster.local\"\n"@);
        }
        lemma_part_first(TEMPLATE@, parts, 9, 905, 906);
        lemma_part_first(TEMPLATE@, parts, 8, 836, 837);
        lemma_part_first(TEMPLATE@, parts, 7, 785, 786);
        lemma_part_first(TEMPLATE@, parts, 6, 652, 653);
        lemma_part_first(TEMPLATE@, parts, 5, 519, 520);
        lemma_part_first(TEMPLATE@, parts, 4, 386, 387);
        lemma_part_first(TEMPLATE@, parts, 3, 253, 254);
        lemma_part_first(TEMPLATE@, parts, 2, 173, 232);
        lemma_part_first(TEMPLATE@, parts, 1, 61, 62);
        lemma_part_first(TEMPLATE@, parts, 0, 0, 0);
    }
}

/// A script is run by `bash` in a fresh container of the worker image, which sees the
/// devices of the host and, as `/build-images`, the given directory. It has the rights
/// of the host exactly where that is asked for.
pub proof fn lemma_container_runs_script(
    script: Seq<char>,
    privileged: bool,
    host_path: Seq<char>,
)
    ensures
        container_args(script, privileged, host_path) == seq!["run"@, "--rm"@] + (if privileged {
            seq!["--privileged"@]
        } else {
            Seq::empty()
        }) + seq!["-v"@, "/dev:/dev"@, "-v"@, host_path + ":/build-images"@] + seq![
            "--entrypoint"@,
            "/bin/bash"@,
            "pifrost-worker:latest"@,
            "-c"@,
            script,
        ],
{
    assert(container_args(script, privileged, host_path) =~= seq!["run"@, "--rm"@] + (
    if privileged {
        seq!["--privileged"@]
    } else {
        Seq::empty()
    }) + seq!["-v"@, "/dev:/dev"@, "-v"@, host_path + ":/build-images"@] + seq![
        "--entrypoint"@,
        "/bin/bash"@,
        "pifrost-worker:latest"@,
        "-c"@,
        script,
    ]);
}

/// What a path loses at its end are slashes and dots, and nothing else.
pub proof fn lemma_only_tail_is_lost(s: Seq<char>)
    ensures
        ({
            let kept = without_tail(s);
            &&& kept.len() <= s.len()
            &&& kept == s.take(kept.len() as int)
            &&& kept.len() > 0 ==> kept.last() != '/' && kept.last() != '.'
            &&& forall|k: int|
                kept.len() <= k < s.len() ==> #[trigger] s[k] == '/' || s[k] == '.'
        }),
    decreases s.len(),
{
    if s.len() > 0 && (s.last() == '/' || s.last() == '.') {
        let rest = s.drop_last();
        let kept = without_tail(s);
        lemma_only_tail_is_lost(rest);
        assert(rest.take(kept.len() as int) =~= s.take(kept.len() as int));
        assert forall|k: int| kept.len() <= k < s.len() implies #[trigger] s[k] == '/' || s[k]
            == '.' by {
            if k < rest.len() {
                assert(rest[k] == s[k]);
            }
        }
    } else {
        assert(s.take(s.len() as int) =~= s);
    }
}

} // verus!
