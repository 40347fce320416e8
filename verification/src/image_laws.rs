//! What holds of every image that can be pulled.
use vstd::prelude::*;

#[allow(unused_imports)]
use crate::image::{
    artifact, catalog, comma_list, disk_name, first_image, info_lines, list_line, lookup, named,
    single_fs, unknown_text, Compression, ImageFormat, ImageView,
};

verus! {

/// How the addresses end.
proof fn lemma_addresses()
    ensures
        "https://github.com/tenstorrent/tt-bh-linux/releases/download/v0.10/tt-bh-disk-image.zip"@.len() == 87,
        "https://github.com/tenstorrent/tt-bh-linux/releases/download/v0.10/tt-bh-disk-image.zip"@[81] == 'g'
        && "https://github.com/tenstorrent/tt-bh-linux/releases/download/v0.10/tt-bh-disk-image.zip"@[82] == 'e'
        && "https://github.com/tenstorrent/tt-bh-linux/releases/download/v0.10/tt-bh-disk-image.zip"@[83] == '.'
        && "https://github.com/tenstorrent/tt-bh-linux/releases/download/v0.10/tt-bh-disk-image.zip"@[84] == 'z'
        && "https://github.com/tenstorrent/tt-bh-linux/releases/download/v0.10/tt-bh-disk-image.zip"@[85] == 'i'
        && "https://github.com/tenstorrent/tt-bh-linux/releases/download/v0.10/tt-bh-disk-image.zip"@[86] == 'p',
        "https://github.com/tenstorrent/tt-bh-linux/releases/download/v0.10/tt-bh-disk-image.zip"@[0] == 'h'
        && "https://github.com/tenstorrent/tt-bh-linux/releases/download/v0.10/tt-bh-disk-image.zip"@[1] == 't'
        && "https://github.com/tenstorrent/tt-bh-linux/releases/download/v0.10/tt-bh-disk-image.zip"@[2] == 't'
        && "https://github.com/tenstorrent/tt-bh-linux/releases/download/v0.10/tt-bh-disk-image.zip"@[3] == 'p'
        && "https://github.com/tenstorrent/tt-bh-linux/releases/download/v0.10/tt-bh-disk-image.zip"@[4] == 's'
        && "https://github.com/tenstorrent/tt-bh-linux/releases/download/v0.10/tt-bh-disk-image.zip"@[5] == ':'
        && "https://github.com/tenstorrent/tt-bh-linux/releases/download/v0.10/tt-bh-disk-image.zip"@[6] == '/'
        && "https://github.com/tenstorrent/tt-bh-linux/releases/download/v0.10/tt-bh-disk-image.zip"@[7] == '/',
        "https://cloud.debian.org/images/cloud/trixie/latest/debian-13-generic-riscv64.raw"@.len() == 81,
        "https://cloud.debian.org/images/cloud/trixie/latest/debian-13-generic-riscv64.raw"@[75] == '6'
        && "https://cloud.debian.org/images/cloud/trixie/latest/debian-13-generic-riscv64.raw"@[76] == '4'
        && "https://cloud.debian.org/images/cloud/trixie/latest/debian-13-generic-riscv64.raw"@[77] == '.'
        && "https://cloud.debian.org/images/cloud/trixie/latest/debian-13-generic-riscv64.raw"@[78] == 'r'
        && "https://cloud.debian.org/images/cloud/trixie/latest/debian-13-generic-riscv64.raw"@[79] == 'a'
        && "https://cloud.debian.org/images/cloud/trixie/latest/debian-13-generic-riscv64.raw"@[80] == 'w',
        "https://cloud.debian.org/images/cloud/trixie/latest/debian-13-generic-riscv64.raw"@[0] == 'h'
        && "https://cloud.debian.org/images/cloud/trixie/latest/debian-13-generic-riscv64.raw"@[1] == 't'
        && "https://cloud.debian.org/images/cloud/trixie/latest/debian-13-generic-riscv64.raw"@[2] == 't'
        && "https://cloud.debian.org/images/cloud/trixie/latest/debian-13-generic-riscv64.raw"@[3] == 'p'
        && "https://cloud.debian.org/images/cloud/trixie/latest/debian-13-generic-riscv64.raw"@[4] == 's'
        && "https://cloud.debian.org/images/cloud/trixie/latest/debian-13-generic-riscv64.raw"@[5] == ':'
        && "https://cloud.debian.org/images/cloud/trixie/latest/debian-13-generic-riscv64.raw"@[6] == '/'
        && "https://cloud.debian.org/images/cloud/trixie/latest/debian-13-generic-riscv64.raw"@[7] == '/',
        "https://cdimage.ubuntu.com/releases/noble/release/ubuntu-24.04.4-preinstalled-server-riscv64.img.xz"@.len() == 99,
        "https://cdimage.ubuntu.com/releases/noble/release/ubuntu-24.04.4-preinstalled-server-riscv64.img.xz"@[93] == 'i'
        && "https://cdimage.ubuntu.com/releases/noble/release/ubuntu-24.04.4-preinstalled-server-riscv64.img.xz"@[94] == 'm'
        && "https://cdimage.ubuntu.com/releases/noble/release/ubuntu-24.04.4-preinstalled-server-riscv64.img.xz"@[95] == 'g'
        && "https://cdimage.ubuntu.com/releases/noble/release/ubuntu-24.04.4-preinstalled-server-riscv64.img.xz"@[96] == '.'
        && "https://cdimage.ubuntu.com/releases/noble/release/ubuntu-24.04.4-preinstalled-server-riscv64.img.xz"@[97] == 'x'
        && "https://cdimage.ubuntu.com/releases/noble/release/ubuntu-24.04.4-preinstalled-server-riscv64.img.xz"@[98] == 'z',
        "https://cdimage.ubuntu.com/releases/noble/release/ubuntu-24.04.4-preinstalled-server-riscv64.img.xz"@[0] == 'h'
        && "https://cdimage.ubuntu.com/releases/noble/release/ubuntu-24.04.4-preinstalled-server-riscv64.img.xz"@[1] == 't'
        && "https://cdimage.ubuntu.com/releases/noble/release/ubuntu-24.04.4-preinstalled-server-riscv64.img.xz"@[2] == 't'
        && "https://cdimage.ubuntu.com/releases/noble/release/ubuntu-24.04.4-preinstalled-server-riscv64.img.xz"@[3] == 'p'
        && "https://cdimage.ubuntu.com/releases/noble/release/ubuntu-24.04.4-preinstalled-server-riscv64.img.xz"@[4] == 's'
        && "https://cdimage.ubuntu.com/releases/noble/release/ubuntu-24.04.4-preinstalled-server-riscv64.img.xz"@[5] == ':'
        && "https://cdimage.ubuntu.com/releases/noble/release/ubuntu-24.04.4-preinstalled-server-riscv64.img.xz"@[6] == '/'
        && "https://cdimage.ubuntu.com/releases/noble/release/ubuntu-24.04.4-preinstalled-server-riscv64.img.xz"@[7] == '/',
        "https://dl.fedoraproject.org/pub/alt/risc-v/release/42/Server/riscv64/images/Fedora-Server-Host-Generic-42.20250911-2251ba41cdd3.riscv64.raw.xz"@.len() == 143,
        "https://dl.fedoraproject.org/pub/alt/risc-v/release/42/Server/riscv64/images/Fedora-Server-Host-Generic-42.20250911-2251ba41cdd3.riscv64.raw.xz"@[137] == 'r'
        && "https://dl.fedoraproject.org/pub/alt/risc-v/release/42/Server/riscv64/images/Fedora-Server-Host-Generic-42.20250911-2251ba41cdd3.riscv64.raw.xz"@[138] == 'a'
        && "https://dl.fedoraproject.org/pub/alt/risc-v/release/42/Server/riscv64/images/Fedora-Server-Host-Generic-42.20250911-2251ba41cdd3.riscv64.raw.xz"@[139] == 'w'
        && "https://dl.fedoraproject.org/pub/alt/risc-v/release/42/Server/riscv64/images/Fedora-Server-Host-Generic-42.20250911-2251ba41cdd3.riscv64.raw.xz"@[140] == '.'
        && "https://dl.fedoraproject.org/pub/alt/risc-v/release/42/Server/riscv64/images/Fedora-Server-Host-Generic-42.20250911-2251ba41cdd3.riscv64.raw.xz"@[141] == 'x'
        && "https://dl.fedoraproject.org/pub/alt/risc-v/release/42/Server/riscv64/images/Fedora-Server-Host-Generic-42.20250911-2251ba41cdd3.riscv64.raw.xz"@[142] == 'z',
        "https://dl.fedoraproject.org/pub/alt/risc-v/release/42/Server/riscv64/images/Fedora-Server-Host-Generic-42.20250911-2251ba41cdd3.riscv64.raw.xz"@[0] == 'h'
        && "https://dl.fedoraproject.org/pub/alt/risc-v/release/42/Server/riscv64/images/Fedora-Server-Host-Generic-42.20250911-2251ba41cdd3.riscv64.raw.xz"@[1] == 't'
        && "https://dl.fedoraproject.org/pub/alt/risc-v/release/42/Server/riscv64/images/Fedora-Server-Host-Generic-42.20250911-2251ba41cdd3.riscv64.raw.xz"@[2] == 't'
        && "https://dl.fedoraproject.org/pub/alt/risc-v/release/42/Server/riscv64/images/Fedora-Server-Host-Generic-42.20250911-2251ba41cdd3.riscv64.raw.xz"@[3] == 'p'
        && "https://dl.fedoraproject.org/pub/alt/risc-v/release/42/Server/riscv64/images/Fedora-Server-Host-Generic-42.20250911-2251ba41cdd3.riscv64.raw.xz"@[4] == 's'
        && "https://dl.fedoraproject.org/pub/alt/risc-v/release/42/Server/riscv64/images/Fedora-Server-Host-Generic-42.20250911-2251ba41cdd3.riscv64.raw.xz"@[5] == ':'
        && "https://dl.fedoraproject.org/pub/alt/risc-v/release/42/Server/riscv64/images/Fedora-Server-Host-Generic-42.20250911-2251ba41cdd3.riscv64.raw.xz"@[6] == '/'
        && "https://dl.fedoraproject.org/pub/alt/risc-v/release/42/Server/riscv64/images/Fedora-Server-Host-Generic-42.20250911-2251ba41cdd3.riscv64.raw.xz"@[7] == '/',
        "https://dl.fedoraproject.org/pub/alt/risc-v/release/42/Cloud/riscv64/images/Fedora-Cloud-Base-Generic-42.20250911-2251ba41cdd3.riscv64.qcow2"@.len() == 140,
        "https://dl.fedoraproject.org/pub/alt/risc-v/release/42/Cloud/riscv64/images/Fedora-Cloud-Base-Generic-42.20250911-2251ba41cdd3.riscv64.qcow2"@[134] == '.'
        && "https://dl.fedoraproject.org/pub/alt/risc-v/release/42/Cloud/riscv64/images/Fedora-Cloud-Base-Generic-42.20250911-2251ba41cdd3.riscv64.qcow2"@[135] == 'q'
        && "https://dl.fedoraproject.org/pub/alt/risc-v/release/42/Cloud/riscv64/images/Fedora-Cloud-Base-Generic-42.20250911-2251ba41cdd3.riscv64.qcow2"@[136] == 'c'
        && "https://dl.fedoraproject.org/pub/alt/risc-v/release/42/Cloud/riscv64/images/Fedora-Cloud-Base-Generic-42.20250911-2251ba41cdd3.riscv64.qcow2"@[137] == 'o'
        && "https://dl.fedoraproject.org/pub/alt/risc-v/release/42/Cloud/riscv64/images/Fedora-Cloud-Base-Generic-42.20250911-2251ba41cdd3.riscv64.qcow2"@[138] == 'w'
        && "https://dl.fedoraproject.org/pub/alt/risc-v/release/42/Cloud/riscv64/images/Fedora-Cloud-Base-Generic-42.20250911-2251ba41cdd3.riscv64.qcow2"@[139] == '2',
        "https://dl.fedoraproject.org/pub/alt/risc-v/release/42/Cloud/riscv64/images/Fedora-Cloud-Base-Generic-42.20250911-2251ba41cdd3.riscv64.qcow2"@[0] == 'h'
        && "https://dl.fedoraproject.org/pub/alt/risc-v/release/42/Cloud/riscv64/images/Fedora-Cloud-Base-Generic-42.20250911-2251ba41cdd3.riscv64.qcow2"@[1] == 't'
        && "https://dl.fedoraproject.org/pub/alt/risc-v/release/42/Cloud/riscv64/images/Fedora-Cloud-Base-Generic-42.20250911-2251ba41cdd3.riscv64.qcow2"@[2] == 't'
        && "https://dl.fedoraproject.org/pub/alt/risc-v/release/42/Cloud/riscv64/images/Fedora-Cloud-Base-Generic-42.20250911-2251ba41cdd3.riscv64.qcow2"@[3] == 'p'
        && "https://dl.fedoraproject.org/pub/alt/risc-v/release/42/Cloud/riscv64/images/Fedora-Cloud-Base-Generic-42.20250911-2251ba41cdd3.riscv64.qcow2"@[4] == 's'
        && "https://dl.fedoraproject.org/pub/alt/risc-v/release/42/Cloud/riscv64/images/Fedora-Cloud-Base-Generic-42.20250911-2251ba41cdd3.riscv64.qcow2"@[5] == ':'
        && "https://dl.fedoraproject.org/pub/alt/risc-v/release/42/Cloud/riscv64/images/Fedora-Cloud-Base-Generic-42.20250911-2251ba41cdd3.riscv64.qcow2"@[6] == '/'
        && "https://dl.fedoraproject.org/pub/alt/risc-v/release/42/Cloud/riscv64/images/Fedora-Cloud-Base-Generic-42.20250911-2251ba41cdd3.riscv64.qcow2"@[7] == '/',
        "https://repo.almalinux.org/almalinux-kitten/10-kitten/cloud/riscv64/images/AlmaLinux-Kitten-GenericCloud-10-latest.riscv64.qcow2"@.len() == 128,
        "https://repo.almalinux.org/almalinux-kitten/10-kitten/cloud/riscv64/images/AlmaLinux-Kitten-GenericCloud-10-latest.riscv64.qcow2"@[122] == '.'
        && "https://repo.almalinux.org/almalinux-kitten/10-kitten/cloud/riscv64/images/AlmaLinux-Kitten-GenericCloud-10-latest.riscv64.qcow2"@[123] == 'q'
        && "https://repo.almalinux.org/almalinux-kitten/10-kitten/cloud/riscv64/images/AlmaLinux-Kitten-GenericCloud-10-latest.riscv64.qcow2"@[124] == 'c'
        && "https://repo.almalinux.org/almalinux-kitten/10-kitten/cloud/riscv64/images/AlmaLinux-Kitten-GenericCloud-10-latest.riscv64.qcow2"@[125] == 'o'
        && "https://repo.almalinux.org/almalinux-kitten/10-kitten/cloud/riscv64/images/AlmaLinux-Kitten-GenericCloud-10-latest.riscv64.qcow2"@[126] == 'w'
        && "https://repo.almalinux.org/almalinux-kitten/10-kitten/cloud/riscv64/images/AlmaLinux-Kitten-GenericCloud-10-latest.riscv64.qcow2"@[127] == '2',
        "https://repo.almalinux.org/almalinux-kitten/10-kitten/cloud/riscv64/images/AlmaLinux-Kitten-GenericCloud-10-latest.riscv64.qcow2"@[0] == 'h'
        && "https://repo.almalinux.org/almalinux-kitten/10-kitten/cloud/riscv64/images/AlmaLinux-Kitten-GenericCloud-10-latest.riscv64.qcow2"@[1] == 't'
        && "https://repo.almalinux.org/almalinux-kitten/10-kitten/cloud/riscv64/images/AlmaLinux-Kitten-GenericCloud-10-latest.riscv64.qcow2"@[2] == 't'
        && "https://repo.almalinux.org/almalinux-kitten/10-kitten/cloud/riscv64/images/AlmaLinux-Kitten-GenericCloud-10-latest.riscv64.qcow2"@[3] == 'p'
        && "https://repo.almalinux.org/almalinux-kitten/10-kitten/cloud/riscv64/images/AlmaLinux-Kitten-GenericCloud-10-latest.riscv64.qcow2"@[4] == 's'
        && "https://repo.almalinux.org/almalinux-kitten/10-kitten/cloud/riscv64/images/AlmaLinux-Kitten-GenericCloud-10-latest.riscv64.qcow2"@[5] == ':'
        && "https://repo.almalinux.org/almalinux-kitten/10-kitten/cloud/riscv64/images/AlmaLinux-Kitten-GenericCloud-10-latest.riscv64.qcow2"@[6] == '/'
        && "https://repo.almalinux.org/almalinux-kitten/10-kitten/cloud/riscv64/images/AlmaLinux-Kitten-GenericCloud-10-latest.riscv64.qcow2"@[7] == '/',
        "https://download.opensuse.org/ports/riscv/tumbleweed/appliances/openSUSE-Tumbleweed-RISC-V-JeOS-efi.riscv64.raw.xz"@.len() == 114,
        "https://download.opensuse.org/ports/riscv/tumbleweed/appliances/openSUSE-Tumbleweed-RISC-V-JeOS-efi.riscv64.raw.xz"@[108] == 'r'
        && "https://download.opensuse.org/ports/riscv/tumbleweed/appliances/openSUSE-Tumbleweed-RISC-V-JeOS-efi.riscv64.raw.xz"@[109] == 'a'
        && "https://download.opensuse.org/ports/riscv/tumbleweed/appliances/openSUSE-Tumbleweed-RISC-V-JeOS-efi.riscv64.raw.xz"@[110] == 'w'
        && "https://download.opensuse.org/ports/riscv/tumbleweed/appliances/openSUSE-Tumbleweed-RISC-V-JeOS-efi.riscv64.raw.xz"@[111] == '.'
        && "https://download.opensuse.org/ports/riscv/tumbleweed/appliances/openSUSE-Tumbleweed-RISC-V-JeOS-efi.riscv64.raw.xz"@[112] == 'x'
        && "https://download.opensuse.org/ports/riscv/tumbleweed/appliances/openSUSE-Tumbleweed-RISC-V-JeOS-efi.riscv64.raw.xz"@[113] == 'z',
        "https://download.opensuse.org/ports/riscv/tumbleweed/appliances/openSUSE-Tumbleweed-RISC-V-JeOS-efi.riscv64.raw.xz"@[0] == 'h'
        && "https://download.opensuse.org/ports/riscv/tumbleweed/appliances/openSUSE-Tumbleweed-RISC-V-JeOS-efi.riscv64.raw.xz"@[1] == 't'
        && "https://download.opensuse.org/ports/riscv/tumbleweed/appliances/openSUSE-Tumbleweed-RISC-V-JeOS-efi.riscv64.raw.xz"@[2] == 't'
        && "https://download.opensuse.org/ports/riscv/tumbleweed/appliances/openSUSE-Tumbleweed-RISC-V-JeOS-efi.riscv64.raw.xz"@[3] == 'p'
        && "https://download.opensuse.org/ports/riscv/tumbleweed/appliances/openSUSE-Tumbleweed-RISC-V-JeOS-efi.riscv64.raw.xz"@[4] == 's'
        && "https://download.opensuse.org/ports/riscv/tumbleweed/appliances/openSUSE-Tumbleweed-RISC-V-JeOS-efi.riscv64.raw.xz"@[5] == ':'
        && "https://download.opensuse.org/ports/riscv/tumbleweed/appliances/openSUSE-Tumbleweed-RISC-V-JeOS-efi.riscv64.raw.xz"@[6] == '/'
        && "https://download.opensuse.org/ports/riscv/tumbleweed/appliances/openSUSE-Tumbleweed-RISC-V-JeOS-efi.riscv64.raw.xz"@[7] == '/',
{
    reveal_strlit("https://github.com/tenstorrent/tt-bh-linux/releases/download/v0.10/tt-bh-disk-image.zip");
    reveal_strlit("https://cloud.debian.org/images/cloud/trixie/latest/debian-13-generic-riscv64.raw");
    reveal_strlit("https://cdimage.ubuntu.com/releases/noble/release/ubuntu-24.04.4-preinstalled-server-riscv64.img.xz");
    reveal_strlit("https://dl.fedoraproject.org/pub/alt/risc-v/release/42/Server/riscv64/images/Fedora-Server-Host-Generic-42.20250911-2251ba41cdd3.riscv64.raw.xz");
    reveal_strlit("https://dl.fedoraproject.org/pub/alt/risc-v/release/42/Cloud/riscv64/images/Fedora-Cloud-Base-Generic-42.20250911-2251ba41cdd3.riscv64.qcow2");
    reveal_strlit("https://repo.almalinux.org/almalinux-kitten/10-kitten/cloud/riscv64/images/AlmaLinux-Kitten-GenericCloud-10-latest.riscv64.qcow2");
    reveal_strlit("https://download.opensuse.org/ports/riscv/tumbleweed/appliances/openSUSE-Tumbleweed-RISC-V-JeOS-efi.riscv64.raw.xz");
}

/// How a download is packed, and what it holds, can be told from the end of its address: `.xz`,
/// `.zip` and `.qcow2` stand there exactly where the download is that. It is fetched over HTTPS.
pub proof fn an_address_says_how_its_download_is_packed(k: int)
    requires
        0 <= k < catalog().len(),
    ensures
        catalog()[k].compression == Compression::Xz <==> ".xz"@.is_suffix_of(catalog()[k].url),
        catalog()[k].compression == Compression::Zip <==> ".zip"@.is_suffix_of(catalog()[k].url),
        catalog()[k].compression == Compression::Plain <==> !".xz"@.is_suffix_of(catalog()[k].url)
            && !".zip"@.is_suffix_of(catalog()[k].url),
        catalog()[k].format == ImageFormat::Qcow2 <==> ".qcow2"@.is_suffix_of(catalog()[k].url),
        "https://"@.is_prefix_of(catalog()[k].url),
{
    lemma_addresses();
    reveal_strlit(".xz");
    reveal_strlit(".zip");
    reveal_strlit(".qcow2");
    reveal_strlit("https://");
    let url = catalog()[k].url;
    let n = url.len() as int;
    let last = url.subrange(n - 3, n);
    let last4 = url.subrange(n - 4, n);
    let last6 = url.subrange(n - 6, n);
    assert(last[1] == url[n - 2] && last[2] == url[n - 1] && last[0] == url[n - 3]);
    assert(last4[0] == url[n - 4] && last4[1] == url[n - 3] && last4[2] == url[n - 2] && last4[3] == url[n - 1]);
    assert(last6[0] == url[n - 6] && last6[1] == url[n - 5] && last6[2] == url[n - 4] && last6[3] == url[n - 3] && last6[4] == url[n - 2] && last6[5] == url[n - 1]);
    if catalog()[k].compression == Compression::Xz {
        assert(last =~= ".xz"@);
    }
    if catalog()[k].compression == Compression::Zip {
        assert(last4 =~= ".zip"@);
    }
    if catalog()[k].format == ImageFormat::Qcow2 {
        assert(last6 =~= ".qcow2"@);
    }
    assert("https://"@ =~= url.subrange(0, 8));
}

/// An image that the host boots itself is a file system, and no other is. No disk of the list is
/// taken apart. All grow to the same size. Who can log in does so with their own name, and an
/// image either names a user with a password or neither.
pub proof fn images_are_booted_by_what_they_hold(k: int)
    requires
        0 <= k < catalog().len(),
    ensures
        catalog()[k].format == ImageFormat::Ext4 <==> !catalog()[k].needs_bootloader,
        single_fs(catalog()[k]) <==> !catalog()[k].needs_bootloader,
        !catalog()[k].extract_partition,
        catalog()[k].default_size == "10G"@,
        catalog()[k].default_password == catalog()[k].default_user,
        catalog()[k].cloud_init <==> catalog()[k].name != "opensuse-tumbleweed"@,
        catalog()[k].default_user == "debian"@ <==> catalog()[k].name == "tt-debian"@,
        catalog()[k].default_user == "ubuntu"@ <==> catalog()[k].name == "ubuntu-24.04"@,
        catalog()[k].default_user.len() == 0 <==> catalog()[k].name != "tt-debian"@
            && catalog()[k].name != "ubuntu-24.04"@,
{
    reveal_strlit("tt-debian");
    reveal_strlit("debian-13");
    reveal_strlit("ubuntu-24.04");
    reveal_strlit("fedora-42");
    reveal_strlit("fedora-42-cloud");
    reveal_strlit("almalinux-10-kitten");
    reveal_strlit("opensuse-tumbleweed");
    reveal_strlit("debian");
    reveal_strlit("ubuntu");
    reveal_strlit("");
    reveal_strlit("10G");
    assert("ubuntu"@[0] == 'u' && "debian"@[0] == 'd');
    assert("tt-debian"@.len() == 9 && "tt-debian"@[0] == 't' && "tt-debian"@[3] == 'd');
    assert("debian-13"@.len() == 9 && "debian-13"@[0] == 'd' && "debian-13"@[3] == 'i');
    assert("ubuntu-24.04"@.len() == 12 && "ubuntu-24.04"@[0] == 'u' && "ubuntu-24.04"@[3] == 'n');
    assert("fedora-42"@.len() == 9 && "fedora-42"@[0] == 'f' && "fedora-42"@[3] == 'o');
    assert("fedora-42-cloud"@.len() == 15 && "fedora-42-cloud"@[0] == 'f' && "fedora-42-cloud"@[3] == 'o');
    assert("almalinux-10-kitten"@.len() == 19 && "almalinux-10-kitten"@[0] == 'a' && "almalinux-10-kitten"@[3] == 'a');
    assert("opensuse-tumbleweed"@.len() == 19 && "opensuse-tumbleweed"@[0] == 'o' && "opensuse-tumbleweed"@[3] == 'n');
}

/// The list column by column.
pub proof fn the_list_of_images()
    ensures
        catalog().map_values(|i: ImageView| i.name) == seq![
            "tt-debian"@,
            "debian-13"@,
            "ubuntu-24.04"@,
            "fedora-42"@,
            "fedora-42-cloud"@,
            "almalinux-10-kitten"@,
            "opensuse-tumbleweed"@,
        ],
        catalog().map_values(|i: ImageView| i.url) == seq![
            "https://github.com/tenstorrent/tt-bh-linux/releases/download/v0.10/tt-bh-disk-image.zip"@,
            "https://cloud.debian.org/images/cloud/trixie/latest/debian-13-generic-riscv64.raw"@,
            "https://cdimage.ubuntu.com/releases/noble/release/ubuntu-24.04.4-preinstalled-server-riscv64.img.xz"@,
            "https://dl.fedoraproject.org/pub/alt/risc-v/release/42/Server/riscv64/images/Fedora-Server-Host-Generic-42.20250911-2251ba41cdd3.riscv64.raw.xz"@,
            "https://dl.fedoraproject.org/pub/alt/risc-v/release/42/Cloud/riscv64/images/Fedora-Cloud-Base-Generic-42.20250911-2251ba41cdd3.riscv64.qcow2"@,
            "https://repo.almalinux.org/almalinux-kitten/10-kitten/cloud/riscv64/images/AlmaLinux-Kitten-GenericCloud-10-latest.riscv64.qcow2"@,
            "https://download.opensuse.org/ports/riscv/tumbleweed/appliances/openSUSE-Tumbleweed-RISC-V-JeOS-efi.riscv64.raw.xz"@,
        ],
        catalog().map_values(|i: ImageView| i.description) == seq![
            "Tenstorrent pre-built Debian riscv64 (recommended, ready to use)"@,
            "Debian 13 (Trixie) generic \u{2014} official cloud image, needs cloud-init"@,
            "Ubuntu 24.04 LTS (Noble Numbat) \u{2014} preinstalled server for riscv64"@,
            "Fedora 42 Server Host Generic \u{2014} full server image, riscv64"@,
            "Fedora 42 Cloud Base \u{2014} small cloud image, riscv64 (needs cloud-init)"@,
            "AlmaLinux Kitten 10 GenericCloud \u{2014} community RHEL10 dev branch riscv64"@,
            "openSUSE Tumbleweed JeOS \u{2014} minimal rolling-release image (interactive firstboot via console)"@,
        ],
        catalog().map_values(|i: ImageView| i.aliases) == seq![
            seq!["tt"@],
            seq!["default"@, "debian"@, "trixie"@],
            seq!["ubuntu"@, "noble"@],
            seq!["fedora"@, "fedora-server"@],
            seq!["fedora-cloud"@],
            seq!["almalinux"@, "alma"@, "kitten"@],
            seq!["opensuse"@, "tumbleweed"@, "suse"@, "jeos"@],
        ],
{
}

/// A name stands for an image exactly where some image has it for its own name or for another, and
/// what it stands for has it.
pub proof fn only_names_of_images_are_found(name: Seq<char>)
    ensures
        lookup(name) is Some <==> exists|k: int|
            0 <= k < catalog().len() && ((#[trigger] catalog()[k]).name == name
                || catalog()[k].aliases.contains(name)),
        lookup(name) matches Some(i) ==> catalog().contains(i) && (i.name == name
            || i.aliases.contains(name)),
        named(name) is Some ==> lookup(name) == named(name),
        named(name) matches Some(i) ==> i.name == name,
{
    let by_name = |i: ImageView| i.name == name;
    let by_alias = |i: ImageView| i.aliases.contains(name);
    lemma_found(catalog(), by_name);
    lemma_found(catalog(), by_alias);
    if exists|k: int|
        0 <= k < catalog().len() && ((#[trigger] catalog()[k]).name == name
            || catalog()[k].aliases.contains(name)) {
        let k = choose|k: int|
            0 <= k < catalog().len() && ((#[trigger] catalog()[k]).name == name
                || catalog()[k].aliases.contains(name));
        assert(by_name(catalog()[k]) || by_alias(catalog()[k]));
    }
}

proof fn lemma_found(all: Seq<ImageView>, p: spec_fn(ImageView) -> bool)
    ensures
        first_image(all, p) matches Some(i) ==> p(i) && all.contains(i),
        first_image(all, p) is None ==> forall|k: int| 0 <= k < all.len() ==> !p(#[trigger] all[k]),
    decreases all.len(),
{
    if all.len() > 0 && !p(all[0]) {
        let rest = all.skip(1);
        lemma_found(rest, p);
        match first_image(rest, p) {
            Some(i) => {
                let k = choose|k: int| 0 <= k < rest.len() && rest[k] == i;
                assert(all[k + 1] == i);
            },
            None => {
                assert forall|k: int| 0 <= k < all.len() implies !p(#[trigger] all[k]) by {
                    if k > 0 {
                        assert(rest[k - 1] == all[k]);
                    }
                }
            },
        }
    } else if all.len() > 0 {
        assert(all[0] == first_image(all, p)->0);
    }
}

/// An image goes to a file of its name in `images`: an `.ext4` where it becomes a file system, an
/// `.img` where it becomes a disk. Only what is taken out of a disk or is a file system already
/// becomes one.
pub proof fn an_image_goes_to_a_file_of_its_name(i: ImageView)
    ensures
        artifact(i) == "images/"@ + i.name + ".ext4"@ || artifact(i) == "images/"@ + i.name
            + ".img"@,
        i.extract_partition || i.format is Ext4 ==> artifact(i) == "images/"@ + i.name + ".ext4"@,
        !i.extract_partition && !(i.format is Ext4) ==> artifact(i) == "images/"@ + i.name
            + ".img"@,
        i.extract_partition ==> single_fs(i),
        i.format is Ext4 ==> single_fs(i),
        !i.extract_partition && i.format is RawDisk ==> !single_fs(i),
        !i.extract_partition && i.format is Qcow2 ==> !single_fs(i),
{
    reveal_strlit("images");
    reveal_strlit("images/");
    reveal_strlit(".");
    reveal_strlit("ext4");
    reveal_strlit("img");
    reveal_strlit(".ext4");
    reveal_strlit(".img");
    assert("images/"@ + i.name + ".ext4"@ =~= "images"@ + seq!['/'] + (i.name + "."@ + "ext4"@));
    assert("images/"@ + i.name + ".img"@ =~= "images"@ + seq!['/'] + (i.name + "."@ + "img"@));
}

/// The name of a disk loses the end that a pull gave its file, once, and nothing else.
pub proof fn a_disk_loses_its_ending_once(name: Seq<char>)
    ensures
        disk_name(name + ".ext4"@) == name,
        disk_name(name + ".img"@) == name,
        !".ext4"@.is_suffix_of(name) && !".img"@.is_suffix_of(name) ==> disk_name(name) == name,
        disk_name(name).is_prefix_of(name),
{
    reveal_strlit(".ext4");
    reveal_strlit(".img");
    let a = name + ".ext4"@;
    let b = name + ".img"@;
    assert(a.skip(a.len() - 5) =~= ".ext4"@);
    assert(a.take(a.len() - 5) =~= name);
    assert(b.skip(b.len() - 4) =~= ".img"@);
    assert(b.take(b.len() - 4) =~= name);
    if b.len() >= 5 {
        assert(b.skip(b.len() - 5)[4] == b[b.len() - 1]);
        assert(b[b.len() - 1] == 'g');
    }
    if name.len() >= 5 {
        assert(name.skip(name.len() - 5) =~= name.subrange(name.len() - 5, name.len() as int));
    }
    if name.len() >= 4 {
        assert(name.skip(name.len() - 4) =~= name.subrange(name.len() - 4, name.len() as int));
    }
}

/// In the list a name starts at the left, its description 21 characters on and its other names 97
/// characters on, with spaces between them.
pub proof fn a_row_has_its_columns(name: Seq<char>, description: Seq<char>, aliases: Seq<char>)
    requires
        name.len() <= 20,
        description.len() <= 75,
    ensures
        ({
            let row = list_line(name, description, aliases);
            &&& row.len() == 97 + if aliases.len() < 10 {
                10
            } else {
                aliases.len() as int
            }
            &&& name == row.take(name.len() as int)
            &&& description == row.subrange(21, 21int + description.len())
            &&& aliases == row.subrange(97, 97int + aliases.len())
            &&& forall|c: int|
                name.len() <= c < 21 || 21 + description.len() <= c < 97 || 97 + aliases.len() <= c
                    < row.len() ==> #[trigger] row[c] == ' '
        }),
{
    reveal_strlit(" ");
    let row = list_line(name, description, aliases);
    assert(name =~= row.take(name.len() as int));
    assert(description =~= row.subrange(21, 21int + description.len()));
    assert(aliases =~= row.subrange(97, 97int + aliases.len()));
}

/// Other names are listed in order with a comma and a space between two of them.
pub proof fn names_are_set_off_by_commas(a: Seq<Seq<char>>, b: Seq<Seq<char>>, one: Seq<char>)
    requires
        a.len() > 0,
        b.len() > 0,
    ensures
        comma_list(seq![one]) == one,
        comma_list(Seq::<Seq<char>>::empty()).len() == 0,
        comma_list(a + b) == comma_list(a) + ", "@ + comma_list(b),
    decreases b.len(),
{
    assert((a + b).drop_last() =~= a + b.drop_last());
    assert((a + b).last() == b.last());
    if b.len() == 1 {
        assert(a + b.drop_last() =~= a);
    } else {
        names_are_set_off_by_commas(a, b.drop_last(), one);
        assert(comma_list(a + b) =~= comma_list(a) + ", "@ + comma_list(b));
    }
}

/// What is told of an image is told under a heading of its own, in a fixed order; a user and a
/// password only where there are any.
pub proof fn what_is_told_of_an_image(i: ImageView)
    ensures
        ({
            let lines = info_lines(i);
            let users: int = if i.default_user.len() > 0 {
                1
            } else {
                0
            };
            let all: int = users + if i.default_password.len() > 0 {
                1int
            } else {
                0
            };
            &&& lines.len() == 10 + all
            &&& lines[0] == "Name:          "@ + i.name
            &&& lines[1] == "Description:   "@ + i.description
            &&& lines[2] == "URL:           "@ + i.url
            &&& lines[3] == match i.format {
                ImageFormat::Ext4 => "Format:        Ext4"@,
                ImageFormat::RawDisk => "Format:        RawDisk"@,
                ImageFormat::Qcow2 => "Format:        Qcow2"@,
            }
            &&& lines[4] == match i.compression {
                Compression::Plain => "Compression:   None"@,
                Compression::Xz => "Compression:   Xz"@,
                Compression::Zip => "Compression:   Zip"@,
            }
            &&& i.default_size.len() > 0 ==> lines[5] == "Resize to:     "@ + i.default_size
            &&& i.default_size.len() == 0 ==> lines[5] == "Resize to:     none"@
            &&& lines[6] == "Aliases:       "@ + comma_list(i.aliases)
            &&& i.default_user.len() > 0 ==> lines[7] == "Default user:  "@ + i.default_user
            &&& i.default_password.len() > 0 ==> lines[7 + users] == "Default pass:  "@
                + i.default_password
            &&& i.cloud_init ==> lines[7 + all] == "Cloud-init:    yes"@
            &&& !i.cloud_init ==> lines[7 + all] == "Cloud-init:    no"@
            &&& single_fs(i) ==> lines[8 + all] == "Layout:        single-FS .ext4"@
            &&& !single_fs(i) ==> lines[8 + all] == "Layout:        whole partitioned disk (.img)"@
            &&& i.needs_bootloader ==> lines[9 + all]
                == "Boot path:     U-Boot + EFI (chainload /boot/EFI from disk)"@
            &&& !i.needs_bootloader ==> lines[9 + all]
                == "Boot path:     direct kernel (host loads Image + initrd)"@
        }),
{
    reveal_strlit("Format:        ");
    reveal_strlit("Ext4");
    reveal_strlit("RawDisk");
    reveal_strlit("Qcow2");
    reveal_strlit("Format:        Ext4");
    reveal_strlit("Format:        RawDisk");
    reveal_strlit("Format:        Qcow2");
    reveal_strlit("Compression:   ");
    reveal_strlit("None");
    reveal_strlit("Xz");
    reveal_strlit("Zip");
    reveal_strlit("Compression:   None");
    reveal_strlit("Compression:   Xz");
    reveal_strlit("Compression:   Zip");
    reveal_strlit("Resize to:     ");
    reveal_strlit("none");
    reveal_strlit("Resize to:     none");
    reveal_strlit("Cloud-init:    ");
    reveal_strlit("yes");
    reveal_strlit("no");
    reveal_strlit("Cloud-init:    yes");
    reveal_strlit("Cloud-init:    no");
    reveal_strlit("Layout:        ");
    reveal_strlit("single-FS .ext4");
    reveal_strlit("whole partitioned disk (.img)");
    reveal_strlit("Layout:        single-FS .ext4");
    reveal_strlit("Layout:        whole partitioned disk (.img)");
    reveal_strlit("Boot path:     ");
    reveal_strlit("U-Boot + EFI (chainload /boot/EFI from disk)");
    reveal_strlit("direct kernel (host loads Image + initrd)");
    reveal_strlit("Boot path:     U-Boot + EFI (chainload /boot/EFI from disk)");
    reveal_strlit("Boot path:     direct kernel (host loads Image + initrd)");
    assert("Format:        Ext4"@ =~= "Format:        "@ + "Ext4"@);
    assert("Format:        RawDisk"@ =~= "Format:        "@ + "RawDisk"@);
    assert("Format:        Qcow2"@ =~= "Format:        "@ + "Qcow2"@);
    assert("Compression:   None"@ =~= "Compression:   "@ + "None"@);
    assert("Compression:   Xz"@ =~= "Compression:   "@ + "Xz"@);
    assert("Compression:   Zip"@ =~= "Compression:   "@ + "Zip"@);
    assert("Resize to:     none"@ =~= "Resize to:     "@ + "none"@);
    assert("Cloud-init:    yes"@ =~= "Cloud-init:    "@ + "yes"@);
    assert("Cloud-init:    no"@ =~= "Cloud-init:    "@ + "no"@);
    assert("Layout:        single-FS .ext4"@ =~= "Layout:        "@ + "single-FS .ext4"@);
    assert("Layout:        whole partitioned disk (.img)"@ =~= "Layout:        "@
        + "whole partitioned disk (.img)"@);
    assert("Boot path:     U-Boot + EFI (chainload /boot/EFI from disk)"@ =~= "Boot path:     "@
        + "U-Boot + EFI (chainload /boot/EFI from disk)"@);
    assert("Boot path:     direct kernel (host loads Image + initrd)"@ =~= "Boot path:     "@
        + "direct kernel (host loads Image + initrd)"@);
}

/// What is said of an unknown name holds the name.
pub proof fn an_unknown_name_is_said(name: Seq<char>)
    ensures
        unknown_text(name).subrange(15, 15int + name.len()) == name,
        "Unknown image '"@.is_prefix_of(unknown_text(name)),
        "'. Use 'image list' to see available images."@.is_suffix_of(unknown_text(name)),
        unknown_text(name).len() == name.len() + 59,
{
    reveal_strlit("Unknown image '");
    reveal_strlit("'. Use 'image list' to see available images.");
    let t = unknown_text(name);
    assert(t.subrange(15, 15int + name.len()) =~= name);
    assert("Unknown image '"@ =~= t.subrange(0, 15));
    assert("'. Use 'image list' to see available images."@ =~= t.subrange(
        t.len() - 44,
        t.len() as int,
    ));
}

} // verus!
