//! The root file systems that can be pulled, how they are found by name, and what is said of them.
use vstd::prelude::*;
use vstd::string::*;

#[allow(unused_imports)]
use crate::path::{file_name, file_stem, joined, last_part, tail_len, trimmed, with_file_name};
use crate::path::{file_name_of, file_stem_of, join, replace_file_name};
use crate::text::{chars_of, same, string_between};

verus! {

/// What a download holds.
#[derive(Clone, Copy, Debug, PartialEq, Eq, Structural)]
pub enum ImageFormat {
    /// A file system, ready to use.
    Ext4,
    /// A disk with a partition table.
    RawDisk,
    /// A disk with a partition table, in the format of QEMU.
    Qcow2,
}

/// How a download is compressed.
#[derive(Clone, Copy, Debug, PartialEq, Eq, Structural)]
pub enum Compression {
    Plain,
    Xz,
    Zip,
}

/// An image that can be pulled.
#[derive(Debug)]
pub struct KnownImage {
    pub name: &'static str,
    pub url: &'static str,
    pub description: &'static str,
    /// Other names under which the image is found.
    pub aliases: Vec<&'static str>,
    pub format: ImageFormat,
    pub compression: Compression,
    /// What the image is grown to; empty where it stays as it is.
    pub default_size: &'static str,
    /// Who can log in; empty where nobody can.
    pub default_user: &'static str,
    pub default_password: &'static str,
    /// Whether the guest looks for a seed.
    pub cloud_init: bool,
    /// Whether the largest partition is taken out of the disk.
    pub extract_partition: bool,
    /// Whether the guest is booted with U-Boot from the disk.
    pub needs_bootloader: bool,
}

/// An image, with its texts as sequences of characters.
pub struct ImageView {
    pub name: Seq<char>,
    pub url: Seq<char>,
    pub description: Seq<char>,
    pub aliases: Seq<Seq<char>>,
    pub format: ImageFormat,
    pub compression: Compression,
    pub default_size: Seq<char>,
    pub default_user: Seq<char>,
    pub default_password: Seq<char>,
    pub cloud_init: bool,
    pub extract_partition: bool,
    pub needs_bootloader: bool,
}

impl View for KnownImage {
    type V = ImageView;

    open spec fn view(&self) -> ImageView {
        ImageView {
            name: self.name@,
            url: self.url@,
            description: self.description@,
            aliases: self.aliases@.map_values(|a: &'static str| a@),
            format: self.format,
            compression: self.compression,
            default_size: self.default_size@,
            default_user: self.default_user@,
            default_password: self.default_password@,
            cloud_init: self.cloud_init,
            extract_partition: self.extract_partition,
            needs_bootloader: self.needs_bootloader,
        }
    }
}

/// The images, in the order in which they are listed.
pub open spec fn catalog() -> Seq<ImageView> {
    seq![
        ImageView {
            name: "tt-debian"@,
            url: "https://github.com/tenstorrent/tt-bh-linux/releases/download/v0.10/tt-bh-disk-image.zip"@,
            description: "Tenstorrent pre-built Debian riscv64 (recommended, ready to use)"@,
            aliases: seq!["tt"@],
            format: ImageFormat::Ext4,
            compression: Compression::Zip,
            default_size: "10G"@,
            default_user: "debian"@,
            default_password: "debian"@,
            cloud_init: true,
            extract_partition: false,
            needs_bootloader: false,
        },
        ImageView {
            name: "debian-13"@,
            url: "https://cloud.debian.org/images/cloud/trixie/latest/debian-13-generic-riscv64.raw"@,
            description: "Debian 13 (Trixie) generic \u{2014} official cloud image, needs cloud-init"@,
            aliases: seq!["default"@, "debian"@, "trixie"@],
            format: ImageFormat::RawDisk,
            compression: Compression::Plain,
            default_size: "10G"@,
            default_user: ""@,
            default_password: ""@,
            cloud_init: true,
            extract_partition: false,
            needs_bootloader: true,
        },
        ImageView {
            name: "ubuntu-24.04"@,
            url: "https://cdimage.ubuntu.com/releases/noble/release/ubuntu-24.04.4-preinstalled-server-riscv64.img.xz"@,
            description: "Ubuntu 24.04 LTS (Noble Numbat) \u{2014} preinstalled server for riscv64"@,
            aliases: seq!["ubuntu"@, "noble"@],
            format: ImageFormat::RawDisk,
            compression: Compression::Xz,
            default_size: "10G"@,
            default_user: "ubuntu"@,
            default_password: "ubuntu"@,
            cloud_init: true,
            extract_partition: false,
            needs_bootloader: true,
        },
        ImageView {
            name: "fedora-42"@,
            url: "https://dl.fedoraproject.org/pub/alt/risc-v/release/42/Server/riscv64/images/Fedora-Server-Host-Generic-42.20250911-2251ba41cdd3.riscv64.raw.xz"@,
            description: "Fedora 42 Server Host Generic \u{2014} full server image, riscv64"@,
            aliases: seq!["fedora"@, "fedora-server"@],
            format: ImageFormat::RawDisk,
            compression: Compression::Xz,
            default_size: "10G"@,
            default_user: ""@,
            default_password: ""@,
            cloud_init: true,
            extract_partition: false,
            needs_bootloader: true,
        },
        ImageView {
            name: "fedora-42-cloud"@,
            url: "https://dl.fedoraproject.org/pub/alt/risc-v/release/42/Cloud/riscv64/images/Fedora-Cloud-Base-Generic-42.20250911-2251ba41cdd3.riscv64.qcow2"@,
            description: "Fedora 42 Cloud Base \u{2014} small cloud image, riscv64 (needs cloud-init)"@,
            aliases: seq!["fedora-cloud"@],
            format: ImageFormat::Qcow2,
            compression: Compression::Plain,
            default_size: "10G"@,
            default_user: ""@,
            default_password: ""@,
            cloud_init: true,
            extract_partition: false,
            needs_bootloader: true,
        },
        ImageView {
            name: "almalinux-10-kitten"@,
            url: "https://repo.almalinux.org/almalinux-kitten/10-kitten/cloud/riscv64/images/AlmaLinux-Kitten-GenericCloud-10-latest.riscv64.qcow2"@,
            description: "AlmaLinux Kitten 10 GenericCloud \u{2014} community RHEL10 dev branch riscv64"@,
            aliases: seq!["almalinux"@, "alma"@, "kitten"@],
            format: ImageFormat::Qcow2,
            compression: Compression::Plain,
            default_size: "10G"@,
            default_user: ""@,
            default_password: ""@,
            cloud_init: true,
            extract_partition: false,
            needs_bootloader: true,
        },
        ImageView {
            name: "opensuse-tumbleweed"@,
            url: "https://download.opensuse.org/ports/riscv/tumbleweed/appliances/openSUSE-Tumbleweed-RISC-V-JeOS-efi.riscv64.raw.xz"@,
            description: "openSUSE Tumbleweed JeOS \u{2014} minimal rolling-release image (interactive firstboot via console)"@,
            aliases: seq!["opensuse"@, "tumbleweed"@, "suse"@, "jeos"@],
            format: ImageFormat::RawDisk,
            compression: Compression::Xz,
            default_size: "10G"@,
            default_user: ""@,
            default_password: ""@,
            cloud_init: false,
            extract_partition: false,
            needs_bootloader: true,
        },
    ]
}

/// The images, in the order in which they are listed.
pub fn known_images() -> (images: Vec<KnownImage>)
    ensures
        images@.map_values(|i: KnownImage| i@) == catalog(),
{
    let images: Vec<KnownImage> = vec![
        // A single file system, booted with a kernel that the host loads.
        KnownImage {
            name: "tt-debian",
            url: "https://github.com/tenstorrent/tt-bh-linux/releases/download/v0.10/tt-bh-disk-image.zip",
            description: "Tenstorrent pre-built Debian riscv64 (recommended, ready to use)",
            aliases: vec!["tt"],
            format: ImageFormat::Ext4,
            compression: Compression::Zip,
            default_size: "10G",
            default_user: "debian",
            default_password: "debian",
            cloud_init: true,
            extract_partition: false,
            needs_bootloader: false,
        },
        // A whole disk, booted with U-Boot from its EFI partition, as are the images below.
        KnownImage {
            name: "debian-13",
            url: "https://cloud.debian.org/images/cloud/trixie/latest/debian-13-generic-riscv64.raw",
            description: "Debian 13 (Trixie) generic \u{2014} official cloud image, needs cloud-init",
            aliases: vec!["default", "debian", "trixie"],
            format: ImageFormat::RawDisk,
            compression: Compression::Plain,
            default_size: "10G",
            default_user: "",
            default_password: "",
            cloud_init: true,
            extract_partition: false,
            needs_bootloader: true,
        },
        KnownImage {
            name: "ubuntu-24.04",
            url: "https://cdimage.ubuntu.com/releases/noble/release/ubuntu-24.04.4-preinstalled-server-riscv64.img.xz",
            description: "Ubuntu 24.04 LTS (Noble Numbat) \u{2014} preinstalled server for riscv64",
            aliases: vec!["ubuntu", "noble"],
            format: ImageFormat::RawDisk,
            compression: Compression::Xz,
            default_size: "10G",
            default_user: "ubuntu",
            default_password: "ubuntu",
            cloud_init: true,
            extract_partition: false,
            needs_bootloader: true,
        },
        KnownImage {
            name: "fedora-42",
            url: "https://dl.fedoraproject.org/pub/alt/risc-v/release/42/Server/riscv64/images/Fedora-Server-Host-Generic-42.20250911-2251ba41cdd3.riscv64.raw.xz",
            description: "Fedora 42 Server Host Generic \u{2014} full server image, riscv64",
            aliases: vec!["fedora", "fedora-server"],
            format: ImageFormat::RawDisk,
            compression: Compression::Xz,
            default_size: "10G",
            default_user: "",
            default_password: "",
            cloud_init: true,
            extract_partition: false,
            needs_bootloader: true,
        },
        KnownImage {
            name: "fedora-42-cloud",
            url: "https://dl.fedoraproject.org/pub/alt/risc-v/release/42/Cloud/riscv64/images/Fedora-Cloud-Base-Generic-42.20250911-2251ba41cdd3.riscv64.qcow2",
            description: "Fedora 42 Cloud Base \u{2014} small cloud image, riscv64 (needs cloud-init)",
            aliases: vec!["fedora-cloud"],
            format: ImageFormat::Qcow2,
            compression: Compression::Plain,
            default_size: "10G",
            default_user: "",
            default_password: "",
            cloud_init: true,
            extract_partition: false,
            needs_bootloader: true,
        },
        KnownImage {
            name: "almalinux-10-kitten",
            url: "https://repo.almalinux.org/almalinux-kitten/10-kitten/cloud/riscv64/images/AlmaLinux-Kitten-GenericCloud-10-latest.riscv64.qcow2",
            description: "AlmaLinux Kitten 10 GenericCloud \u{2014} community RHEL10 dev branch riscv64",
            aliases: vec!["almalinux", "alma", "kitten"],
            format: ImageFormat::Qcow2,
            compression: Compression::Plain,
            default_size: "10G",
            default_user: "",
            default_password: "",
            cloud_init: true,
            extract_partition: false,
            needs_bootloader: true,
        },
        // Sets itself up over the console at first boot; it does not look for a seed.
        KnownImage {
            name: "opensuse-tumbleweed",
            url: "https://download.opensuse.org/ports/riscv/tumbleweed/appliances/openSUSE-Tumbleweed-RISC-V-JeOS-efi.riscv64.raw.xz",
            description: "openSUSE Tumbleweed JeOS \u{2014} minimal rolling-release image (interactive firstboot via console)",
            aliases: vec!["opensuse", "tumbleweed", "suse", "jeos"],
            format: ImageFormat::RawDisk,
            compression: Compression::Xz,
            default_size: "10G",
            default_user: "",
            default_password: "",
            cloud_init: false,
            extract_partition: false,
            needs_bootloader: true,
        },
    ];
    assert(images@[0].view().aliases =~= catalog()[0].aliases);
    assert(images@[1].view().aliases =~= catalog()[1].aliases);
    assert(images@[2].view().aliases =~= catalog()[2].aliases);
    assert(images@[3].view().aliases =~= catalog()[3].aliases);
    assert(images@[4].view().aliases =~= catalog()[4].aliases);
    assert(images@[5].view().aliases =~= catalog()[5].aliases);
    assert(images@[6].view().aliases =~= catalog()[6].aliases);
    assert(images@.map_values(|i: KnownImage| i@) =~= catalog());
    images
}

/// The first image that has a property.
pub open spec fn first_image(images: Seq<ImageView>, p: spec_fn(ImageView) -> bool) -> Option<
    ImageView,
>
    decreases images.len(),
{
    if images.len() == 0 {
        None
    } else if p(images[0]) {
        Some(images[0])
    } else {
        first_image(images.skip(1), p)
    }
}

/// The first image of this name.
pub open spec fn named(name: Seq<char>) -> Option<ImageView> {
    first_image(catalog(), |i: ImageView| i.name == name)
}

/// The first image that has this for another name.
pub open spec fn aliased(name: Seq<char>) -> Option<ImageView> {
    first_image(catalog(), |i: ImageView| i.aliases.contains(name))
}

/// The image that a name stands for.
pub open spec fn lookup(name: Seq<char>) -> Option<ImageView> {
    if named(name) is Some {
        named(name)
    } else {
        aliased(name)
    }
}

/// An image was found, or was not.
pub open spec fn found(r: Option<KnownImage>, wanted: Option<ImageView>) -> bool {
    match r {
        Some(i) => wanted == Some(i@),
        None => wanted is None,
    }
}

fn has_alias(image: &KnownImage, name: &str) -> (r: bool)
    ensures
        r == image@.aliases.contains(name@),
{
    let mut k: usize = 0;
    while k < image.aliases.len()
        invariant
            k <= image.aliases@.len(),
            forall|j: int| 0 <= j < k ==> image@.aliases[j] != name@,
        decreases image.aliases@.len() - k,
    {
        if same(image.aliases[k], name) {
            assert(image@.aliases[k as int] == name@);
            return true;
        }
        k = k + 1;
    }
    false
}

fn find_named(name: &str) -> (r: Option<KnownImage>)
    ensures
        found(r, named(name@)),
{
    let mut images: Vec<KnownImage> = known_images();
    let ghost p = |i: ImageView| i.name == name@;
    let ghost all = images@;
    let ghost views = all.map_values(|i: KnownImage| i@);
    let mut k: usize = 0;
    assert(views.skip(0) =~= views);
    while k < images.len()
        invariant
            k <= images@.len(),
            images@ == all,
            views == all.map_values(|i: KnownImage| i@),
            views == catalog(),
            p == (|i: ImageView| i.name == name@),
            named(name@) == first_image(views.skip(k as int), p),
        decreases images@.len() - k,
    {
        assert(views.skip(k as int)[0] == images@[k as int]@);
        assert(views.skip(k as int).skip(1) =~= views.skip(k + 1));
        if same(images[k].name, name) {
            return Some(images.remove(k));
        }
        k = k + 1;
    }
    None
}

fn find_aliased(name: &str) -> (r: Option<KnownImage>)
    ensures
        found(r, aliased(name@)),
{
    let mut images: Vec<KnownImage> = known_images();
    let ghost p = |i: ImageView| i.aliases.contains(name@);
    let ghost all = images@;
    let ghost views = all.map_values(|i: KnownImage| i@);
    let mut k: usize = 0;
    assert(views.skip(0) =~= views);
    while k < images.len()
        invariant
            k <= images@.len(),
            images@ == all,
            views == all.map_values(|i: KnownImage| i@),
            views == catalog(),
            p == (|i: ImageView| i.aliases.contains(name@)),
            aliased(name@) == first_image(views.skip(k as int), p),
        decreases images@.len() - k,
    {
        assert(views.skip(k as int)[0] == images@[k as int]@);
        assert(views.skip(k as int).skip(1) =~= views.skip(k + 1));
        if has_alias(&images[k], name) {
            return Some(images.remove(k));
        }
        k = k + 1;
    }
    None
}

/// The image that a name stands for: its own name counts before another name of any image.
pub fn get_known_image(name: &str) -> (r: Option<KnownImage>)
    ensures
        found(r, lookup(name@)),
{
    match find_named(name) {
        Some(i) => Some(i),
        None => find_aliased(name),
    }
}

/// `s` ends with `suffix`.
pub open spec fn ends_with(s: Seq<char>, suffix: Seq<char>) -> bool {
    s.len() >= suffix.len() && s.skip(s.len() - suffix.len()) == suffix
}

/// The name of a disk without the `.ext4` or `.img` of an image.
pub open spec fn disk_name(name: Seq<char>) -> Seq<char> {
    if ends_with(name, ".ext4"@) {
        name.take(name.len() - 5)
    } else if ends_with(name, ".img"@) {
        name.take(name.len() - 4)
    } else {
        name
    }
}

/// How many characters of `s` stand before a suffix that it has.
fn before_suffix(s: &[char], suffix: &str) -> (n: Option<usize>)
    ensures
        n is Some <==> ends_with(s@, suffix@),
        n matches Some(k) ==> k == s@.len() - suffix@.len(),
{
    let tail: Vec<char> = chars_of(suffix);
    if s.len() < tail.len() {
        return None;
    }
    let len: usize = s.len();
    let from: usize = len - tail.len();
    let mut i: usize = 0;
    while i < tail.len()
        invariant
            i <= tail@.len(),
            from + tail@.len() == len,
            len == s@.len(),
            tail@ == suffix@,
            forall|k: int| 0 <= k < i ==> s@[from + k] == tail@[k],
        decreases tail@.len() - i,
    {
        if s[from + i] != tail[i] {
            assert(s@.skip(from as int)[i as int] != tail@[i as int]);
            return None;
        }
        i = i + 1;
    }
    assert(s@.skip(from as int) =~= tail@);
    Some(from)
}

/// The image that a disk was made from, by the name of its file, without `.ext4` or `.img`.
pub fn known_image_for_disk(path: &str) -> (r: Option<KnownImage>)
    ensures
        match file_name(path@) {
            Some(name) => found(r, named(disk_name(name))),
            None => r is None,
        },
{
    match file_name_of(path) {
        Some(name) => {
            let chars: Vec<char> = chars_of(name.as_str());
            let end: usize = match before_suffix(chars.as_slice(), ".ext4") {
                Some(n) => n,
                None => match before_suffix(chars.as_slice(), ".img") {
                    Some(n) => n,
                    None => chars.len(),
                },
            };
            let short: String = string_between(chars.as_slice(), 0, end);
            proof {
                reveal_strlit(".ext4");
                reveal_strlit(".img");
            }
            assert(short@ =~= disk_name(name@));
            find_named(short.as_str())
        },
        None => None,
    }
}

/// Whether an image becomes a single file system; else it becomes a whole disk.
pub open spec fn single_fs(image: ImageView) -> bool {
    image.extract_partition || image.format == ImageFormat::Ext4
}

/// Whether an image becomes a single file system; else it becomes a whole disk.
pub fn is_single_fs_artifact(image: &KnownImage) -> (r: bool)
    ensures
        r == single_fs(image@),
{
    image.extract_partition || image.format == ImageFormat::Ext4
}

/// Where images are kept.
pub const IMAGE_DIR: &'static str = "images";

/// Where an image is put.
pub open spec fn artifact(image: ImageView) -> Seq<char> {
    joined(
        IMAGE_DIR@,
        image.name + "."@ + if single_fs(image) {
            "ext4"@
        } else {
            "img"@
        },
    )
}

/// Where an image is put, unless someone said where.
pub fn artifact_path(image: &KnownImage, output: Option<&str>) -> (p: String)
    ensures
        p@ == match output {
            Some(o) => o@,
            None => artifact(image@),
        },
{
    match output {
        Some(o) => o.to_owned(),
        None => {
            let mut name: String = image.name.to_owned();
            name.append(".");
            if is_single_fs_artifact(image) {
                name.append("ext4");
            } else {
                name.append("img");
            }
            join(IMAGE_DIR, name.as_str())
        },
    }
}

/// The file beside a disk that holds its seed.
pub open spec fn seed_path(disk: Seq<char>) -> Seq<char> {
    with_file_name(
        disk,
        (match file_stem(disk) {
            Some(stem) => stem,
            None => "image"@,
        }) + ".cidata.img"@,
    )
}

/// The file beside a disk that holds its seed.
pub fn cidata_seed_path_for(disk: &str) -> (p: String)
    ensures
        p@ == seed_path(disk@),
{
    let mut name: String = match file_stem_of(disk) {
        Some(stem) => stem,
        None => "image".to_owned(),
    };
    name.append(".cidata.img");
    replace_file_name(disk, name.as_str())
}

/// What is said of a name that stands for no image.
pub open spec fn unknown_text(name: Seq<char>) -> Seq<char> {
    "Unknown image '"@ + name + "'. Use 'image list' to see available images."@
}

pub fn unknown_image(name: &str) -> (s: String)
    ensures
        s@ == unknown_text(name@),
{
    let mut s: String = "Unknown image '".to_owned();
    s.append(name);
    s.append("'. Use 'image list' to see available images.");
    s
}

/// This many copies of a character.
pub open spec fn repeated(c: char, n: nat) -> Seq<char> {
    Seq::new(n, |i: int| c)
}

/// A text, filled up with spaces to a width.
pub open spec fn padded(s: Seq<char>, width: nat) -> Seq<char> {
    if s.len() < width {
        s + repeated(' ', (width - s.len()) as nat)
    } else {
        s
    }
}

fn push_repeated(s: &mut String, c: char, n: usize)
    ensures
        final(s)@ == old(s)@ + repeated(c, n as nat),
{
    let ghost start = s@;
    let mut k: usize = 0;
    assert(start + repeated(c, 0) =~= start);
    while k < n
        invariant
            k <= n,
            s@ == start + repeated(c, k as nat),
        decreases n - k,
    {
        s.push(c);
        k = k + 1;
        assert(s@ =~= start + repeated(c, k as nat));
    }
}

fn push_padded(s: &mut String, t: &str, width: usize)
    ensures
        final(s)@ == old(s)@ + padded(t@, width as nat),
{
    let ghost start = s@;
    let len: usize = t.unicode_len();
    s.append(t);
    if len < width {
        push_repeated(s, ' ', width - len);
    }
    assert(s@ =~= start + padded(t@, width as nat));
}

/// Texts with commas between them.
pub open spec fn comma_list(items: Seq<Seq<char>>) -> Seq<char>
    decreases items.len(),
{
    if items.len() == 0 {
        seq![]
    } else if items.len() == 1 {
        items[0]
    } else {
        comma_list(items.drop_last()) + ", "@ + items.last()
    }
}

fn alias_list(image: &KnownImage) -> (s: String)
    ensures
        s@ == comma_list(image@.aliases),
{
    let ghost all = image@.aliases;
    let mut s: String = "".to_owned();
    proof {
        reveal_strlit("");
        assert(all.take(0) =~= Seq::<Seq<char>>::empty());
        assert(s@ =~= comma_list(all.take(0)));
    }
    let mut k: usize = 0;
    while k < image.aliases.len()
        invariant
            k <= image.aliases@.len(),
            all == image@.aliases,
            s@ == comma_list(all.take(k as int)),
        decreases image.aliases@.len() - k,
    {
        proof {
            assert(all.take(k + 1).drop_last() =~= all.take(k as int));
            assert(all.take(k + 1).last() == image.aliases@[k as int]@);
        }
        if k > 0 {
            s.append(", ");
        }
        s.append(image.aliases[k]);
        proof {
            if k == 0 {
                assert(s@ =~= all.take(1)[0]);
            }
        }
        k = k + 1;
    }
    assert(all.take(k as int) =~= all);
    s
}

/// A line of the list of images.
pub open spec fn list_line(name: Seq<char>, description: Seq<char>, aliases: Seq<char>) -> Seq<char> {
    padded(name, 20) + " "@ + padded(description, 75) + " "@ + padded(aliases, 10)
}

fn list_row(name: &str, description: &str, aliases: &str) -> (s: String)
    ensures
        s@ == list_line(name@, description@, aliases@),
{
    let mut s: String = "".to_owned();
    proof {
        reveal_strlit("");
        assert(s@ + padded(name@, 20) =~= padded(name@, 20));
    }
    push_padded(&mut s, name, 20);
    s.append(" ");
    push_padded(&mut s, description, 75);
    s.append(" ");
    push_padded(&mut s, aliases, 10);
    s
}

/// The lines for these images.
pub open spec fn list_of(images: Seq<ImageView>) -> Seq<Seq<char>> {
    images.map_values(|i: ImageView| list_line(i.name, i.description, comma_list(i.aliases)))
}

/// The list of images: a heading, a rule and a line for each.
pub fn cmd_list_available() -> (lines: Vec<String>)
    ensures
        lines@.map_values(|l: String| l@) == seq![
            list_line("NAME"@, "DESCRIPTION"@, "ALIASES"@),
            repeated('-', 107),
        ] + list_of(catalog()),
{
    let images: Vec<KnownImage> = known_images();
    let ghost views = images@.map_values(|i: KnownImage| i@);
    let mut lines: Vec<String> = Vec::new();
    lines.push(list_row("NAME", "DESCRIPTION", "ALIASES"));
    let mut rule: String = "".to_owned();
    proof {
        reveal_strlit("");
        assert(rule@ + repeated('-', 107) =~= repeated('-', 107));
    }
    push_repeated(&mut rule, '-', 107);
    lines.push(rule);
    let ghost head = seq![
        list_line("NAME"@, "DESCRIPTION"@, "ALIASES"@),
        repeated('-', 107),
    ];
    assert(lines@.map_values(|l: String| l@) =~= head + list_of(views.take(0)));
    let mut k: usize = 0;
    while k < images.len()
        invariant
            k <= images@.len(),
            views == images@.map_values(|i: KnownImage| i@),
            lines@.map_values(|l: String| l@) == head + list_of(views.take(k as int)),
        decreases images@.len() - k,
    {
        let aliases: String = alias_list(&images[k]);
        let ghost before = lines@;
        lines.push(list_row(images[k].name, images[k].description, aliases.as_str()));
        proof {
            assert(list_of(views.take(k + 1)) =~= list_of(views.take(k as int)).push(
                list_line(views[k as int].name, views[k as int].description, aliases@),
            ));
            assert(lines@.map_values(|l: String| l@) =~= before.map_values(|l: String| l@).push(
                list_line(views[k as int].name, views[k as int].description, aliases@),
            ));
            assert(lines@.map_values(|l: String| l@) =~= head + list_of(views.take(k + 1)));
        }
        k = k + 1;
    }
    assert(views.take(k as int) =~= views);
    lines
}

impl ImageFormat {
    pub open spec fn says(self) -> Seq<char> {
        match self {
            ImageFormat::Ext4 => "Ext4"@,
            ImageFormat::RawDisk => "RawDisk"@,
            ImageFormat::Qcow2 => "Qcow2"@,
        }
    }

    fn text(self) -> (s: &'static str)
        ensures
            s@ == self.says(),
    {
        match self {
            ImageFormat::Ext4 => "Ext4",
            ImageFormat::RawDisk => "RawDisk",
            ImageFormat::Qcow2 => "Qcow2",
        }
    }
}

impl Compression {
    pub open spec fn says(self) -> Seq<char> {
        match self {
            Compression::Plain => "None"@,
            Compression::Xz => "Xz"@,
            Compression::Zip => "Zip"@,
        }
    }

    fn text(self) -> (s: &'static str)
        ensures
            s@ == self.says(),
    {
        match self {
            Compression::Plain => "None",
            Compression::Xz => "Xz",
            Compression::Zip => "Zip",
        }
    }
}

/// A line, unless there is nothing to say.
pub open spec fn line_unless_empty(label: Seq<char>, value: Seq<char>) -> Seq<Seq<char>> {
    if value.len() == 0 {
        seq![]
    } else {
        seq![label + value]
    }
}

/// What is told of an image.
pub open spec fn info_lines(i: ImageView) -> Seq<Seq<char>> {
    seq![
        "Name:          "@ + i.name,
        "Description:   "@ + i.description,
        "URL:           "@ + i.url,
        "Format:        "@ + i.format.says(),
        "Compression:   "@ + i.compression.says(),
        "Resize to:     "@ + if i.default_size.len() == 0 {
            "none"@
        } else {
            i.default_size
        },
        "Aliases:       "@ + comma_list(i.aliases),
    ] + line_unless_empty("Default user:  "@, i.default_user) + line_unless_empty(
        "Default pass:  "@,
        i.default_password,
    ) + seq![
        "Cloud-init:    "@ + if i.cloud_init {
            "yes"@
        } else {
            "no"@
        },
        "Layout:        "@ + if single_fs(i) {
            "single-FS .ext4"@
        } else {
            "whole partitioned disk (.img)"@
        },
        "Boot path:     "@ + if i.needs_bootloader {
            "U-Boot + EFI (chainload /boot/EFI from disk)"@
        } else {
            "direct kernel (host loads Image + initrd)"@
        },
    ]
}

/// Lines as sequences of characters.
pub open spec fn views(lines: Seq<String>) -> Seq<Seq<char>> {
    lines.map_values(|l: String| l@)
}

fn push_line(lines: &mut Vec<String>, label: &str, value: &str)
    ensures
        views(final(lines)@) == views(old(lines)@).push(label@ + value@),
{
    let ghost before = lines@;
    let mut s: String = label.to_owned();
    s.append(value);
    lines.push(s);
    assert(views(lines@) =~= views(before).push(label@ + value@));
}

fn push_unless_empty(lines: &mut Vec<String>, label: &str, value: &str)
    ensures
        views(final(lines)@) == views(old(lines)@) + line_unless_empty(label@, value@),
{
    let ghost before = views(lines@);
    if value.unicode_len() > 0 {
        push_line(lines, label, value);
    }
    assert(views(lines@) =~= before + line_unless_empty(label@, value@));
}

fn info_of(img: &KnownImage) -> (lines: Vec<String>)
    ensures
        views(lines@) == info_lines(img@),
{
    let mut lines: Vec<String> = Vec::new();
    push_line(&mut lines, "Name:          ", img.name);
    push_line(&mut lines, "Description:   ", img.description);
    push_line(&mut lines, "URL:           ", img.url);
    push_line(&mut lines, "Format:        ", img.format.text());
    push_line(&mut lines, "Compression:   ", img.compression.text());
    let size: &str = if img.default_size.unicode_len() == 0 {
        "none"
    } else {
        img.default_size
    };
    push_line(&mut lines, "Resize to:     ", size);
    let aliases: String = alias_list(img);
    push_line(&mut lines, "Aliases:       ", aliases.as_str());
    let ghost head = views(lines@);
    push_unless_empty(&mut lines, "Default user:  ", img.default_user);
    push_unless_empty(&mut lines, "Default pass:  ", img.default_password);
    let seeded: &str = if img.cloud_init {
        "yes"
    } else {
        "no"
    };
    push_line(&mut lines, "Cloud-init:    ", seeded);
    let layout: &str = if is_single_fs_artifact(img) {
        "single-FS .ext4"
    } else {
        "whole partitioned disk (.img)"
    };
    push_line(&mut lines, "Layout:        ", layout);
    let boot: &str = if img.needs_bootloader {
        "U-Boot + EFI (chainload /boot/EFI from disk)"
    } else {
        "direct kernel (host loads Image + initrd)"
    };
    push_line(&mut lines, "Boot path:     ", boot);
    assert(views(lines@) =~= info_lines(img@));
    lines
}

/// What is told of the image that a name stands for, or what is said where it stands for none.
pub fn cmd_image_info(name: &str) -> (r: std::result::Result<Vec<String>, String>)
    ensures
        match lookup(name@) {
            Some(image) => r matches Ok(lines) && views(lines@) == info_lines(image),
            None => r matches Err(m) && m@ == unknown_text(name@),
        },
{
    match get_known_image(name) {
        Some(img) => Ok(info_of(&img)),
        None => Err(unknown_image(name)),
    }
}

/// The names differ in their length or in their first character.
proof fn lemma_literals()
    ensures
        "tt-debian"@.len() == 9 && "tt-debian"@[0] == 't',
        "tt"@.len() == 2 && "tt"@[0] == 't',
        "debian-13"@.len() == 9 && "debian-13"@[0] == 'd',
        "default"@.len() == 7 && "default"@[0] == 'd',
        "debian"@.len() == 6 && "debian"@[0] == 'd',
        "trixie"@.len() == 6 && "trixie"@[0] == 't',
        "ubuntu-24.04"@.len() == 12 && "ubuntu-24.04"@[0] == 'u',
        "ubuntu"@.len() == 6 && "ubuntu"@[0] == 'u',
        "noble"@.len() == 5 && "noble"@[0] == 'n',
        "fedora-42"@.len() == 9 && "fedora-42"@[0] == 'f',
        "fedora"@.len() == 6 && "fedora"@[0] == 'f',
        "fedora-server"@.len() == 13 && "fedora-server"@[0] == 'f',
        "fedora-42-cloud"@.len() == 15 && "fedora-42-cloud"@[0] == 'f',
        "fedora-cloud"@.len() == 12 && "fedora-cloud"@[0] == 'f',
        "almalinux-10-kitten"@.len() == 19 && "almalinux-10-kitten"@[0] == 'a',
        "almalinux"@.len() == 9 && "almalinux"@[0] == 'a',
        "alma"@.len() == 4 && "alma"@[0] == 'a',
        "kitten"@.len() == 6 && "kitten"@[0] == 'k',
        "opensuse-tumbleweed"@.len() == 19 && "opensuse-tumbleweed"@[0] == 'o',
        "opensuse"@.len() == 8 && "opensuse"@[0] == 'o',
        "tumbleweed"@.len() == 10 && "tumbleweed"@[0] == 't',
        "suse"@.len() == 4 && "suse"@[0] == 's',
        "jeos"@.len() == 4 && "jeos"@[0] == 'j',
{
    reveal_strlit("tt-debian");
    reveal_strlit("tt");
    reveal_strlit("debian-13");
    reveal_strlit("default");
    reveal_strlit("debian");
    reveal_strlit("trixie");
    reveal_strlit("ubuntu-24.04");
    reveal_strlit("ubuntu");
    reveal_strlit("noble");
    reveal_strlit("fedora-42");
    reveal_strlit("fedora");
    reveal_strlit("fedora-server");
    reveal_strlit("fedora-42-cloud");
    reveal_strlit("fedora-cloud");
    reveal_strlit("almalinux-10-kitten");
    reveal_strlit("almalinux");
    reveal_strlit("alma");
    reveal_strlit("kitten");
    reveal_strlit("opensuse-tumbleweed");
    reveal_strlit("opensuse");
    reveal_strlit("tumbleweed");
    reveal_strlit("suse");
    reveal_strlit("jeos");
}

/// An image is found by its own name.
pub proof fn every_name_finds_its_image(k: int)
    requires
        0 <= k < catalog().len(),
    ensures
        named(catalog()[k].name) == Some(catalog()[k]),
        lookup(catalog()[k].name) == Some(catalog()[k]),
{
    lemma_literals();
    let all = catalog();
    let name = all[k].name;
    let p = |i: ImageView| i.name == name;
    assert(all.skip(0) =~= all);
    assert(forall|j: int| 0 <= j < k ==> !p(#[trigger] all[j]));
    lemma_first(all, p, 0, k);
}

/// An image is found by each of its other names.
pub proof fn every_alias_finds_its_image(k: int, a: int)
    requires
        0 <= k < catalog().len(),
        0 <= a < catalog()[k].aliases.len(),
    ensures
        lookup(catalog()[k].aliases[a]) == Some(catalog()[k]),
{
    lemma_literals();
    let all = catalog();
    let alias = all[k].aliases[a];
    let by_name = |i: ImageView| i.name == alias;
    let by_alias = |i: ImageView| i.aliases.contains(alias);
    assert(all.skip(0) =~= all);
    assert(forall|j: int| 0 <= j < all.len() ==> !by_name(#[trigger] all[j]));
    lemma_none(all, by_name, 0);
    assert forall|j: int| 0 <= j < k implies !by_alias(#[trigger] all[j]) by {
        let other = all[j].aliases;
        assert(forall|b: int| 0 <= b < other.len() ==> #[trigger] other[b] != alias);
    }
    lemma_first(all, by_alias, 0, k);
}

proof fn lemma_first(all: Seq<ImageView>, p: spec_fn(ImageView) -> bool, from: int, k: int)
    requires
        0 <= from <= k < all.len(),
        p(all[k]),
        forall|j: int| from <= j < k ==> !p(#[trigger] all[j]),
    ensures
        first_image(all.skip(from), p) == Some(all[k]),
    decreases k - from,
{
    assert(all.skip(from)[0] == all[from]);
    if from < k {
        assert(all.skip(from).skip(1) =~= all.skip(from + 1));
        lemma_first(all, p, from + 1, k);
    }
}

proof fn lemma_none(all: Seq<ImageView>, p: spec_fn(ImageView) -> bool, from: int)
    requires
        0 <= from <= all.len(),
        forall|j: int| from <= j < all.len() ==> !p(#[trigger] all[j]),
    ensures
        first_image(all.skip(from), p) is None,
    decreases all.len() - from,
{
    if from < all.len() {
        assert(all.skip(from)[0] == all[from]);
        assert(all.skip(from).skip(1) =~= all.skip(from + 1));
        lemma_none(all, p, from + 1);
    }
}

proof fn lemma_file_name(dir: Seq<char>, name: Seq<char>, ext: Seq<char>)
    requires
        dir.len() > 0,
        dir.last() != '/',
        name.len() > 0,
        ext.len() > 0,
        forall|i: int| 0 <= i < name.len() ==> #[trigger] name[i] != '/',
        forall|i: int| 0 <= i < ext.len() ==> #[trigger] ext[i] != '/',
    ensures
        file_name(joined(dir, name + seq!['.'] + ext)) == Some(name + seq!['.'] + ext),
{
    let file = name + seq!['.'] + ext;
    let path = joined(dir, file);
    let head = dir + seq!['/'];
    assert(path =~= head + file);
    assert(path.last() == ext.last());
    assert(ext[ext.len() - 1] != '/');
    assert(trimmed(path) == path);
    lemma_tail(head, file);
    assert(last_part(path) =~= file);
    assert(file[name.len() as int] == '.');
    assert(file.len() >= 3);
    assert(file_name(path) == Some(file)) by {
        if file == seq!['.', '.'] || file == seq!['.'] {
            assert(file.len() <= 2);
        }
    }
}

proof fn lemma_tail(head: Seq<char>, file: Seq<char>)
    requires
        head.len() > 0,
        head.last() == '/',
        forall|i: int| 0 <= i < file.len() ==> #[trigger] file[i] != '/',
    ensures
        tail_len(head + file) == file.len(),
    decreases file.len(),
{
    if file.len() == 0 {
        assert(head + file =~= head);
    } else {
        assert((head + file).drop_last() =~= head + file.drop_last());
        assert((head + file).last() == file[file.len() - 1]);
        assert forall|i: int| 0 <= i < file.drop_last().len() implies #[trigger] file.drop_last()[i]
            != '/' by {
            assert(file.drop_last()[i] == file[i]);
        }
        lemma_tail(head, file.drop_last());
    }
}

/// What a pull puts down is recognised by its path alone.
pub proof fn a_pulled_disk_is_recognised(k: int)
    requires
        0 <= k < catalog().len(),
    ensures
        file_name(artifact(catalog()[k])) is Some,
        disk_name(file_name(artifact(catalog()[k]))->0) == catalog()[k].name,
        named(disk_name(file_name(artifact(catalog()[k]))->0)) == Some(catalog()[k]),
{
    let image = catalog()[k];
    let ext = if single_fs(image) {
        "ext4"@
    } else {
        "img"@
    };
    every_name_finds_its_image(k);
    reveal_strlit("images");
    reveal_strlit("ext4");
    reveal_strlit("img");
    reveal_strlit(".");
    reveal_strlit("tt-debian");
    reveal_strlit("debian-13");
    reveal_strlit("ubuntu-24.04");
    reveal_strlit("fedora-42");
    reveal_strlit("fedora-42-cloud");
    reveal_strlit("almalinux-10-kitten");
    reveal_strlit("opensuse-tumbleweed");
    reveal_strlit(".ext4");
    reveal_strlit(".img");
    assert("."@ =~= seq!['.']);
    lemma_file_name(IMAGE_DIR@, image.name, ext);
    let file = image.name + seq!['.'] + ext;
    let n = image.name.len() as int;
    assert(file.take(n) =~= image.name);
    assert(file.skip(n) =~= seq!['.'] + ext);
    assert(".ext4"@ =~= seq!['.'] + "ext4"@);
    assert(".img"@ =~= seq!['.'] + "img"@);
    if !single_fs(image) {
        assert(file.skip(file.len() - 5)[4] == 'g');
    }
}

} // verus!
