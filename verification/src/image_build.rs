//! Turning a download into an image that a guest can boot from: what is fetched, how it is unpacked
//! and converted, which partition is taken out, and how the result is grown.
use vstd::prelude::*;
use vstd::string::*;

use crate::cloud_init::{DEFAULT_PASSWORD, DEFAULT_USER};
#[allow(unused_imports)]
use crate::error::is_internal;
use crate::error::{Error, Result};
#[allow(unused_imports)]
use crate::image::{artifact, lookup, seed_path, single_fs, unknown_text, views};
use crate::image::{
    artifact_path, cidata_seed_path_for, get_known_image, is_single_fs_artifact, unknown_image,
    Compression, ImageFormat, KnownImage,
};
#[allow(unused_imports)]
use crate::path::{extension, joined, last_part, with_extension};
use crate::path::{extension_of, join, last_part_of, replace_extension};
use crate::text::{
    chars_of, parse_between, push_dec, push_signed, same, string_between, trim_bounds, ParseError,
};
#[allow(unused_imports)]
use crate::text::{dec, parsed, signed_dec, trim};

verus! {

/// A program that takes part in making an image.
#[derive(Clone, Copy, Debug, PartialEq, Eq, Structural)]
pub enum Tool {
    Xz,
    Unzip,
    QemuImg,
    Sfdisk,
    Dd,
}

impl Tool {
    pub open spec fn command(self) -> Seq<char> {
        match self {
            Tool::Xz => "xz"@,
            Tool::Unzip => "unzip"@,
            Tool::QemuImg => "qemu-img"@,
            Tool::Sfdisk => "sfdisk"@,
            Tool::Dd => "dd"@,
        }
    }

    /// Where a missing program can be had from; a program that is always there has no such place.
    pub open spec fn package(self) -> Option<Seq<char>> {
        match self {
            Tool::Xz => Some("xz-utils"@),
            Tool::Unzip => Some("unzip"@),
            Tool::QemuImg => Some("qemu-utils"@),
            Tool::Sfdisk => Some("fdisk"@),
            Tool::Dd => None,
        }
    }

    /// The name of the program.
    pub fn name(self) -> (s: &'static str)
        ensures
            s@ == self.command(),
    {
        match self {
            Tool::Xz => "xz",
            Tool::Unzip => "unzip",
            Tool::QemuImg => "qemu-img",
            Tool::Sfdisk => "sfdisk",
            Tool::Dd => "dd",
        }
    }

    /// What is said of a program that could not be run.
    pub fn not_run(self, why: &str) -> (e: Error)
        ensures
            e matches Error::Internal(m) && m@ == "Failed to run "@ + self.command() + ": "@ + why@
                + match self.package() {
                Some(p) => ". Install with: apt install "@ + p,
                None => seq![],
            },
    {
        let mut m: String = "Failed to run ".to_owned();
        m.append(self.name());
        m.append(": ");
        m.append(why);
        let ghost before = m@;
        let package: Option<&'static str> = match self {
            Tool::Xz => Some("xz-utils"),
            Tool::Unzip => Some("unzip"),
            Tool::QemuImg => Some("qemu-utils"),
            Tool::Sfdisk => Some("fdisk"),
            Tool::Dd => None,
        };
        match package {
            Some(p) => {
                m.append(". Install with: apt install ");
                m.append(p);
                assert(m@ =~= before + (". Install with: apt install "@ + p@));
            },
            None => {
                assert(m@ =~= before + Seq::<char>::empty());
            },
        }
        Error::Internal(m)
    }

    /// What is said of a program whose failure ends the work; `said` is what it said itself.
    pub fn failed(self, said: &str) -> (e: Error)
        ensures
            e matches Error::Internal(m) && m@ == match self {
                Tool::Xz => "xz decompression failed"@,
                Tool::Unzip => "unzip failed"@,
                Tool::QemuImg => "qemu-img convert failed"@,
                Tool::Sfdisk => "sfdisk failed: "@ + said@,
                Tool::Dd => "dd failed to extract partition"@,
            },
    {
        match self {
            Tool::Xz => Error::internal("xz decompression failed"),
            Tool::Unzip => Error::internal("unzip failed"),
            Tool::QemuImg => Error::internal("qemu-img convert failed"),
            Tool::Sfdisk => {
                let mut m: String = "sfdisk failed: ".to_owned();
                m.append(said);
                Error::Internal(m)
            },
            Tool::Dd => Error::internal("dd failed to extract partition"),
        }
    }
}

/// What is fetched for an image and what becomes of it.
#[derive(Debug)]
pub struct Fetch {
    pub url: &'static str,
    pub compression: Compression,
    pub format: ImageFormat,
    pub extract_partition: bool,
    /// What the result is grown to, if it is.
    pub resize_to: Option<&'static str>,
    /// Whether the result is a single file system.
    pub single_fs: bool,
    /// What is said when the image is there.
    pub ready: Vec<String>,
}

/// What pulling an image comes to.
#[derive(Debug)]
pub struct PullPlan {
    /// Where the image is, or will be.
    pub path: String,
    /// What is said first.
    pub lines: Vec<String>,
    /// What is to be fetched; nothing where the image is kept.
    pub fetch: Option<Fetch>,
    /// Where the seed goes; nowhere for an image that looks for none.
    pub seed: Option<String>,
}

/// Where an image goes.
pub open spec fn target(image: crate::image::ImageView, output: Option<Seq<char>>) -> Seq<char> {
    match output {
        Some(o) => o,
        None => artifact(image),
    }
}

/// A path that someone gave, if they did.
pub open spec fn given(output: Option<&str>) -> Option<Seq<char>> {
    match output {
        Some(o) => Some(o@),
        None => None,
    }
}

/// What is said of an image that is there.
pub open spec fn ready_lines(image: crate::image::ImageView, path: Seq<char>) -> Seq<Seq<char>> {
    seq!["Image ready: "@ + path] + if image.default_user.len() == 0 {
        seq![]
    } else {
        seq!["  Default user: "@ + image.default_user] + if image.default_password.len() == 0 {
            seq![]
        } else {
            seq!["  Default password: "@ + image.default_password]
        }
    }
}

/// The plan for an image that goes to `path`.
pub open spec fn plans(
    p: PullPlan,
    image: crate::image::ImageView,
    path: Seq<char>,
    keep: bool,
) -> bool {
    &&& p.path@ == path
    &&& match p.seed {
        Some(s) => image.cloud_init && s@ == seed_path(path),
        None => !image.cloud_init,
    }
    &&& if keep {
        &&& p.fetch is None
        &&& views(p.lines@) == seq![
            "Image already exists at "@ + path,
            "Delete it first or pass --refetch if you want to re-download."@,
        ]
    } else {
        &&& views(p.lines@) == seq![
            "Pulling "@ + image.name + " ..."@,
            "  "@ + image.description,
            "  URL: "@ + image.url,
        ]
        &&& p.fetch is Some
        &&& p.fetch->0.url@ == image.url
        &&& p.fetch->0.compression == image.compression
        &&& p.fetch->0.format == image.format
        &&& p.fetch->0.extract_partition == image.extract_partition
        &&& p.fetch->0.single_fs == single_fs(image)
        &&& match p.fetch->0.resize_to {
            Some(size) => size@ == image.default_size && size@.len() > 0,
            None => image.default_size.len() == 0,
        }
        &&& views(p.fetch->0.ready@) == ready_lines(image, path)
    }
}

fn line(a: &str, b: &str, c: &str) -> (s: String)
    ensures
        s@ == a@ + b@ + c@,
{
    let mut s: String = a.to_owned();
    s.append(b);
    s.append(c);
    s
}

fn line_of(a: &str, b: &str) -> (s: String)
    ensures
        s@ == a@ + b@,
{
    let mut s: String = a.to_owned();
    s.append(b);
    s
}

fn ready_text(image: &KnownImage, path: &str) -> (lines: Vec<String>)
    ensures
        views(lines@) == ready_lines(image@, path@),
{
    let mut lines: Vec<String> = Vec::new();
    lines.push(line_of("Image ready: ", path));
    if image.default_user.unicode_len() > 0 {
        lines.push(line_of("  Default user: ", image.default_user));
        if image.default_password.unicode_len() > 0 {
            lines.push(line_of("  Default password: ", image.default_password));
        }
    }
    assert(views(lines@) =~= ready_lines(image@, path@));
    lines
}

/// Where a pull would put an image.
pub fn pull_target(name: &str, output: Option<&str>) -> (r: Result<String>)
    ensures
        match lookup(name@) {
            Some(image) => r matches Ok(p) && p@ == target(image, given(output)),
            None => r matches Err(Error::BadRequest(m)) && m@ == unknown_text(name@),
        },
{
    match get_known_image(name) {
        Some(image) => Ok(artifact_path(&image, output)),
        None => Err(Error::BadRequest(unknown_image(name))),
    }
}

/// Plans a pull. `exists` says whether there is something where the image goes; that is kept unless
/// `force_refetch` says otherwise.
pub fn pull_image(name: &str, output: Option<&str>, exists: bool, force_refetch: bool) -> (r: Result<
    PullPlan,
>)
    ensures
        match lookup(name@) {
            Some(image) => r matches Ok(p) && plans(
                p,
                image,
                target(image, given(output)),
                exists && !force_refetch,
            ),
            None => r matches Err(Error::BadRequest(m)) && m@ == unknown_text(name@),
        },
{
    let image: KnownImage = match get_known_image(name) {
        Some(image) => image,
        None => {
            return Err(Error::BadRequest(unknown_image(name)));
        },
    };
    let path: String = artifact_path(&image, output);
    let seed: Option<String> = if image.cloud_init {
        Some(cidata_seed_path_for(path.as_str()))
    } else {
        None
    };
    let mut lines: Vec<String> = Vec::new();
    if exists && !force_refetch {
        lines.push(line_of("Image already exists at ", path.as_str()));
        lines.push("Delete it first or pass --refetch if you want to re-download.".to_owned());
        assert(views(lines@) =~= seq![
            "Image already exists at "@ + path@,
            "Delete it first or pass --refetch if you want to re-download."@,
        ]);
        return Ok(PullPlan { path, lines, fetch: None, seed });
    }
    lines.push(line("Pulling ", image.name, " ..."));
    lines.push(line_of("  ", image.description));
    lines.push(line_of("  URL: ", image.url));
    assert(views(lines@) =~= seq![
        "Pulling "@ + image@.name + " ..."@,
        "  "@ + image@.description,
        "  URL: "@ + image@.url,
    ]);
    let resize_to: Option<&'static str> = if image.default_size.unicode_len() > 0 {
        Some(image.default_size)
    } else {
        None
    };
    let fetch = Fetch {
        url: image.url,
        compression: image.compression,
        format: image.format,
        extract_partition: image.extract_partition,
        resize_to,
        single_fs: is_single_fs_artifact(&image),
        ready: ready_text(&image, path.as_str()),
    };
    Ok(PullPlan { path, lines, fetch: Some(fetch), seed })
}

/// What is done about the seed of a disk.
#[derive(Debug)]
pub enum SeedStep {
    /// The guest looks for none.
    Nothing,
    /// There is one already, and it stays.
    Keep { line: String },
    /// A default one is written.
    Write { path: String, line: String },
}

/// Decides about the seed of a disk. `exists` says whether there is one.
pub fn ensure_cidata_seed(image: &KnownImage, disk: &str, exists: bool) -> (step: SeedStep)
    ensures
        match step {
            SeedStep::Nothing => !image.cloud_init,
            SeedStep::Keep { line } => image.cloud_init && exists && line@ == "  Cloud-init seed: "@
                + seed_path(disk@) + " (existing, not overwritten)"@,
            SeedStep::Write { path, line } => image.cloud_init && !exists && path@ == seed_path(
                disk@,
            ) && line@ == "  Cloud-init seed: "@ + seed_path(disk@) + " (default user '"@
                + DEFAULT_USER@ + "' / password '"@ + DEFAULT_PASSWORD@ + "')"@,
        },
{
    if !image.cloud_init {
        return SeedStep::Nothing;
    }
    let path: String = cidata_seed_path_for(disk);
    if exists {
        return SeedStep::Keep {
            line: line("  Cloud-init seed: ", path.as_str(), " (existing, not overwritten)"),
        };
    }
    let mut text: String = line("  Cloud-init seed: ", path.as_str(), " (default user '");
    text.append(DEFAULT_USER);
    text.append("' / password '");
    text.append(DEFAULT_PASSWORD);
    text.append("')");
    SeedStep::Write { path, line: text }
}

/// What is said where the default seed could not be written.
pub fn seed_failed(e: &Error) -> (out: Error)
    ensures
        is_internal(out, "write default seed ISO: "@ + e.text()),
{
    let text: String = e.to_string();
    Error::Internal(line_of("write default seed ISO: ", text.as_str()))
}

/// A text without this ending, as often as it has it.
pub open spec fn without_ending(s: Seq<char>, ending: Seq<char>) -> Seq<char>
    decreases s.len(),
{
    if ending.len() > 0 && s.len() >= ending.len() && s.skip(s.len() - ending.len()) == ending {
        without_ending(s.take(s.len() - ending.len()), ending)
    } else {
        s
    }
}

fn without_xz(s: &str) -> (r: String)
    ensures
        r@ == without_ending(s@, ".xz"@),
{
    let chars: Vec<char> = chars_of(s);
    let mut n: usize = chars.len();
    proof {
        reveal_strlit(".xz");
        assert(".xz"@ =~= seq!['.', 'x', 'z']);
        assert(chars@.take(n as int) =~= chars@);
    }
    while n >= 3 && chars[n - 3] == '.' && chars[n - 2] == 'x' && chars[n - 1] == 'z'
        invariant
            n <= chars@.len(),
            ".xz"@ == seq!['.', 'x', 'z'],
            without_ending(chars@, ".xz"@) == without_ending(chars@.take(n as int), ".xz"@),
        decreases n,
    {
        let ghost here = chars@.take(n as int);
        assert(here.skip(n - 3) =~= ".xz"@);
        assert(here.take(n - 3) =~= chars@.take(n - 3));
        n = n - 3;
    }
    proof {
        let here = chars@.take(n as int);
        if n >= 3 && here.skip(n - 3) == ".xz"@ {
            assert(here.skip(n - 3)[0] == '.' && here.skip(n - 3)[1] == 'x' && here.skip(n - 3)[2]
                == 'z');
        }
    }
    let r: String = string_between(chars.as_slice(), 0, n);
    assert(r@ =~= chars@.take(n as int));
    r
}

/// How a download is unpacked.
#[derive(Debug)]
pub enum Unpack {
    /// It is what it should be.
    Nothing,
    /// `xz -d -f` on it leaves `result` in its place.
    Xz { result: String },
    /// `unzip -o -j -d` puts what it holds into the directory; the download is removed.
    Zip,
}

/// A download: where it goes and how it is unpacked.
#[derive(Debug)]
pub struct Download {
    pub path: String,
    pub unpack: Unpack,
}

/// Where the download of `url` goes in a directory, and how it is unpacked.
pub fn download_file(url: &str, dir: &str, compression: Compression) -> (d: Download)
    ensures
        d.path@ == joined(dir@, last_part(url@)),
        match compression {
            Compression::Plain => d.unpack is Nothing,
            Compression::Xz => d.unpack matches Unpack::Xz { result } && result@ == joined(
                dir@,
                without_ending(last_part(url@), ".xz"@),
            ),
            Compression::Zip => d.unpack is Zip,
        },
{
    let name: String = last_part_of(url);
    let path: String = join(dir, name.as_str());
    let unpack: Unpack = match compression {
        Compression::Plain => Unpack::Nothing,
        Compression::Xz => Unpack::Xz { result: join(dir, without_xz(name.as_str()).as_str()) },
        Compression::Zip => Unpack::Zip,
    };
    Download { path, unpack }
}

/// What the archive of a ready-made image holds.
pub const ARCHIVED_IMAGE: &'static str = "debian-riscv64.img";

/// A file that may be an image, by its extension.
pub open spec fn may_be_image(path: Seq<char>) -> bool {
    extension(path) == Some("img"@) || extension(path) == Some("ext4"@)
}

/// Picks the image among what an archive held. `usual` says whether the usual file is there;
/// `entries` are the paths in the directory, in the order in which it lists them.
pub fn pick_extracted(dir: &str, usual: bool, entries: &Vec<String>) -> (r: Result<String>)
    ensures
        usual ==> (r matches Ok(p) && p@ == joined(dir@, ARCHIVED_IMAGE@)),
        !usual ==> match r {
            Ok(p) => exists|i: int|
                0 <= i < entries@.len() && p@ == #[trigger] entries@[i]@ && may_be_image(
                    entries@[i]@,
                ) && forall|j: int| 0 <= j < i ==> !may_be_image(#[trigger] entries@[j]@),
            Err(Error::Internal(m)) => m@ == "Could not find extracted image file"@ && forall|j: int|
                0 <= j < entries@.len() ==> !may_be_image(#[trigger] entries@[j]@),
            Err(_) => false,
        },
{
    if usual {
        return Ok(join(dir, ARCHIVED_IMAGE));
    }
    let mut k: usize = 0;
    while k < entries.len()
        invariant
            k <= entries@.len(),
            !usual,
            forall|j: int| 0 <= j < k ==> !may_be_image(#[trigger] entries@[j]@),
        decreases entries@.len() - k,
    {
        match extension_of(entries[k].as_str()) {
            Some(ext) => {
                if same(ext.as_str(), "img") || same(ext.as_str(), "ext4") {
                    return Ok(entries[k].as_str().to_owned());
                }
            },
            None => {},
        }
        k = k + 1;
    }
    Err(Error::internal("Could not find extracted image file"))
}

/// A step of turning a download into an image. The first that fails ends it.
#[derive(Debug)]
pub enum ConvertStep {
    /// The download becomes the image: renamed, or else copied; then the download is removed.
    Move,
    /// `qemu-img convert -f qcow2 -O raw` writes the download to `dest`.
    ToRaw { dest: String },
    /// The largest partition of `disk` becomes the image.
    Extract { disk: String },
    /// A file that is no longer needed is removed; that it is gone already does not matter.
    Remove { path: String },
}

/// A step, with its paths as sequences of characters.
pub enum ConvertView {
    Move,
    ToRaw { dest: Seq<char> },
    Extract { disk: Seq<char> },
    Remove { path: Seq<char> },
}

impl View for ConvertStep {
    type V = ConvertView;

    open spec fn view(&self) -> ConvertView {
        match *self {
            ConvertStep::Move => ConvertView::Move,
            ConvertStep::ToRaw { dest } => ConvertView::ToRaw { dest: dest@ },
            ConvertStep::Extract { disk } => ConvertView::Extract { disk: disk@ },
            ConvertStep::Remove { path } => ConvertView::Remove { path: path@ },
        }
    }
}

/// The steps from a download to an image.
pub open spec fn conversion(
    input: Seq<char>,
    output: Seq<char>,
    in_place: bool,
    format: ImageFormat,
    extract: bool,
) -> Seq<ConvertView> {
    let moved = if in_place {
        seq![]
    } else {
        seq![ConvertView::Move]
    };
    match format {
        ImageFormat::Ext4 => moved,
        ImageFormat::Qcow2 => if extract {
            let raw = with_extension(input, "raw"@);
            seq![
                ConvertView::ToRaw { dest: raw },
                ConvertView::Remove { path: input },
                ConvertView::Extract { disk: raw },
                ConvertView::Remove { path: raw },
            ]
        } else {
            seq![ConvertView::ToRaw { dest: output }, ConvertView::Remove { path: input }]
        },
        ImageFormat::RawDisk => if extract {
            seq![ConvertView::Extract { disk: input }, ConvertView::Remove { path: input }]
        } else {
            moved
        },
    }
}

/// Plans the conversion of a download. `in_place` says whether the download already stands where
/// the image goes.
pub fn convert_to_disk_image(
    input: &str,
    format: ImageFormat,
    extract_partition: bool,
    output: &str,
    in_place: bool,
) -> (steps: Vec<ConvertStep>)
    ensures
        steps@.map_values(|s: ConvertStep| s@) == conversion(
            input@,
            output@,
            in_place,
            format,
            extract_partition,
        ),
{
    let mut steps: Vec<ConvertStep> = Vec::new();
    match format {
        ImageFormat::Ext4 => {
            if !in_place {
                steps.push(ConvertStep::Move);
            }
        },
        ImageFormat::Qcow2 => {
            if extract_partition {
                let raw: String = replace_extension(input, "raw");
                steps.push(ConvertStep::ToRaw { dest: raw.as_str().to_owned() });
                steps.push(ConvertStep::Remove { path: input.to_owned() });
                steps.push(ConvertStep::Extract { disk: raw.as_str().to_owned() });
                steps.push(ConvertStep::Remove { path: raw });
            } else {
                steps.push(ConvertStep::ToRaw { dest: output.to_owned() });
                steps.push(ConvertStep::Remove { path: input.to_owned() });
            }
        },
        ImageFormat::RawDisk => {
            if extract_partition {
                steps.push(ConvertStep::Extract { disk: input.to_owned() });
                steps.push(ConvertStep::Remove { path: input.to_owned() });
            } else if !in_place {
                steps.push(ConvertStep::Move);
            }
        },
    }
    assert(steps@.map_values(|s: ConvertStep| s@) =~= conversion(
        input@,
        output@,
        in_place,
        format,
        extract_partition,
    ));
    steps
}

/// What `serde_json` reads from a text: the list at a pointer, each entry as the unsigned numbers
/// under two keys where it has them; no list where the pointer leads to none; an error text where
/// the text is no JSON.
pub uninterp spec fn json_rows(
    json: Seq<char>,
    list: Seq<char>,
    first: Seq<char>,
    second: Seq<char>,
) -> std::result::Result<Option<Seq<(Option<u64>, Option<u64>)>>, Seq<char>>;

/// Reads a text with `serde_json::from_str` and looks up the list at a pointer with
/// `Value::pointer` and `as_array`; of each entry it takes the values under two keys with
/// `Value::get` and `as_u64`. The text of a parse error is that of `serde_json::Error`. All of it
/// depends on the arguments alone.
#[verifier::external_body]
fn read_rows(json: &str, list: &str, first: &str, second: &str) -> (r: std::result::Result<
    Option<Vec<(Option<u64>, Option<u64>)>>,
    String,
>)
    ensures
        match (r, json_rows(json@, list@, first@, second@)) {
            (Ok(Some(rows)), Ok(Some(named))) => rows@ == named,
            (Ok(None), Ok(None)) => true,
            (Err(m), Err(named)) => m@ == named,
            _ => false,
        },
{
    let root: serde_json::Value = serde_json::from_str(json).map_err(|e| e.to_string())?;
    let number = |entry: &serde_json::Value, key: &str| entry.get(key).and_then(|v| v.as_u64());
    Ok(root.pointer(list).and_then(|v| v.as_array()).map(|entries| {
        entries.iter().map(|e| (number(e, first), number(e, second))).collect()
    }))
}

/// A row that says where a partition starts and how large it is.
pub open spec fn whole(row: (Option<u64>, Option<u64>)) -> bool {
    row.0 is Some && row.1 is Some
}

/// The partition in row `i` is the last of the largest.
pub open spec fn is_largest(rows: Seq<(Option<u64>, Option<u64>)>, i: int) -> bool {
    &&& 0 <= i < rows.len()
    &&& whole(rows[i])
    &&& forall|j: int|
        0 <= j < rows.len() && whole(#[trigger] rows[j]) ==> rows[j].1->0 <= rows[i].1->0
    &&& forall|j: int|
        i < j < rows.len() && whole(#[trigger] rows[j]) ==> rows[j].1->0 < rows[i].1->0
}

/// The start and the size of the largest partition.
pub open spec fn picks_largest(
    rows: Seq<(Option<u64>, Option<u64>)>,
    r: Result<(u64, u64)>,
) -> bool {
    match r {
        Ok(p) => exists|i: int| #[trigger]
            is_largest(rows, i) && rows[i] == (Some(p.0), Some(p.1)),
        Err(Error::Internal(m)) => m@ == "No partitions found in disk image"@ && forall|j: int|
            0 <= j < rows.len() ==> !whole(#[trigger] rows[j]),
        Err(_) => false,
    }
}

/// The start and the size of the largest partition, in sectors. Rows that lack either are skipped.
pub fn largest_partition(rows: &Vec<(Option<u64>, Option<u64>)>) -> (r: Result<(u64, u64)>)
    ensures
        picks_largest(rows@, r),
{
    let mut best: Option<(u64, u64)> = None;
    let ghost mut at: int = 0;
    let mut k: usize = 0;
    while k < rows.len()
        invariant
            k <= rows@.len(),
            match best {
                Some(b) => is_largest(rows@.take(k as int), at) && rows@[at] == (
                    Some(b.0),
                    Some(b.1),
                ),
                None => forall|j: int| 0 <= j < k ==> !whole(#[trigger] rows@[j]),
            },
        decreases rows@.len() - k,
    {
        let ghost before = rows@.take(k as int);
        let ghost after = rows@.take(k + 1);
        proof {
            assert(forall|j: int| 0 <= j < k ==> after[j] == before[j]);
            assert(forall|j: int| 0 <= j < k ==> #[trigger] before[j] == rows@[j]);
            assert(after[k as int] == rows@[k as int]);
        }
        let row: (Option<u64>, Option<u64>) = rows[k];
        match row {
            (Some(start), Some(size)) => {
                let better: bool = match best {
                    Some(b) => size >= b.1,
                    None => true,
                };
                if better {
                    best = Some((start, size));
                    proof {
                        at = k as int;
                        assert(is_largest(after, at));
                    }
                } else {
                    assert(is_largest(after, at));
                }
            },
            _ => {
                assert(best is Some ==> is_largest(after, at));
            },
        }
        k = k + 1;
    }
    assert(rows@.take(k as int) =~= rows@);
    match best {
        Some(b) => {
            assert(is_largest(rows@, at));
            Ok(b)
        },
        None => Err(Error::internal("No partitions found in disk image")),
    }
}

/// Where `sfdisk --json` lists partitions.
pub const PARTITIONS_AT: &'static str = "/partitiontable/partitions";

/// The start and the size of the largest partition that `sfdisk --json` lists, in sectors.
pub fn parse_largest_partition(json: &str) -> (r: Result<(u64, u64)>)
    ensures
        match json_rows(json@, PARTITIONS_AT@, "start"@, "size"@) {
            Ok(Some(rows)) => picks_largest(rows, r),
            Ok(None) => r matches Err(Error::Internal(m)) && m@
                == "sfdisk JSON missing /partitiontable/partitions array"@,
            Err(why) => r matches Err(Error::Internal(m)) && m@ == "sfdisk emitted non-JSON: "@
                + why,
        },
{
    match read_rows(json, PARTITIONS_AT, "start", "size") {
        Ok(Some(rows)) => largest_partition(&rows),
        Ok(None) => Err(Error::internal("sfdisk JSON missing /partitiontable/partitions array")),
        Err(why) => Err(Error::Internal(line_of("sfdisk emitted non-JSON: ", why.as_str()))),
    }
}

/// What is said of the partition that was picked.
pub fn partition_line(start: u64, size: u64) -> (s: String)
    requires
        size * 512 <= u64::MAX,
    ensures
        s@ == "  Found root partition: start="@ + dec(start as nat) + ", size="@ + dec(size as nat)
            + " sectors ("@ + dec((size * 512 / 0x10_0000) as nat) + " MB)"@,
{
    let mut s: String = "  Found root partition: start=".to_owned();
    push_dec(&mut s, start);
    s.append(", size=");
    push_dec(&mut s, size);
    s.append(" sectors (");
    push_dec(&mut s, size * 512 / 0x10_0000);
    s.append(" MB)");
    s
}

/// What `dd` is told so that it copies a partition.
pub open spec fn dd_arguments(disk: Seq<char>, output: Seq<char>, start: u64, size: u64) -> Seq<
    Seq<char>,
> {
    seq![
        "if="@ + disk,
        "of="@ + output,
        "bs=512"@,
        "skip="@ + dec(start as nat),
        "count="@ + dec(size as nat),
        "status=progress"@,
    ]
}

/// What `dd` is told so that it copies a partition.
pub fn extract_root_partition(disk: &str, output: &str, start: u64, size: u64) -> (args: Vec<String>)
    ensures
        views(args@) == dd_arguments(disk@, output@, start, size),
{
    let mut args: Vec<String> = Vec::new();
    args.push(line_of("if=", disk));
    args.push(line_of("of=", output));
    args.push("bs=512".to_owned());
    let mut skip: String = "skip=".to_owned();
    push_dec(&mut skip, start);
    args.push(skip);
    let mut count: String = "count=".to_owned();
    push_dec(&mut count, size);
    args.push(count);
    args.push("status=progress".to_owned());
    assert(views(args@) =~= dd_arguments(disk@, output@, start, size));
    args
}

/// How many bytes the last letter of a size stands for, where it stands for more than one.
pub open spec fn unit(c: char) -> Option<u64> {
    if c == 'G' || c == 'g' {
        Some(0x4000_0000)
    } else if c == 'T' || c == 't' {
        Some(0x100_0000_0000)
    } else if c == 'M' || c == 'm' {
        Some(0x10_0000)
    } else {
        None
    }
}

/// The number in front of the unit.
pub open spec fn amount(size: Seq<char>) -> std::result::Result<nat, ParseError> {
    if size.len() > 0 && unit(size.last()) is Some {
        parsed(size.drop_last(), u64::MAX as nat)
    } else {
        parsed(size, u64::MAX as nat)
    }
}

/// How many bytes the amount counts.
pub open spec fn unit_of(size: Seq<char>) -> u64 {
    if size.len() > 0 && unit(size.last()) is Some {
        unit(size.last())->0
    } else {
        1
    }
}

/// A size that can be counted in bytes, if it is a size at all.
pub open spec fn countable(s: Seq<char>) -> bool {
    amount(trim(s)) matches Ok(n) ==> n * unit_of(trim(s)) <= u64::MAX
}

/// What a size comes to.
pub open spec fn is_size(s: Seq<char>, r: Result<u64>) -> bool {
    if trim(s).len() == 0 {
        r matches Err(Error::BadRequest(m)) && m@ == "empty size string"@
    } else {
        match amount(trim(s)) {
            Ok(n) => r matches Ok(bytes) && bytes == n * unit_of(trim(s)),
            Err(why) => r matches Err(Error::BadRequest(m)) && m@ == "Invalid size '"@ + trim(s)
                + "': "@ + why.says(),
        }
    }
}

/// Reads a size such as `10G`, in bytes.
pub fn parse_size(s: &str) -> (r: Result<u64>)
    requires
        countable(s@),
    ensures
        is_size(s@, r),
{
    let chars: Vec<char> = chars_of(s);
    let (from, to): (usize, usize) = trim_bounds(chars.as_slice());
    let ghost size = trim(s@);
    if from == to {
        return Err(Error::bad_request("empty size string"));
    }
    let c: char = chars[to - 1];
    assert(size.last() == c);
    assert(size.drop_last() =~= chars@.subrange(from as int, to - 1));
    let factor: u64 = if c == 'G' || c == 'g' {
        0x4000_0000
    } else if c == 'T' || c == 't' {
        0x100_0000_0000
    } else if c == 'M' || c == 'm' {
        0x10_0000
    } else {
        1
    };
    let end: usize = if factor > 1 {
        to - 1
    } else {
        to
    };
    match parse_between(chars.as_slice(), from, end, u64::MAX) {
        Ok(n) => {
            assert(amount(size) == Ok::<nat, ParseError>(n as nat));
            assert(n * factor <= u64::MAX);
            Ok(n * factor)
        },
        Err(e) => {
            let text: String = string_between(chars.as_slice(), from, to);
            let mut m: String = "Invalid size '".to_owned();
            m.append(text.as_str());
            m.append("': ");
            m.append(e.text());
            Err(Error::BadRequest(m))
        },
    }
}

/// How running a program ended.
#[derive(Clone, Copy, Debug, PartialEq, Eq, Structural)]
pub enum Outcome {
    /// It could not be run.
    NotRun,
    /// It ended with a status, or was killed.
    Ended(Option<i32>),
}

impl Outcome {
    pub open spec fn succeeds(self) -> bool {
        self == Outcome::Ended(Some(0))
    }

    fn good(self) -> (r: bool)
        ensures
            r == self.succeeds(),
    {
        match self {
            Outcome::Ended(Some(0)) => true,
            _ => false,
        }
    }
}

/// What growing a file comes to, by how `qemu-img resize -f raw` ended: nothing more, or a length
/// to set.
pub fn resize_file(size: &str, qemu: Outcome) -> (r: Result<Option<u64>>)
    requires
        countable(size@),
    ensures
        qemu.succeeds() ==> (r matches Ok(None)),
        !qemu.succeeds() ==> match r {
            Ok(Some(bytes)) => is_size(size@, Ok(bytes)),
            Ok(None) => false,
            Err(e) => is_size(size@, Err(e)),
        },
{
    if qemu.good() {
        return Ok(None);
    }
    match parse_size(size) {
        Ok(bytes) => Ok(Some(bytes)),
        Err(e) => Err(e),
    }
}

/// What growing an image comes to, once its file has grown.
#[derive(Debug)]
pub enum Growth {
    /// The guest does the rest; this is said of it.
    ByGuest { line: String },
    /// `e2fsck -f -y` and `resize2fs` do the rest.
    ByTools,
}

/// Decides who grows what is in the file.
pub fn resize_image(size: &str, is_single_fs: bool) -> (g: Growth)
    ensures
        match g {
            Growth::ByTools => is_single_fs,
            Growth::ByGuest { line } => !is_single_fs && line@
                == "  Whole-disk image: file grown to "@ + size@
                + " but partitions + FS stay at their original extent. Guest's cloud-init growpart / systemd-growfs will expand on first boot."@,
        },
{
    if is_single_fs {
        Growth::ByTools
    } else {
        Growth::ByGuest {
            line: line(
                "  Whole-disk image: file grown to ",
                size,
                " but partitions + FS stay at their original extent. Guest's cloud-init growpart / systemd-growfs will expand on first boot.",
            ),
        }
    }
}

/// A status as it is told.
pub open spec fn status_text(code: Option<i32>) -> Seq<char> {
    match code {
        Some(n) => "Some("@ + signed_dec(n as int) + ")"@,
        None => "None"@,
    }
}

/// What is said of `e2fsck` where it found what it could not put right. That it could not be run
/// does not matter.
pub fn fsck_warning(fsck: Outcome) -> (w: Option<String>)
    ensures
        match fsck {
            Outcome::NotRun => w is None,
            Outcome::Ended(code) => if code == Some(0i32) || code == Some(1i32) {
                w is None
            } else {
                w matches Some(line) && line@ == "  Warning: e2fsck returned "@ + status_text(code)
            },
        },
{
    match fsck {
        Outcome::NotRun => None,
        Outcome::Ended(None) => Some(line_of("  Warning: e2fsck returned ", "None")),
        Outcome::Ended(Some(code)) => {
            if code == 0 || code == 1 {
                None
            } else {
                let mut number: String = "Some(".to_owned();
                push_signed(&mut number, code as i64);
                number.append(")");
                Some(line_of("  Warning: e2fsck returned ", number.as_str()))
            }
        },
    }
}

/// What is said of `resize2fs` where it failed.
pub const GROW_WARNING: &'static str =
    "  Warning: resize2fs failed. Image may not use full disk size.";

/// What comes of growing a file system with `resize2fs`, by how that ended: an error where it could
/// not be run, a warning where it failed.
pub fn grown(resize: Outcome, why: &str) -> (r: Result<Option<&'static str>>)
    ensures
        match resize {
            Outcome::NotRun => r matches Err(Error::Internal(m)) && m@
                == "Failed to run resize2fs: "@ + why@ + ". Install with: apt install e2fsprogs"@,
            Outcome::Ended(_) => if resize.succeeds() {
                r matches Ok(None)
            } else {
                r matches Ok(Some(w)) && w@ == GROW_WARNING@
            },
        },
{
    match resize {
        Outcome::NotRun => {
            let m: String = line(
                "Failed to run resize2fs: ",
                why,
                ". Install with: apt install e2fsprogs",
            );
            Err(Error::Internal(m))
        },
        Outcome::Ended(_) => {
            if resize.good() {
                Ok(None)
            } else {
                Ok(Some(GROW_WARNING))
            }
        },
    }
}

/// One partition is picked where any is listed, and none that is listed is larger.
pub proof fn the_largest_is_a_maximum(rows: Seq<(Option<u64>, Option<u64>)>, r: Result<(u64, u64)>)
    requires
        picks_largest(rows, r),
    ensures
        r is Ok <==> exists|j: int| 0 <= j < rows.len() && whole(#[trigger] rows[j]),
        r matches Ok(p) ==> forall|j: int|
            0 <= j < rows.len() && whole(#[trigger] rows[j]) ==> rows[j].1->0 <= p.1,
{
}

} // verus!
