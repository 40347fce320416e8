//! What holds of turning a download into an image.
use vstd::prelude::*;

#[allow(unused_imports)]
use crate::error::{Error, Result};
#[allow(unused_imports)]
use crate::image::{ImageFormat, ImageView};
#[allow(unused_imports)]
use crate::image_build::{
    amount, conversion, countable, dd_arguments, is_largest, is_size, may_be_image, picks_largest,
    plans, ready_lines, status_text, target, unit, unit_of, whole, without_ending, ConvertView,
    Outcome, PullPlan, Tool, ARCHIVED_IMAGE, GROW_WARNING, PARTITIONS_AT,
};
#[allow(unused_imports)]
use crate::path_laws::a_name_is_split_at_its_last_dot;
#[allow(unused_imports)]
use crate::text::{dec, parsed, signed_dec, trim, white, ParseError};

verus! {

/// The image that an archive usually holds, and where a partition table lists its partitions.
pub proof fn names_that_others_chose()
    ensures
        ARCHIVED_IMAGE@ == "debian-riscv64.img"@,
        PARTITIONS_AT@ == "/partitiontable/partitions"@,
{
}

/// Each program is run under its own name, and one that may be missing is had from the package that
/// holds it.
pub proof fn programs_and_their_packages()
    ensures
        Tool::Xz.command() == "xz"@ && Tool::Xz.package() == Some("xz-utils"@),
        Tool::Unzip.command() == "unzip"@ && Tool::Unzip.package() == Some("unzip"@),
        Tool::QemuImg.command() == "qemu-img"@ && Tool::QemuImg.package() == Some("qemu-utils"@),
        Tool::Sfdisk.command() == "sfdisk"@ && Tool::Sfdisk.package() == Some("fdisk"@),
        Tool::Dd.command() == "dd"@ && Tool::Dd.package() is None,
{
}

/// An image is put where someone said, else where it belongs.
pub proof fn an_image_goes_where_someone_said(image: ImageView, path: Seq<char>)
    ensures
        target(image, Some(path)) == path,
        target(image, None) == crate::image::artifact(image),
{
}

/// An image that is there is told with its path, then with who can log in and how, as far as there
/// is something to tell.
pub proof fn what_is_told_of_a_ready_image(image: ImageView, path: Seq<char>)
    ensures
        ready_lines(image, path)[0] == "Image ready: "@ + path,
        image.default_user.len() == 0 ==> ready_lines(image, path).len() == 1,
        image.default_user.len() > 0 ==> ready_lines(image, path)[1] == "  Default user: "@
            + image.default_user,
        image.default_user.len() > 0 && image.default_password.len() == 0 ==> ready_lines(
            image,
            path,
        ).len() == 2,
        image.default_user.len() > 0 && image.default_password.len() > 0 ==> {
            &&& ready_lines(image, path).len() == 3
            &&& ready_lines(image, path)[2] == "  Default password: "@ + image.default_password
        },
{
}

/// A plan fetches exactly where it does not keep what is there, and what it fetches is the image
/// that was asked for. It gives the guest a seed beside the disk exactly where the guest looks for
/// one.
pub proof fn a_plan_fetches_what_was_asked_for(
    p: PullPlan,
    image: ImageView,
    path: Seq<char>,
    keep: bool,
)
    requires
        plans(p, image, path, keep),
    ensures
        p.path@ == path,
        p.fetch is Some <==> !keep,
        p.seed is Some <==> image.cloud_init,
        p.seed matches Some(s) ==> s@ == crate::image::seed_path(path),
        p.fetch matches Some(f) ==> {
            &&& f.url@ == image.url
            &&& f.compression == image.compression
            &&& f.format == image.format
            &&& f.extract_partition == image.extract_partition
            &&& f.single_fs <==> image.extract_partition || image.format is Ext4
            &&& f.resize_to is Some <==> image.default_size.len() > 0
            &&& f.resize_to matches Some(size) ==> size@ == image.default_size
            &&& f.ready@.len() >= 1
            &&& f.ready@[0]@ == "Image ready: "@ + path
        },
        keep ==> p.lines@.len() == 2 && p.lines@[0]@ == "Image already exists at "@ + path,
        keep ==> p.lines@[1]@ == "Delete it first or pass --refetch if you want to re-download."@,
        !keep ==> p.lines@.len() == 3 && p.lines@[0]@ == "Pulling "@ + image.name + " ..."@
            && p.lines@[1]@ == "  "@ + image.description && p.lines@[2]@ == "  URL: "@ + image.url,
{
    let v = crate::image::views(p.lines@);
    assert(v.len() == p.lines@.len());
    assert(forall|i: int| 0 <= i < p.lines@.len() ==> v[i] == #[trigger] p.lines@[i]@);
    if !keep {
        let f = p.fetch->0;
        let r = crate::image::views(f.ready@);
        assert(r.len() == f.ready@.len());
        assert(r[0] == f.ready@[0]@);
        assert(v[0] == p.lines@[0]@ && v[1] == p.lines@[1]@ && v[2] == p.lines@[2]@);
    } else {
        assert(v[0] == p.lines@[0]@ && v[1] == p.lines@[1]@);
    }
}

/// An ending is taken off as often as it stands there, and nothing else is.
pub proof fn an_ending_is_taken_off(s: Seq<char>, ending: Seq<char>)
    requires
        ending.len() > 0,
    ensures
        without_ending(s + ending, ending) == without_ending(s, ending),
        !ending.is_suffix_of(s) ==> without_ending(s, ending) == s,
        !ending.is_suffix_of(without_ending(s, ending)),
        without_ending(s, ending).is_prefix_of(s),
    decreases s.len(),
{
    let t = s + ending;
    assert(t.skip(t.len() - ending.len()) =~= ending);
    assert(t.take(t.len() - ending.len()) =~= s);
    if s.len() >= ending.len() {
        assert(s.skip(s.len() - ending.len()) =~= s.subrange(
            s.len() - ending.len(),
            s.len() as int,
        ));
        if s.skip(s.len() - ending.len()) == ending {
            let shorter = s.take(s.len() - ending.len());
            an_ending_is_taken_off(shorter, ending);
            let r = without_ending(shorter, ending);
            assert(r =~= s.subrange(0, r.len() as int)) by {
                assert(r == shorter.subrange(0, r.len() as int));
            }
        }
    }
    if without_ending(s, ending) == s {
        assert(s =~= s.subrange(0, s.len() as int));
    }
}

/// What an archive held may be the image where its name ends in `.img` or `.ext4`, in whatever
/// directory it is, and nothing else may.
pub proof fn images_are_known_by_their_extension(dir: Seq<char>, name: Seq<char>, ext: Seq<char>)
    requires
        name.len() > 0,
        !name.contains('/'),
        !ext.contains('/'),
        !ext.contains('.'),
        name + seq!['.'] + ext != seq!['.', '.'],
    ensures
        may_be_image(dir + seq!['/'] + (name + seq!['.'] + ext)) <==> ext == "img"@ || ext
            == "ext4"@,
        !name.contains('.') ==> !may_be_image(dir + seq!['/'] + name),
{
    a_name_is_split_at_its_last_dot(dir, name, ext);
}

/// A download of another format becomes a raw disk first. What is taken out of a disk is the last
/// step but the clearing up. The download itself is moved where it is the image already and does not
/// stand there yet, and removed where something was made of it.
pub proof fn how_a_download_becomes_an_image(
    input: Seq<char>,
    output: Seq<char>,
    in_place: bool,
    format: ImageFormat,
    extract: bool,
)
    ensures
        ({
            let steps = conversion(input, output, in_place, format, extract);
            let made = format is Qcow2 || format is RawDisk && extract;
            &&& !made && in_place ==> steps.len() == 0
            &&& !made && !in_place ==> steps == seq![ConvertView::Move]
            &&& made ==> steps.contains(ConvertView::Remove { path: input }) && !steps.contains(
                ConvertView::Move,
            )
            &&& format is Qcow2 ==> steps[0] is ToRaw && steps[1] == (ConvertView::Remove {
                path: input,
            })
            &&& format is Qcow2 && !extract ==> steps.len() == 2 && steps[0] == (
            ConvertView::ToRaw { dest: output })
            &&& format is Qcow2 && extract ==> {
                let raw = crate::path::with_extension(input, "raw"@);
                &&& steps.len() == 4
                &&& steps[0] == (ConvertView::ToRaw { dest: raw })
                &&& steps[2] == (ConvertView::Extract { disk: raw })
                &&& steps[3] == (ConvertView::Remove { path: raw })
            }
            &&& format is RawDisk && extract ==> steps.len() == 2 && steps[0] == (
            ConvertView::Extract { disk: input })
        }),
{
    let steps = conversion(input, output, in_place, format, extract);
    if format is Qcow2 {
        assert(steps[1] == ConvertView::Remove { path: input });
    }
    if format is RawDisk && extract {
        assert(steps[1] == ConvertView::Remove { path: input });
    }
}

/// Of partitions of the same size the last one counts, and a row that does not say both where a
/// partition starts and how large it is counts for nothing.
pub proof fn the_last_of_the_largest_is_picked(
    rows: Seq<(Option<u64>, Option<u64>)>,
    r: Result<(u64, u64)>,
)
    requires
        picks_largest(rows, r),
    ensures
        r matches Ok(p) ==> exists|i: int|
            0 <= i < rows.len() && #[trigger] rows[i] == (Some(p.0), Some(p.1)) && forall|j: int|
                i < j < rows.len() && (#[trigger] rows[j]).0 is Some && rows[j].1 is Some
                    ==> rows[j].1->0 < p.1,
        r matches Ok(p) ==> forall|j: int|
            0 <= j < rows.len() && (#[trigger] rows[j]).0 is Some && rows[j].1 is Some
                ==> rows[j].1->0 <= p.1,
        r is Err <==> forall|j: int|
            0 <= j < rows.len() ==> (#[trigger] rows[j]).0 is None || rows[j].1 is None,
        r matches Err(e) ==> e matches Error::Internal(m) && m@
            == "No partitions found in disk image"@,
{
    match r {
        Ok(p) => {
            let i = choose|i: int| #[trigger]
                is_largest(rows, i) && rows[i] == (Some(p.0), Some(p.1));
            assert(rows[i] == (Some(p.0), Some(p.1)));
            assert forall|j: int|
                i < j < rows.len() && (#[trigger] rows[j]).0 is Some && rows[j].1 is Some implies rows[j].1->0
                < p.1 by {
                assert(whole(rows[j]));
            }
            assert forall|j: int|
                0 <= j < rows.len() && (#[trigger] rows[j]).0 is Some && rows[j].1 is Some implies rows[j].1->0
                <= p.1 by {
                assert(whole(rows[j]));
            }
        },
        Err(e) => {
            assert forall|j: int| 0 <= j < rows.len() implies (#[trigger] rows[j]).0 is None
                || rows[j].1 is None by {
                assert(!whole(rows[j]));
            }
        },
    }
}

/// A partition is copied sector by sector: it is read from the disk at its start, for as many
/// sectors as it has, and written to the image.
pub proof fn a_partition_is_copied_as_it_lies(
    disk: Seq<char>,
    output: Seq<char>,
    start: u64,
    size: u64,
)
    ensures
        dd_arguments(disk, output, start, size).len() == 6,
        dd_arguments(disk, output, start, size)[0] == "if="@ + disk,
        dd_arguments(disk, output, start, size)[1] == "of="@ + output,
        dd_arguments(disk, output, start, size)[2] == "bs=512"@,
        dd_arguments(disk, output, start, size)[3] == "skip="@ + dec(start as nat),
        dd_arguments(disk, output, start, size)[4] == "count="@ + dec(size as nat),
        dd_arguments(disk, output, start, size)[5] == "status=progress"@,
{
}

proof fn lemma_dec_solid(n: nat)
    ensures
        dec(n).len() > 0,
        !white(dec(n)[0]),
        !white(dec(n).last()),
        '0' <= dec(n).last() <= '9',
    decreases n,
{
    if n >= 10 {
        lemma_dec_solid(n / 10);
        assert(dec(n) == dec(n / 10).push(crate::text::digit_char((n % 10) as int)));
        assert(dec(n)[0] == dec(n / 10)[0]);
    }
}

proof fn lemma_sized(text: Seq<char>)
    requires
        text.len() > 0,
        !white(text[0]),
        !white(text.last()),
    ensures
        trim(text) == text,
{
}

/// A number with a letter behind it is that many times 2 to the 20th, 30th or 40th for M, G and T,
/// in either case; without a letter it is so many bytes.
pub proof fn a_size_counts_in_its_unit(n: nat, r: Result<u64>)
    requires
        n <= u64::MAX,
    ensures
        is_size(dec(n), r) <==> (r matches Ok(b) && b == n),
        n * 0x10_0000 <= u64::MAX ==> (is_size(dec(n).push('M'), r) <==> (r matches Ok(b) && b == n
            * 0x10_0000)),
        n * 0x10_0000 <= u64::MAX ==> (is_size(dec(n).push('m'), r) <==> (r matches Ok(b) && b == n
            * 0x10_0000)),
        n * 0x4000_0000 <= u64::MAX ==> (is_size(dec(n).push('G'), r) <==> (r matches Ok(b) && b
            == n * 0x4000_0000)),
        n * 0x4000_0000 <= u64::MAX ==> (is_size(dec(n).push('g'), r) <==> (r matches Ok(b) && b
            == n * 0x4000_0000)),
        n * 0x100_0000_0000 <= u64::MAX ==> (is_size(dec(n).push('T'), r) <==> (r matches Ok(b) && b
            == n * 0x100_0000_0000)),
        n * 0x100_0000_0000 <= u64::MAX ==> (is_size(dec(n).push('t'), r) <==> (r matches Ok(b) && b
            == n * 0x100_0000_0000)),
        countable(dec(n)),
        countable(dec(n).push('G')) <==> n * 0x4000_0000 <= u64::MAX,
        is_size(Seq::empty(), r) <==> (r matches Err(Error::BadRequest(m)) && m@
            == "empty size string"@),
{
    crate::text::a_number_is_read_back(n, u64::MAX as nat);
    lemma_dec_solid(n);
    lemma_sized(dec(n));
    lemma_unit(n, 'M', 0x10_0000);
    lemma_unit(n, 'm', 0x10_0000);
    lemma_unit(n, 'G', 0x4000_0000);
    lemma_unit(n, 'g', 0x4000_0000);
    lemma_unit(n, 'T', 0x100_0000_0000);
    lemma_unit(n, 't', 0x100_0000_0000);
    assert(unit_of(dec(n)) == 1);
    assert(amount(dec(n)) == Ok::<nat, ParseError>(n));
    assert(n * 1 == n);
    assert(trim(Seq::<char>::empty()).len() == 0);
}

proof fn lemma_unit(n: nat, c: char, factor: u64)
    requires
        n <= u64::MAX,
        unit(c) == Some(factor),
    ensures
        trim(dec(n).push(c)) == dec(n).push(c),
        amount(dec(n).push(c)) == Ok::<nat, ParseError>(n),
        unit_of(dec(n).push(c)) == factor,
{
    crate::text::a_number_is_read_back(n, u64::MAX as nat);
    lemma_dec_solid(n);
    let t = dec(n).push(c);
    assert(t[0] == dec(n)[0]);
    lemma_sized(t);
    assert(t.drop_last() =~= dec(n));
}

/// A program succeeds where it ended with status 0 and nowhere else; a status is told as Rust
/// prints it.
pub proof fn how_a_program_ended(n: i32, outcome: Outcome)
    ensures
        outcome.succeeds() <==> outcome == Outcome::Ended(Some(0)),
        !Outcome::NotRun.succeeds(),
        !Outcome::Ended(None).succeeds(),
        status_text(None) == "None"@,
        status_text(Some(n)) == "Some("@ + signed_dec(n as int) + ")"@,
        GROW_WARNING@ == "  Warning: resize2fs failed. Image may not use full disk size."@,
{
}

/// A size is read without the white space around it, and one that is no number is told with why.
pub proof fn what_is_said_of_a_bad_size(s: Seq<char>, why: ParseError, r: Result<u64>)
    requires
        trim(s).len() > 0,
    ensures
        ({
            let t = trim(s);
            let c = t.last();
            let has_unit = c == 'G' || c == 'g' || c == 'T' || c == 't' || c == 'M' || c == 'm';
            let number = if has_unit {
                t.drop_last()
            } else {
                t
            };
            parsed(number, u64::MAX as nat) == Err::<nat, ParseError>(why) ==> (is_size(s, r) <==> (
            r matches Err(Error::BadRequest(m)) && m@ == "Invalid size '"@ + t + "': "@
                + why.says()))
        }),
        trim(trim(s)) == trim(s) ==> (is_size(s, r) <==> is_size(trim(s), r)),
{
}

} // verus!
