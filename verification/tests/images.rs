use blackhole_linux::error::Error;
use blackhole_linux::image::{
    artifact_path, cidata_seed_path_for, cmd_image_info, cmd_list_available, get_known_image,
    is_single_fs_artifact, known_image_for_disk, known_images, Compression, ImageFormat,
};
use blackhole_linux::image_build::{
    convert_to_disk_image, download_file, ensure_cidata_seed, extract_root_partition, fsck_warning,
    grown, largest_partition, parse_largest_partition, parse_size, partition_line, pick_extracted,
    pull_image, pull_target, resize_file, resize_image, seed_failed, ConvertStep, Growth, Outcome,
    SeedStep, Tool, Unpack,
};
use blackhole_linux::path::{
    ends_with_component, extension_of, file_stem_of, join, last_part_of, replace_extension,
    replace_file_name,
};

const SFDISK_SAMPLE: &str = r#"{
        "partitiontable": {
            "label": "gpt",
            "id": "A1B2C3D4-0000-0000-0000-000000000000",
            "device": "/tmp/img.raw",
            "unit": "sectors",
            "firstlba": 34,
            "lastlba": 4194270,
            "partitions": [
                {"node": "/tmp/img.raw1", "start": 2048,   "size": 204800,  "type": "C12A7328-F81F-11D2-BA4B-00A0C93EC93B"},
                {"node": "/tmp/img.raw2", "start": 206848, "size": 3985407, "type": "0FC63DAF-8483-4772-8E79-3D69D8477DE4"}
            ]
        }
    }"#;

#[test]
fn parse_largest_partition_picks_biggest_by_size() {
    let (start, size) = parse_largest_partition(SFDISK_SAMPLE).unwrap();
    assert_eq!(start, 206848);
    assert_eq!(size, 3985407);
}

#[test]
fn parse_largest_partition_rejects_non_json() {
    let err = parse_largest_partition("<html>nope</html>")
        .unwrap_err()
        .to_string();
    assert!(err.contains("non-JSON"), "got: {}", err);
    assert!(err.contains("line 1 column 1"), "got: {}", err);
}

#[test]
fn parse_largest_partition_rejects_missing_partitions_array() {
    let err = parse_largest_partition(r#"{"partitiontable": {}}"#)
        .unwrap_err()
        .to_string();
    assert!(err.contains("partitions array"), "got: {}", err);
}

#[test]
fn parse_largest_partition_rejects_empty_partitions_array() {
    let err = parse_largest_partition(r#"{"partitiontable": {"partitions": []}}"#)
        .unwrap_err()
        .to_string();
    assert!(err.contains("No partitions"), "got: {}", err);
}

#[test]
fn parse_largest_partition_survives_partitions_without_start_or_size() {
    let json = r#"{"partitiontable": {"partitions": [
            {"node": "/tmp/x1"},
            {"node": "/tmp/x2", "start": 2048, "size": 42}
        ]}}"#;
    let (start, size) = parse_largest_partition(json).unwrap();
    assert_eq!((start, size), (2048, 42));
}

#[test]
fn the_last_of_the_largest_partitions_is_picked() {
    let rows = vec![
        (Some(1), Some(7)),
        (Some(2), Some(9)),
        (None, Some(99)),
        (Some(3), Some(9)),
        (Some(4), None),
        (Some(5), Some(8)),
    ];
    assert_eq!(largest_partition(&rows).unwrap(), (3, 9));
    assert!(largest_partition(&vec![(None, None)]).is_err());
}

#[test]
fn get_known_image_finds_exact_name() {
    let img = get_known_image("debian-13").expect("debian-13 should be known");
    assert_eq!(img.name, "debian-13");
}

#[test]
fn get_known_image_finds_alias() {
    let img = get_known_image("debian").expect("`debian` alias should resolve");
    assert_eq!(img.name, "debian-13");
}

#[test]
fn get_known_image_returns_none_for_unknown() {
    assert!(get_known_image("fedora-40").is_none());
}

#[test]
fn get_known_image_treats_empty_string_as_unknown() {
    assert!(get_known_image("").is_none());
}

#[test]
fn get_known_image_finds_almalinux_aliases() {
    for alias in ["almalinux-10-kitten", "almalinux", "alma", "kitten"] {
        let img = get_known_image(alias)
            .unwrap_or_else(|| panic!("alias `{}` should resolve to almalinux-10-kitten", alias));
        assert_eq!(
            img.name, "almalinux-10-kitten",
            "alias `{}` resolved wrong",
            alias
        );
    }
}

#[test]
fn single_fs_artifact_classifies_known_images() {
    let tt = get_known_image("tt-debian").unwrap();
    assert!(is_single_fs_artifact(&tt));
    let alma = get_known_image("almalinux").unwrap();
    assert!(!is_single_fs_artifact(&alma));
    let ubu = get_known_image("ubuntu").unwrap();
    assert!(!is_single_fs_artifact(&ubu));
    let deb = get_known_image("debian-13").unwrap();
    assert!(!is_single_fs_artifact(&deb));
}

#[test]
fn known_image_for_disk_matches_basename_stem() {
    let img = known_image_for_disk("images/almalinux-10-kitten.img").expect("alma should resolve");
    assert_eq!(img.name, "almalinux-10-kitten");
    assert!(img.needs_bootloader);

    let img = known_image_for_disk("images/tt-debian.ext4").expect("tt-debian should resolve");
    assert_eq!(img.name, "tt-debian");
    assert!(!img.needs_bootloader);

    assert!(known_image_for_disk("/tmp/random.img").is_none());
    assert!(known_image_for_disk("almalinux-10-kitten").is_some());
}

#[test]
fn only_the_extension_of_an_image_is_left_out() {
    assert_eq!(known_image_for_disk("images/ubuntu-24.04").unwrap().name, "ubuntu-24.04");
    assert_eq!(known_image_for_disk("images/ubuntu-24.04.img").unwrap().name, "ubuntu-24.04");
    assert!(known_image_for_disk("images/tt-debian.qcow2").is_none());
    assert!(known_image_for_disk("images/tt-debian.img.ext4").is_none());
    assert!(known_image_for_disk(".img").is_none());
    assert!(known_image_for_disk("/").is_none());
}

#[test]
fn every_image_is_found_by_its_names_and_by_its_file() {
    for img in known_images() {
        assert_eq!(get_known_image(img.name).unwrap().url, img.url);
        for alias in &img.aliases {
            assert_eq!(get_known_image(alias).unwrap().name, img.name);
        }
        let path = artifact_path(&img, None);
        assert_eq!(known_image_for_disk(&path).unwrap().name, img.name);
    }
    assert_eq!(known_images().len(), 7);
}

#[test]
fn a_seed_stands_beside_its_disk() {
    assert_eq!(
        cidata_seed_path_for("images/debian-13.img"),
        "images/debian-13.cidata.img"
    );
    assert_eq!(cidata_seed_path_for("x"), "x.cidata.img");
    assert_eq!(cidata_seed_path_for("/"), "/image.cidata.img");
}

#[test]
fn the_list_has_a_line_for_each_image() {
    let lines = cmd_list_available();
    assert_eq!(lines.len(), 9);
    assert_eq!(
        lines[0],
        format!("{:<20} {:<75} {:<10}", "NAME", "DESCRIPTION", "ALIASES")
    );
    assert_eq!(lines[1], "-".repeat(107));
    assert_eq!(
        lines[3],
        format!(
            "{:<20} {:<75} {:<10}",
            "debian-13",
            "Debian 13 (Trixie) generic \u{2014} official cloud image, needs cloud-init",
            "default, debian, trixie"
        )
    );
}

#[test]
fn an_image_is_described() {
    let lines = cmd_image_info("tt").unwrap();
    assert_eq!(lines[0], "Name:          tt-debian");
    assert_eq!(lines[3], "Format:        Ext4");
    assert_eq!(lines[4], "Compression:   Zip");
    assert_eq!(lines[7], "Default user:  debian");
    assert_eq!(lines[8], "Default pass:  debian");
    assert_eq!(lines[10], "Layout:        single-FS .ext4");
    let lines = cmd_image_info("opensuse").unwrap();
    assert_eq!(lines[7], "Cloud-init:    no");
    assert_eq!(
        lines[9],
        "Boot path:     U-Boot + EFI (chainload /boot/EFI from disk)"
    );
    assert_eq!(
        cmd_image_info("nope").unwrap_err(),
        "Unknown image 'nope'. Use 'image list' to see available images."
    );
}

#[test]
fn a_pull_keeps_what_is_there() {
    let plan = pull_image("debian", None, true, false).unwrap();
    assert_eq!(plan.path, "images/debian-13.img");
    assert!(plan.fetch.is_none());
    assert_eq!(plan.seed.as_deref(), Some("images/debian-13.cidata.img"));
    assert_eq!(
        plan.lines[0],
        "Image already exists at images/debian-13.img"
    );
}

#[test]
fn a_pull_fetches_what_is_missing_or_forced() {
    for (exists, force) in [(false, false), (true, true)] {
        let plan = pull_image("tt", Some("out/x.ext4"), exists, force).unwrap();
        assert_eq!(plan.path, "out/x.ext4");
        let fetch = plan.fetch.unwrap();
        assert_eq!(fetch.compression, Compression::Zip);
        assert_eq!(fetch.format, ImageFormat::Ext4);
        assert_eq!(fetch.resize_to, Some("10G"));
        assert!(fetch.single_fs);
        assert_eq!(
            fetch.ready,
            vec![
                "Image ready: out/x.ext4",
                "  Default user: debian",
                "  Default password: debian"
            ]
        );
    }
    assert_eq!(
        pull_image("x", None, false, false).unwrap_err().to_string(),
        "Unknown image 'x'. Use 'image list' to see available images."
    );
    assert_eq!(pull_target("noble", None).unwrap(), "images/ubuntu-24.04.img");
    assert!(pull_target("x", None).is_err());
    assert!(pull_image("suse", None, false, false).unwrap().seed.is_none());
}

#[test]
fn a_seed_is_written_only_where_one_is_wanted_and_missing() {
    let debian = get_known_image("debian").unwrap();
    match ensure_cidata_seed(&debian, "images/debian-13.img", false) {
        SeedStep::Write { path, line } => {
            assert_eq!(path, "images/debian-13.cidata.img");
            assert_eq!(
                line,
                "  Cloud-init seed: images/debian-13.cidata.img (default user 'bhx' / password 'bhx')"
            );
        }
        other => panic!("{:?}", other),
    }
    assert!(matches!(
        ensure_cidata_seed(&debian, "images/debian-13.img", true),
        SeedStep::Keep { .. }
    ));
    let suse = get_known_image("suse").unwrap();
    assert!(matches!(
        ensure_cidata_seed(&suse, "images/x.img", false),
        SeedStep::Nothing
    ));
    assert_eq!(
        seed_failed(&Error::bad_request("no tool")).to_string(),
        "internal: write default seed ISO: no tool"
    );
}

#[test]
fn a_download_is_named_after_its_url() {
    let d = download_file("https://x.org/a/b.img.xz", "images", Compression::Xz);
    assert_eq!(d.path, "images/b.img.xz");
    match d.unpack {
        Unpack::Xz { result } => assert_eq!(result, "images/b.img"),
        other => panic!("{:?}", other),
    }
    let d = download_file("https://x.org/a.xz.xz", "images", Compression::Xz);
    match d.unpack {
        Unpack::Xz { result } => assert_eq!(result, "images/a"),
        other => panic!("{:?}", other),
    }
    let d = download_file("https://x.org/a.raw", "images/", Compression::Plain);
    assert_eq!(d.path, "images/a.raw");
    assert!(matches!(d.unpack, Unpack::Nothing));
    let d = download_file("https://x.org/a.zip", "images", Compression::Zip);
    assert!(matches!(d.unpack, Unpack::Zip));
}

#[test]
fn an_archive_is_searched_for_an_image() {
    assert_eq!(
        pick_extracted("images", true, &vec![]).unwrap(),
        "images/debian-riscv64.img"
    );
    let entries = vec![
        "images/readme.txt".to_string(),
        "images/.img".to_string(),
        "images/disk.ext4".to_string(),
        "images/disk.img".to_string(),
    ];
    assert_eq!(
        pick_extracted("images", false, &entries).unwrap(),
        "images/disk.ext4"
    );
    assert_eq!(
        pick_extracted("images", false, &vec![])
            .unwrap_err()
            .to_string(),
        "internal: Could not find extracted image file"
    );
}

fn told(steps: &[ConvertStep]) -> Vec<String> {
    steps
        .iter()
        .map(|s| match s {
            ConvertStep::Move => "move".to_string(),
            ConvertStep::ToRaw { dest } => format!("raw {}", dest),
            ConvertStep::Extract { disk } => format!("extract {}", disk),
            ConvertStep::Remove { path } => format!("remove {}", path),
        })
        .collect()
}

#[test]
fn a_download_is_converted_by_its_format() {
    let run = |format, extract, in_place| {
        told(&convert_to_disk_image("d/a.qcow2", format, extract, "d/o.img", in_place))
    };
    assert_eq!(run(ImageFormat::Ext4, false, false), vec!["move"]);
    assert!(run(ImageFormat::Ext4, true, true).is_empty());
    assert_eq!(
        run(ImageFormat::Qcow2, false, false),
        vec!["raw d/o.img", "remove d/a.qcow2"]
    );
    assert_eq!(
        run(ImageFormat::Qcow2, true, false),
        vec![
            "raw d/a.raw",
            "remove d/a.qcow2",
            "extract d/a.raw",
            "remove d/a.raw"
        ]
    );
    assert_eq!(run(ImageFormat::RawDisk, false, false), vec!["move"]);
    assert!(run(ImageFormat::RawDisk, false, true).is_empty());
    assert_eq!(
        run(ImageFormat::RawDisk, true, false),
        vec!["extract d/a.qcow2", "remove d/a.qcow2"]
    );
}

#[test]
fn a_partition_is_copied_by_sectors() {
    assert_eq!(
        extract_root_partition("d.raw", "o.ext4", 2048, 42),
        vec![
            "if=d.raw",
            "of=o.ext4",
            "bs=512",
            "skip=2048",
            "count=42",
            "status=progress"
        ]
    );
    assert_eq!(
        partition_line(206848, 3985407),
        "  Found root partition: start=206848, size=3985407 sectors (1945 MB)"
    );
}

#[test]
fn sizes_are_read_with_their_unit() {
    assert_eq!(parse_size("10G").unwrap(), 10 << 30);
    assert_eq!(parse_size(" 2t ").unwrap(), 2 << 40);
    assert_eq!(parse_size("512m").unwrap(), 512 << 20);
    assert_eq!(parse_size("+7").unwrap(), 7);
    assert_eq!(parse_size("  ").unwrap_err().to_string(), "empty size string");
    assert_eq!(
        parse_size("10X").unwrap_err().to_string(),
        "Invalid size '10X': invalid digit found in string"
    );
    assert_eq!(
        parse_size("G").unwrap_err().to_string(),
        "Invalid size 'G': cannot parse integer from empty string"
    );
    assert_eq!(
        parse_size("99999999999999999999").unwrap_err().to_string(),
        "Invalid size '99999999999999999999': number too large to fit in target type"
    );
}

#[test]
fn a_file_grows_without_the_tool_too() {
    assert!(matches!(resize_file("10G", Outcome::Ended(Some(0))), Ok(None)));
    assert!(matches!(
        resize_file("1M", Outcome::Ended(Some(1))),
        Ok(Some(1048576))
    ));
    assert!(matches!(resize_file("1M", Outcome::NotRun), Ok(Some(1048576))));
    assert!(resize_file("x", Outcome::NotRun).is_err());
}

#[test]
fn a_whole_disk_is_left_to_the_guest() {
    assert!(matches!(resize_image("10G", true), Growth::ByTools));
    match resize_image("10G", false) {
        Growth::ByGuest { line } => assert!(line.starts_with(
            "  Whole-disk image: file grown to 10G but partitions + FS stay"
        )),
        other => panic!("{:?}", other),
    }
    assert_eq!(fsck_warning(Outcome::Ended(Some(1))), None);
    assert_eq!(fsck_warning(Outcome::NotRun), None);
    assert_eq!(
        fsck_warning(Outcome::Ended(Some(8))).as_deref(),
        Some("  Warning: e2fsck returned Some(8)")
    );
    assert_eq!(
        fsck_warning(Outcome::Ended(None)).as_deref(),
        Some("  Warning: e2fsck returned None")
    );
    assert!(matches!(grown(Outcome::Ended(Some(0)), ""), Ok(None)));
    assert!(matches!(grown(Outcome::Ended(Some(1)), ""), Ok(Some(_))));
    assert_eq!(
        grown(Outcome::NotRun, "not found").unwrap_err().to_string(),
        "internal: Failed to run resize2fs: not found. Install with: apt install e2fsprogs"
    );
}

#[test]
fn a_missing_tool_says_where_it_can_be_had() {
    assert_eq!(
        Tool::Xz.not_run("not found").to_string(),
        "internal: Failed to run xz: not found. Install with: apt install xz-utils"
    );
    assert_eq!(
        Tool::Dd.not_run("not found").to_string(),
        "internal: Failed to run dd: not found"
    );
    assert_eq!(
        Tool::Sfdisk.failed("bad table").to_string(),
        "internal: sfdisk failed: bad table"
    );
    assert_eq!(Tool::Unzip.failed("").to_string(), "internal: unzip failed");
}

#[test]
fn paths_are_taken_apart_as_std_does() {
    for p in [
        "images/debian-13.img",
        "/tmp/random.img",
        "a//b.c",
        "a/b/",
        "a/./b.x/.",
        "..",
        ".",
        "",
        "/",
        ".hidden",
        "x.tar.gz",
        "dir/..",
    ] {
        let std_path = std::path::Path::new(p);
        assert_eq!(
            file_stem_of(p).as_deref(),
            std_path.file_stem().and_then(|s| s.to_str()),
            "stem of {:?}",
            p
        );
        assert_eq!(
            extension_of(p).as_deref(),
            std_path.extension().and_then(|s| s.to_str()),
            "extension of {:?}",
            p
        );
        assert_eq!(
            ends_with_component(p, "b.c"),
            std_path.file_name() == Some("b.c".as_ref())
        );
        assert_eq!(join(p, "n"), std_path.join("n").to_str().unwrap());
        assert_eq!(
            replace_file_name(p, "n"),
            std_path.with_file_name("n").to_str().unwrap(),
            "file name of {:?}",
            p
        );
        assert_eq!(
            replace_extension(p, "raw"),
            std_path.with_extension("raw").to_str().unwrap(),
            "extension of {:?}",
            p
        );
    }
    assert_eq!(last_part_of("https://x/y.z"), "y.z");
    assert_eq!(last_part_of("x/"), "");
}
