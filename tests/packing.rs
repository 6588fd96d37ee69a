use std::io::Cursor;
use std::io::Read;

use dirzip::{
    archive_file_name, build_archive, join_path, plan_archives, progress_message, Action, ArchiveWriter, Packer,
    RootEntry, SourceFile,
};

fn entry(name: &str, is_dir: bool) -> RootEntry {
    RootEntry { name: name.to_string(), is_dir }
}

fn file(name: &str, data: &[u8]) -> SourceFile {
    SourceFile { name: name.to_string(), data: data.to_vec() }
}

fn sample_root() -> Vec<RootEntry> {
    vec![entry("A", true), entry("readme.txt", false), entry("B", true)]
}

fn sample_a() -> Vec<SourceFile> {
    vec![file("1.jpg", &[0xff, 0xd8, 0xff, 0xe0, 1, 2, 3]), file("2.jpg", &[0xff, 0xd8, 9, 8, 7, 6])]
}

/// Reads an archive back: each entry's name, its bytes, and whether it is stored.
fn read_back(bytes: &[u8]) -> Vec<(String, Vec<u8>, bool)> {
    let mut archive = zip::ZipArchive::new(Cursor::new(bytes.to_vec())).expect("a valid zip archive");
    let mut out = Vec::new();
    for i in 0..archive.len() {
        let mut f = archive.by_index(i).expect("entry");
        let mut data = Vec::new();
        f.read_to_end(&mut data).expect("entry bytes");
        let stored = f.compression() == zip::CompressionMethod::Stored;
        out.push((f.name().to_string(), data, stored));
    }
    out
}

#[test]
fn plan_gives_one_job_per_subdirectory() {
    let jobs = plan_archives(".", ".cbz", &sample_root());
    assert_eq!(jobs.len(), 2);
    assert_eq!(jobs[0].dir_name, "A");
    assert_eq!(jobs[0].archive_name, "A.cbz");
    assert_eq!(jobs[0].output_path, "./A.cbz");
    assert_eq!(jobs[0].source_path, "./A");
    assert_eq!(jobs[1].dir_name, "B");
    assert_eq!(jobs[1].archive_name, "B.cbz");
    assert_eq!(jobs[1].output_path, "./B.cbz");
}

#[test]
fn stray_root_file_gets_no_archive() {
    let jobs = plan_archives("/data/comics", ".cbz", &vec![entry("readme.txt", false)]);
    assert!(jobs.is_empty());
    let jobs = plan_archives("/data/comics", ".cbz", &sample_root());
    assert!(jobs.iter().all(|j| j.dir_name != "readme.txt"));
}

#[test]
fn default_layout_scenario() {
    let jobs = plan_archives(".", ".cbz", &sample_root());
    let names: Vec<&str> = jobs.iter().map(|j| j.archive_name.as_str()).collect();
    assert_eq!(names, vec!["A.cbz", "B.cbz"]);

    let a = build_archive(&sample_a()).ok().expect("archive of A");
    let back = read_back(&a);
    assert_eq!(back.len(), 2);
    assert_eq!(back[0], ("1.jpg".to_string(), vec![0xff, 0xd8, 0xff, 0xe0, 1, 2, 3], true));
    assert_eq!(back[1], ("2.jpg".to_string(), vec![0xff, 0xd8, 9, 8, 7, 6], true));

    let b = build_archive(&Vec::new()).ok().expect("archive of B");
    assert_eq!(read_back(&b).len(), 0);
}

#[test]
fn custom_extension_scenario() {
    let cbz = plan_archives(".", ".cbz", &sample_root());
    let zip = plan_archives(".", ".zip", &sample_root());
    assert_eq!(zip.len(), 2);
    assert_eq!(zip[0].output_path, "./A.zip");
    assert_eq!(zip[1].output_path, "./B.zip");
    assert_eq!(cbz[0].output_path, "./A.cbz");
    for (c, z) in cbz.iter().zip(zip.iter()) {
        assert_eq!(c.dir_name, z.dir_name);
        assert_eq!(c.source_path, z.source_path);
        assert_ne!(c.output_path, z.output_path);
    }
    // The archive is built from the files under the source path alone, which
    // the extension does not change.
    let a = read_back(&build_archive(&sample_a()).ok().expect("archive"));
    assert_eq!(a.iter().map(|e| e.0.as_str()).collect::<Vec<_>>(), vec!["1.jpg", "2.jpg"]);
    assert_eq!(read_back(&build_archive(&Vec::new()).ok().expect("archive")).len(), 0);
}

#[test]
fn archive_holds_every_file_byte_for_byte() {
    let mut files = Vec::new();
    for i in 0..5u8 {
        let data: Vec<u8> = (0..(i as usize * 37)).map(|k| (k as u8).wrapping_mul(i + 3)).collect();
        files.push(SourceFile { name: format!("page{}.png", i), data });
    }
    let bytes = build_archive(&files).ok().expect("archive");
    let back = read_back(&bytes);
    assert_eq!(back.len(), files.len());
    for (f, (name, data, stored)) in files.iter().zip(back.iter()) {
        assert_eq!(&f.name, name);
        assert_eq!(&f.data, data);
        assert!(stored);
    }
}

#[test]
fn packing_twice_gives_identical_bytes() {
    let first = build_archive(&sample_a()).ok().expect("archive");
    let second = build_archive(&sample_a()).ok().expect("archive");
    assert_eq!(first, second);
}

#[test]
fn empty_directory_gives_valid_empty_archive() {
    let bytes = build_archive(&Vec::new()).ok().expect("archive");
    assert!(!bytes.is_empty());
    assert_eq!(read_back(&bytes).len(), 0);
}

#[test]
fn empty_file_becomes_empty_entry() {
    let bytes = build_archive(&vec![file("blank.txt", &[])]).ok().expect("archive");
    assert_eq!(read_back(&bytes), vec![("blank.txt".to_string(), Vec::new(), true)]);
}

#[test]
fn failure_aborts_the_whole_run() {
    let mut p = Packer::new(".", ".cbz", &sample_root());
    assert_eq!(p.jobs().len(), 2);
    assert!(matches!(p.next_action(), Action::Pack(0)));
    assert_eq!(p.job(0).output_path, "./A.cbz");
    p.record(false);
    assert!(matches!(p.next_action(), Action::Abort));
    assert!(matches!(p.next_action(), Action::Abort));
}

#[test]
fn run_packs_each_directory_in_order_then_finishes() {
    let mut p = Packer::new(".", ".cbz", &sample_root());
    assert!(matches!(p.next_action(), Action::Pack(0)));
    p.record(true);
    assert!(matches!(p.next_action(), Action::Pack(1)));
    assert_eq!(p.job(1).archive_name, "B.cbz");
    p.record(true);
    assert!(matches!(p.next_action(), Action::Done));
}

#[test]
fn run_without_subdirectories_is_done_at_once() {
    let p = Packer::new(".", ".cbz", &vec![entry("readme.txt", false)]);
    assert!(matches!(p.next_action(), Action::Done));
}

#[test]
fn join_path_separators() {
    assert_eq!(join_path(".", "A"), "./A");
    assert_eq!(join_path("/tmp/", "A.cbz"), "/tmp/A.cbz");
    assert_eq!(join_path("", "A.cbz"), "A.cbz");
}

#[test]
fn archive_name_appends_extension() {
    assert_eq!(archive_file_name("Vol 1", ".cbz"), "Vol 1.cbz");
    assert_eq!(archive_file_name("A", ""), "A");
}

#[test]
fn progress_message_names_the_archive() {
    assert_eq!(progress_message("A.cbz"), "正在压缩：A.cbz");
}

#[test]
fn writer_adds_entries_one_at_a_time() {
    let mut w = ArchiveWriter::new();
    assert!(w.add_file(&"1.jpg".to_string(), &[1, 2, 3]).is_ok());
    assert!(w.add_file(&"2.jpg".to_string(), &[4, 5]).is_ok());
    let bytes = w.finish().ok().expect("archive");
    assert_eq!(
        read_back(&bytes),
        vec![("1.jpg".to_string(), vec![1, 2, 3], true), ("2.jpg".to_string(), vec![4, 5], true)]
    );
    assert_eq!(bytes, build_archive(&vec![file("1.jpg", &[1, 2, 3]), file("2.jpg", &[4, 5])]).ok().expect("archive"));
}

#[test]
fn writer_with_no_entries_finishes_empty() {
    let bytes = ArchiveWriter::new().finish().ok().expect("archive");
    assert_eq!(read_back(&bytes).len(), 0);
    assert_eq!(bytes, build_archive(&Vec::new()).ok().expect("archive"));
}

#[test]
fn archive_entries_carry_the_fixed_date() {
    let bytes = build_archive(&sample_a()).ok().expect("archive");
    let mut archive = zip::ZipArchive::new(Cursor::new(bytes)).expect("a valid zip archive");
    let f = archive.by_index(0).expect("entry");
    let t = f.last_modified();
    assert_eq!((t.year(), t.month(), t.day(), t.hour(), t.minute(), t.second()), (1980, 1, 1, 0, 0, 0));
}
