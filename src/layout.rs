use vstd::prelude::*;
use vstd::string::StrSliceExecFns;
use vstd::string::StringExecFns;

verus! {

/// Path separator used when joining a root path with a child name.
pub open spec fn separator() -> char {
    '/'
}

/// `root` followed by `name`, with one separator between them unless `root`
/// is empty or already ends with one.
pub open spec fn join_spec(root: Seq<char>, name: Seq<char>) -> Seq<char> {
    if root.len() == 0 || root.last() == separator() {
        root + name
    } else {
        root + seq![separator()] + name
    }
}

/// Label shown beside the progress indicator of the archive being written.
pub open spec fn progress_label() -> Seq<char> {
    "正在压缩："@
}

/// One immediate child of the root directory, as listed by the caller.
pub struct RootEntry {
    pub name: String,
    pub is_dir: bool,
}

/// The work for one subdirectory: where its files are read from and where
/// its archive is written.
pub struct ArchiveJob {
    /// Name of the subdirectory.
    pub dir_name: String,
    /// Path of the subdirectory, under the root.
    pub source_path: String,
    /// File name of the archive: the subdirectory's name and the extension.
    pub archive_name: String,
    /// Path of the archive, directly under the root.
    pub output_path: String,
}

/// Names of the directory entries of `entries`, in listing order.
pub open spec fn dir_names(entries: Seq<RootEntry>) -> Seq<Seq<char>>
    decreases entries.len(),
{
    if entries.len() == 0 {
        Seq::empty()
    } else {
        let rest = dir_names(entries.drop_last());
        if entries.last().is_dir {
            rest.push(entries.last().name@)
        } else {
            rest
        }
    }
}

/// The job planned for the subdirectory `dir` under `root` with extension `ext`.
pub open spec fn job_matches(job: ArchiveJob, root: Seq<char>, ext: Seq<char>, dir: Seq<char>) -> bool {
    &&& job.dir_name@ == dir
    &&& job.source_path@ == join_spec(root, dir)
    &&& job.archive_name@ == dir + ext
    &&& job.output_path@ == join_spec(root, dir + ext)
}

/// The directories among `entries`, in listing order, are exactly the
/// entries that the plan gives an archive to: as many jobs as directories,
/// the i-th job for the i-th directory.
pub proof fn one_archive_per_directory(entries: Seq<RootEntry>)
    ensures
        dir_names(entries).len() == entries.filter(|e: RootEntry| e.is_dir).len(),
        forall|i: int|
            0 <= i < dir_names(entries).len() ==> #[trigger] dir_names(entries)[i]
                == entries.filter(|e: RootEntry| e.is_dir)[i].name@,
    decreases entries.len(),
{
    reveal(Seq::filter);
    if entries.len() > 0 {
        one_archive_per_directory(entries.drop_last());
    }
}

/// An entry that is not a directory has no part in the plan: without it
/// the directories to pack are the same.
pub proof fn non_directories_are_excluded(entries: Seq<RootEntry>, i: int)
    requires
        0 <= i < entries.len(),
        !entries[i].is_dir,
    ensures
        dir_names(entries.remove(i)) == dir_names(entries),
    decreases entries.len(),
{
    if i == entries.len() - 1 {
        assert(entries.remove(i) =~= entries.drop_last());
    } else {
        let rest = entries.drop_last();
        non_directories_are_excluded(rest, i);
        assert(entries.remove(i).drop_last() =~= rest.remove(i));
        assert(entries.remove(i).last() == entries.last());
    }
}

/// When no entry carries the name `n`, no job is named `n`.
proof fn unnamed_entry_has_no_job(entries: Seq<RootEntry>, n: Seq<char>)
    requires
        forall|j: int| 0 <= j < entries.len() ==> (#[trigger] entries[j]).name@ != n,
    ensures
        !dir_names(entries).contains(n),
    decreases entries.len(),
{
    if entries.len() > 0 {
        let rest = entries.drop_last();
        assert forall|j: int| 0 <= j < rest.len() implies (#[trigger] rest[j]).name@ != n by {
            assert(rest[j] == entries[j]);
        }
        unnamed_entry_has_no_job(rest, n);
        assert(entries.last() == entries[entries.len() - 1]);
    }
}

/// In a listing whose names are distinct, as those of one directory are, an
/// entry that is not a directory gets no job under its name.
pub proof fn stray_entry_has_no_job(entries: Seq<RootEntry>, i: int)
    requires
        0 <= i < entries.len(),
        !entries[i].is_dir,
        forall|a: int, b: int|
            0 <= a < entries.len() && 0 <= b < entries.len() && a != b ==> (#[trigger] entries[a]).name@
                != (#[trigger] entries[b]).name@,
    ensures
        !dir_names(entries).contains(entries[i].name@),
{
    non_directories_are_excluded(entries, i);
    let rest = entries.remove(i);
    assert forall|j: int| 0 <= j < rest.len() implies (#[trigger] rest[j]).name@ != entries[i].name@ by {
        if j < i {
            assert(rest[j] == entries[j]);
        } else {
            assert(rest[j] == entries[j + 1]);
        }
    }
    unnamed_entry_has_no_job(rest, entries[i].name@);
}

/// In a listing whose names are distinct, as those of one directory are, no
/// two jobs are for the same name.
pub proof fn jobs_are_distinct(entries: Seq<RootEntry>)
    requires
        forall|a: int, b: int|
            0 <= a < entries.len() && 0 <= b < entries.len() && a != b ==> (#[trigger] entries[a]).name@
                != (#[trigger] entries[b]).name@,
    ensures
        dir_names(entries).no_duplicates(),
    decreases entries.len(),
{
    if entries.len() > 0 {
        let rest = entries.drop_last();
        assert forall|a: int, b: int|
            0 <= a < rest.len() && 0 <= b < rest.len() && a != b implies (#[trigger] rest[a]).name@
                != (#[trigger] rest[b]).name@ by {
            assert(rest[a] == entries[a] && rest[b] == entries[b]);
        }
        jobs_are_distinct(rest);
        let n = entries.last().name@;
        assert forall|j: int| 0 <= j < rest.len() implies (#[trigger] rest[j]).name@ != n by {
            assert(rest[j] == entries[j]);
            assert(entries.last() == entries[entries.len() - 1]);
        }
        unnamed_entry_has_no_job(rest, n);
        let d = dir_names(entries);
        if entries.last().is_dir {
            assert forall|a: int, b: int| 0 <= a < d.len() && 0 <= b < d.len() && a != b implies d[a] != d[b] by {
                if a == d.len() - 1 {
                    assert(dir_names(rest).contains(d[b]) || b == d.len() - 1);
                } else if b == d.len() - 1 {
                    assert(dir_names(rest)[a] == d[a]);
                    assert(dir_names(rest).contains(d[a]));
                }
            }
        }
    }
}

/// The extension changes only where archives go: for the same directory,
/// jobs planned with two extensions read the same source path, and their
/// archives differ in name only by the extension.
pub proof fn extension_changes_only_outputs(
    first: ArchiveJob,
    second: ArchiveJob,
    root: Seq<char>,
    ext1: Seq<char>,
    ext2: Seq<char>,
    dir: Seq<char>,
)
    requires
        job_matches(first, root, ext1, dir),
        job_matches(second, root, ext2, dir),
    ensures
        first.dir_name@ == second.dir_name@,
        first.source_path@ == second.source_path@,
        first.archive_name@ == dir + ext1 && second.archive_name@ == dir + ext2,
{
}

/// Joins `root` and `name` into one path.
pub fn join_path(root: &str, name: &str) -> (r: String)
    ensures
        r@ == join_spec(root@, name@),
{
    let n = root.unicode_len();
    let mut r = root.to_owned();
    if n > 0 && root.get_char(n - 1) != '/' {
        r.append("/");
        proof {
            reveal_strlit("/");
        }
    }
    r.append(name);
    r
}

/// File name of the archive for directory `dir`: the name followed by `ext`.
pub fn archive_file_name(dir: &str, ext: &str) -> (r: String)
    ensures
        r@ == dir@ + ext@,
{
    let mut r = dir.to_owned();
    r.append(ext);
    r
}

/// Message shown while the archive `archive_name` is being written.
pub fn progress_message(archive_name: &str) -> (r: String)
    ensures
        r@ == progress_label() + archive_name@,
{
    let mut r = "正在压缩：".to_owned();
    proof {
        reveal_strlit("正在压缩：");
    }
    r.append(archive_name);
    r
}

/// Plans one archive for each directory among the root's entries, in
/// listing order; entries that are not directories get none.
pub fn plan_archives(root: &str, ext: &str, entries: &Vec<RootEntry>) -> (r: Vec<ArchiveJob>)
    ensures
        r@.len() == dir_names(entries@).len(),
        forall|i: int|
            0 <= i < r@.len() ==> job_matches(#[trigger] r@[i], root@, ext@, dir_names(entries@)[i]),
{
    let mut r: Vec<ArchiveJob> = Vec::new();
    let mut k: usize = 0;
    while k < entries.len()
        invariant
            k <= entries@.len(),
            r@.len() == dir_names(entries@.subrange(0, k as int)).len(),
            forall|i: int|
                0 <= i < r@.len() ==> job_matches(
                    #[trigger] r@[i],
                    root@,
                    ext@,
                    dir_names(entries@.subrange(0, k as int))[i],
                ),
        decreases entries.len() - k,
    {
        let e = &entries[k];
        proof {
            assert(entries@.subrange(0, k as int + 1).drop_last() =~= entries@.subrange(0, k as int));
        }
        if e.is_dir {
            let name = e.name.as_str();
            let archive_name = archive_file_name(name, ext);
            let job = ArchiveJob {
                dir_name: name.to_owned(),
                source_path: join_path(root, name),
                output_path: join_path(root, archive_name.as_str()),
                archive_name,
            };
            r.push(job);
        }
        k = k + 1;
    }
    proof {
        assert(entries@.subrange(0, k as int) =~= entries@);
    }
    r
}

} // verus!
