use crate::error::Error;
use crate::listing::{string_views, LsEntry};
use crate::mode::{has_kind, kinds_of, ModeKind, ModeKinds};
use crate::path::{joined, RawPath, RawPathBuf};
use crate::raw::{RawStr, RawString};
use crate::time::{calendar_of, convert_date_time, stamp_of, ArchiveTime};
use vstd::prelude::*;
use vstd::string::StringSliceAdditionalSpecFns;

verus! {

/// Once more than this many bytes of file content would stand in one
/// archive, the next archive is begun.
pub const ROTATION_THRESHOLD: u64 = 1_000_000_000;

/// The byte `.`.
pub const DOT: u8 = 46;

/// The running state of a dump: the number of the archive that is being
/// written, and the bytes of file content counted since it was begun.
#[derive(Clone, Copy, Debug)]
pub struct ArchiveState {
    sequence: u64,
    cumulative: u64,
}

impl View for ArchiveState {
    type V = (int, int);

    /// The archive's number, then the bytes counted.
    closed spec fn view(&self) -> (int, int) {
        (self.sequence as int, self.cumulative as int)
    }
}

/// Whether a file of the given size, coming after `cumulative` bytes,
/// begins a new archive.
pub open spec fn rotates(cumulative: int, size: int) -> bool {
    cumulative + size > ROTATION_THRESHOLD
}

/// The state after a file of the given size: either the count grows by the
/// size, or a new archive begins and the count is the size of that file.
pub open spec fn after_file(st: (int, int), size: int) -> (int, int) {
    if rotates(st.1, size) {
        (st.0 + 1, size)
    } else {
        (st.0, st.1 + size)
    }
}

/// The state after the given files, in order.
pub open spec fn after_files(st: (int, int), sizes: Seq<u32>) -> (int, int)
    decreases sizes.len(),
{
    if sizes.len() == 0 {
        st
    } else {
        after_file(after_files(st, sizes.drop_last()), sizes.last() as int)
    }
}

/// The sizes added up.
pub open spec fn total(sizes: Seq<u32>) -> int
    decreases sizes.len(),
{
    if sizes.len() == 0 {
        0
    } else {
        total(sizes.drop_last()) + sizes.last()
    }
}

/// A longer run of files has no smaller total.
pub proof fn lemma_total_grows(sizes: Seq<u32>, j: int, k: int)
    requires
        0 <= j <= k <= sizes.len(),
    ensures
        0 <= total(sizes.take(j)) <= total(sizes.take(k)),
    decreases k,
{
    if k == 0 {
        assert(sizes.take(0) =~= Seq::<u32>::empty());
    } else if j == k {
        lemma_total_grows(sizes, 0, k - 1);
        assert(sizes.take(k).drop_last() =~= sizes.take(k - 1));
    } else {
        lemma_total_grows(sizes, j, k - 1);
        assert(sizes.take(k).drop_last() =~= sizes.take(k - 1));
    }
}

/// Where the files of a run cross the threshold at the file in place `k`,
/// no file before it begins a new archive, the archive's number goes up by
/// exactly one at that file, and the count afterwards is that file's size:
/// the file lies whole in the new archive.
pub proof fn law_rotation_at_crossing(st: (int, int), sizes: Seq<u32>, k: int)
    requires
        0 <= k < sizes.len(),
        0 <= st.1,
        st.1 + total(sizes.take(k)) <= ROTATION_THRESHOLD,
        st.1 + total(sizes.take(k + 1)) > ROTATION_THRESHOLD,
    ensures
        forall|j: int|
            0 <= j <= k ==> #[trigger] after_files(st, sizes.take(j)) == (
                st.0,
                st.1 + total(sizes.take(j)),
            ),
        after_files(st, sizes.take(k + 1)) == (st.0 + 1, sizes[k] as int),
{
    assert forall|j: int| 0 <= j <= k implies #[trigger] after_files(st, sizes.take(j)) == (
        st.0,
        st.1 + total(sizes.take(j)),
    ) by {
        lemma_no_rotation_before(st, sizes, k, j);
    }
    let upto = sizes.take(k + 1);
    assert(upto.drop_last() =~= sizes.take(k));
    assert(upto.last() == sizes[k]);
    assert(total(upto) == total(sizes.take(k)) + sizes[k]);
    assert(after_files(st, sizes.take(k)) == (st.0, st.1 + total(sizes.take(k))));
    assert(after_files(st, upto) == after_file(after_files(st, upto.drop_last()), upto.last() as int));
}

/// While the total stays at or under the threshold, no archive is begun.
pub proof fn lemma_no_rotation_before(st: (int, int), sizes: Seq<u32>, k: int, j: int)
    requires
        0 <= j <= k <= sizes.len(),
        0 <= st.1,
        st.1 + total(sizes.take(k)) <= ROTATION_THRESHOLD,
    ensures
        after_files(st, sizes.take(j)) == (st.0, st.1 + total(sizes.take(j))),
    decreases j,
{
    if j == 0 {
        assert(sizes.take(0) =~= Seq::<u32>::empty());
    } else {
        lemma_no_rotation_before(st, sizes, k, j - 1);
        lemma_total_grows(sizes, j, k);
        assert(sizes.take(j).drop_last() =~= sizes.take(j - 1));
        assert(sizes.take(j).last() == sizes[j - 1]);
    }
}

impl ArchiveState {
    /// The count never exceeds what one file can hold, and archives are
    /// numbered from 1.
    pub closed spec fn wf(&self) -> bool {
        self.sequence >= 1 && self.cumulative <= u32::MAX
    }

    /// The state at the start of a dump: the first archive, nothing
    /// written.
    pub fn start() -> (r: ArchiveState)
        ensures
            r.wf(),
            r@ == (1int, 0int),
    {
        ArchiveState { sequence: 1, cumulative: 0 }
    }

    /// The number of the archive that is being written.
    pub fn sequence(&self) -> (r: u64)
        ensures
            r == self@.0,
    {
        self.sequence
    }

    /// The bytes of file content counted since the archive was begun.
    pub fn cumulative(&self) -> (r: u64)
        ensures
            r == self@.1,
    {
        self.cumulative
    }

    /// Counts a file of the given size and says whether a new archive has
    /// to be begun before the file is written.
    pub fn admit_file(&mut self, size: u32) -> (rotate: bool)
        requires
            old(self).wf(),
            old(self)@.0 < u64::MAX,
        ensures
            final(self).wf(),
            rotate == rotates(old(self)@.1, size as int),
            final(self)@ == after_file(old(self)@, size as int),
    {
        let sum: u64 = self.cumulative + size as u64;
        if sum > ROTATION_THRESHOLD {
            self.cumulative = size as u64;
            self.sequence = self.sequence + 1;
            true
        } else {
            self.cumulative = sum;
            false
        }
    }
}

/// The digits of a number in base ten, without leading zeros.
pub open spec fn decimal_digits(n: nat) -> Seq<u8>
    decreases n,
{
    if n < 10 {
        seq![(48 + n) as u8]
    } else {
        decimal_digits(n / 10).push((48 + n % 10) as u8)
    }
}

/// The name of the archive with the given number: the base, the number in
/// base ten and the extension, with a `.` between them.
pub open spec fn archive_name_of(base: Seq<u8>, sequence: nat, extension: Seq<u8>) -> Seq<u8> {
    base + seq![DOT] + decimal_digits(sequence) + seq![DOT] + extension
}

/// Writes the digits of `n` in base ten at the end of `out`.
fn push_decimal(out: &mut RawString, n: u64)
    ensures
        final(out)@ == old(out)@ + decimal_digits(n as nat),
    decreases n,
{
    if n >= 10 {
        push_decimal(out, n / 10);
    }
    let digit: u8 = (48 + n % 10) as u8;
    out.push(digit);
    assert(out@ =~= old(out)@ + decimal_digits(n as nat));
}

/// The name of the archive with the given number.
pub fn archive_file_name(base: &RawStr<'_>, sequence: u64, extension: &RawStr<'_>) -> (r: RawString)
    ensures
        r@ == archive_name_of(base@, sequence as nat, extension@),
{
    let mut name = base.to_owned();
    name.push(DOT);
    push_decimal(&mut name, sequence);
    name.push(DOT);
    name.append(extension);
    assert(name@ =~= archive_name_of(base@, sequence as nat, extension@));
    name
}

/// The path ends with one of the suffixes.
pub open spec fn is_excluded(path: Seq<u8>, suffixes: Seq<Seq<u8>>) -> bool {
    exists|i: int| 0 <= i < suffixes.len() && (#[trigger] suffixes[i]).is_suffix_of(path)
}

/// Where in the archive the thing called `name` in the directory `path`
/// goes: its full path without the bytes of the archive's root.
pub open spec fn record_path(root: Seq<u8>, path: Seq<u8>, name: Seq<u8>) -> Seq<u8> {
    joined(path, name).subrange(root.len() as int, joined(path, name).len() as int)
}

/// The name is one of the two that every directory holds for itself and
/// for the directory above it.
pub open spec fn is_dot_name(name: Seq<u8>) -> bool {
    name == seq![DOT] || name == seq![DOT, DOT]
}

/// A path that begins with `root` still does so after a name is joined to
/// it.
pub proof fn lemma_join_keeps_prefix(root: Seq<u8>, path: Seq<u8>, name: Seq<u8>)
    requires
        root.is_prefix_of(path),
    ensures
        root.is_prefix_of(joined(path, name)),
{
    let j = joined(path, name);
    assert(path.is_prefix_of(j)) by {
        assert(j.subrange(0, path.len() as int) =~= path);
    }
    assert(j.subrange(0, root.len() as int) =~= path.subrange(0, root.len() as int));
}

/// How a record's content is kept in the archive.
#[derive(Clone, Copy, Debug, PartialEq, Eq, Structural)]
pub enum Storage {
    /// As it is.
    Stored,
    /// Compressed.
    Compressed,
}

/// What to do with a directory.
#[derive(Debug)]
pub enum DirAction {
    /// Leave the directory out: do not list it, and write only an empty
    /// record at `marker` to show that it was left out.
    Skip { marker: RawPathBuf },
    /// List the directory and deal with each of its entries.
    List,
}

/// What to do with one entry of a directory.
#[derive(Debug)]
pub enum EntryAction {
    /// Nothing at all.
    Ignore,
    /// Write a record, stored without compression, for the directory at
    /// `record`, then deal with the directory at `path`.
    Directory {
        record: RawPathBuf,
        path: RawPathBuf,
        modified: ArchiveTime,
        permissions: u32,
        storage: Storage,
    },
    /// Read `size` bytes from the file at `path` and write them as the
    /// record at `record`.
    File {
        record: RawPathBuf,
        path: RawPathBuf,
        size: u32,
        modified: ArchiveTime,
        permissions: u32,
        storage: Storage,
    },
    /// Write nothing; report the entry and go on with the next.
    Unknown { kinds: ModeKinds, name: RawString },
}

/// How the content of one file goes into the archives.
#[derive(Debug)]
pub struct FileWrite {
    /// Whether the archive written so far has to be finished and a new one
    /// begun before the file is written.
    pub rotate: bool,
    /// The number of the archive that takes the whole file.
    pub archive: u64,
    /// The content, as it was read.
    pub content: Vec<u8>,
}

/// The suffixes of directories that are left out unless the caller says
/// otherwise: caches that hold very many or very large files of little
/// worth.
pub fn default_exclusions() -> (r: Vec<RawString>)
    ensures
        r@.len() == 14,
        r@[0]@ == "/BrowserMetrics".spec_bytes(),
        r@[1]@ == "/HTTP Cache".spec_bytes(),
        r@[2]@ == "/com.google.android.googlequicksearchbox".spec_bytes(),
        r@[3]@ == "/.com.google.firebase.crashlytics-ndk".spec_bytes(),
        r@[4]@ == "/org.mozilla.firefox/cache".spec_bytes(),
        r@[5]@ == "/com.crashlytics.sdk.android.crashlytics-core".spec_bytes(),
        r@[6]@ == "/lib/python2.7".spec_bytes(),
        r@[7]@ == "/cache/image_manager_disk_cache".spec_bytes(),
        r@[8]@ == "/cache:memrise.offline.assets".spec_bytes(),
        r@[9]@ == "/org.mozilla.firefox_beta/cache".spec_bytes(),
        r@[10]@ == "/com.ecosia.android/cache".spec_bytes(),
        r@[11]@ == "/com.duckduckgo.mobile.android/cache".spec_bytes(),
        r@[12]@ == "/org.mozilla.fenix/cache".spec_bytes(),
        r@[13]@ == "/data/data/com.google.android.apps.photos/cache/glide_cache".spec_bytes(),
{
    let mut list: Vec<RawString> = Vec::new();
    list.push(RawString::of_str("/BrowserMetrics"));
    list.push(RawString::of_str("/HTTP Cache"));
    list.push(RawString::of_str("/com.google.android.googlequicksearchbox"));
    list.push(RawString::of_str("/.com.google.firebase.crashlytics-ndk"));
    list.push(RawString::of_str("/org.mozilla.firefox/cache"));
    list.push(RawString::of_str("/com.crashlytics.sdk.android.crashlytics-core"));
    list.push(RawString::of_str("/lib/python2.7"));
    list.push(RawString::of_str("/cache/image_manager_disk_cache"));
    list.push(RawString::of_str("/cache:memrise.offline.assets"));
    list.push(RawString::of_str("/org.mozilla.firefox_beta/cache"));
    list.push(RawString::of_str("/com.ecosia.android/cache"));
    list.push(RawString::of_str("/com.duckduckgo.mobile.android/cache"));
    list.push(RawString::of_str("/org.mozilla.fenix/cache"));
    list.push(RawString::of_str("/data/data/com.google.android.apps.photos/cache/glide_cache"));
    list
}

/// Whether the path ends with one of the suffixes.
pub fn excluded(path: &RawPath<'_>, exclusions: &Vec<RawString>) -> (r: bool)
    ensures
        r == is_excluded(path@, string_views(exclusions@)),
{
    let mut i: usize = 0;
    while i < exclusions.len()
        invariant
            i <= exclusions.len(),
            forall|k: int| 0 <= k < i ==> !(#[trigger] string_views(exclusions@)[k]).is_suffix_of(path@),
        decreases exclusions.len() - i,
    {
        let suffix = exclusions[i].as_str();
        if path.ends_with(&suffix) {
            assert(string_views(exclusions@)[i as int].is_suffix_of(path@));
            return true;
        }
        assert(string_views(exclusions@)[i as int] == suffix@);
        i += 1;
    }
    false
}

/// Decides about the directory at `path` before anything is asked of the
/// device. A directory whose path ends with one of the exclusions is
/// skipped whole: it is neither listed nor entered. `InvalidData` where a
/// marker is due and the path does not begin with the archive's root.
pub fn visit_dir(
    archive_root: &RawPath<'_>,
    path: &RawPath<'_>,
    exclusions: &Vec<RawString>,
) -> (r: Result<DirAction, Error>)
    requires
        path@.len() + 8 < usize::MAX,
    ensures
        !is_excluded(path@, string_views(exclusions@)) ==> r is Ok && r->Ok_0 is List,
        is_excluded(path@, string_views(exclusions@)) && archive_root@.is_prefix_of(path@) ==> r is Ok
            && r->Ok_0 is Skip && r->Ok_0->marker@ == record_path(
            archive_root@,
            path@,
            "IGNORED".spec_bytes(),
        ),
        is_excluded(path@, string_views(exclusions@)) && !archive_root@.is_prefix_of(path@) ==> r is Err
            && r->Err_0 is InvalidData,
{
    if !excluded(path, exclusions) {
        return Ok(DirAction::List);
    }
    let name = RawStr::of_str("IGNORED");
    proof {
        reveal_strlit("IGNORED");
        vstd::string::is_ascii_spec_bytes("IGNORED");
        assert(name@.len() == 7);
    }
    match record_for(archive_root, path, &name) {
        Ok(marker) => Ok(DirAction::Skip { marker }),
        Err(e) => Err(e),
    }
}

/// The place in the archive of the thing called `name` in the directory
/// `path`, or `InvalidData` where `path` does not begin with the archive's
/// root.
pub fn record_for(archive_root: &RawPath<'_>, path: &RawPath<'_>, name: &RawStr<'_>) -> (r: Result<
    RawPathBuf,
    Error,
>)
    requires
        path@.len() + name@.len() < usize::MAX,
    ensures
        archive_root@.is_prefix_of(path@) ==> r is Ok && r->Ok_0@ == record_path(
            archive_root@,
            path@,
            name@,
        ),
        !archive_root@.is_prefix_of(path@) ==> r is Err && r->Err_0 is InvalidData,
{
    if !path.as_raw().starts_with(&archive_root.as_raw()) {
        return Err(Error::InvalidData);
    }
    let full = path.join(name);
    proof {
        lemma_join_keeps_prefix(archive_root@, path@, name@);
    }
    Ok(full.as_path().without_prefix(archive_root).to_owned())
}

/// Decides about one entry of the directory at `path`.
///
/// The entries `.` and `..` are ignored. A directory gets a record and is
/// entered; a regular file is read and gets a record; an entry of any
/// other kind gets no record and is reported. `InvalidData` where a record
/// is due and `path` does not begin with the archive's root.
pub fn visit_entry(archive_root: &RawPath<'_>, path: &RawPath<'_>, entry: &LsEntry) -> (r: Result<
    EntryAction,
    Error,
>)
    requires
        path@.len() + entry.name@.len() < usize::MAX,
    ensures
        is_dot_name(entry.name@) ==> r is Ok && r->Ok_0 is Ignore,
        !is_dot_name(entry.name@) && !has_kind(entry.mode@, ModeKind::Dir) && !has_kind(
            entry.mode@,
            ModeKind::File,
        ) ==> r is Ok && r->Ok_0 is Unknown && r->Ok_0->kinds == kinds_of(entry.mode@)
            && r->Ok_0->name@ == entry.name@,
        !is_dot_name(entry.name@) && (has_kind(entry.mode@, ModeKind::Dir) || has_kind(
            entry.mode@,
            ModeKind::File,
        )) && !archive_root@.is_prefix_of(path@) ==> r is Err && r->Err_0 is InvalidData,
        !is_dot_name(entry.name@) && has_kind(entry.mode@, ModeKind::Dir)
            && archive_root@.is_prefix_of(path@) ==> r is Ok && r->Ok_0 is Directory
            && r->Ok_0->Directory_record@ == record_path(archive_root@, path@, entry.name@)
            && r->Ok_0->Directory_path@ == joined(path@, entry.name@)
            && r->Ok_0->Directory_modified == stamp_of(calendar_of(entry.epoch@))
            && r->Ok_0->Directory_permissions == entry.mode@ & 511
            && r->Ok_0->Directory_storage == Storage::Stored,
        !is_dot_name(entry.name@) && has_kind(entry.mode@, ModeKind::File)
            && archive_root@.is_prefix_of(path@) ==> r is Ok && r->Ok_0 is File
            && r->Ok_0->File_record@ == record_path(archive_root@, path@, entry.name@)
            && r->Ok_0->File_path@ == joined(path@, entry.name@) && r->Ok_0->size == entry.size
            && r->Ok_0->File_modified == stamp_of(calendar_of(entry.epoch@))
            && r->Ok_0->File_permissions == entry.mode@ & 511
            && r->Ok_0->File_storage == Storage::Compressed,
{
    let name = entry.name.as_str();
    if is_dot(&name) {
        return Ok(EntryAction::Ignore);
    }
    let kinds = entry.mode.kind();
    let is_dir: bool = kinds.is_exactly(ModeKind::Dir);
    let is_file: bool = kinds.is_exactly(ModeKind::File);
    if !is_dir && !is_file {
        return Ok(EntryAction::Unknown { kinds, name: name.to_owned() });
    }
    let record = match record_for(archive_root, path, &name) {
        Ok(record) => record,
        Err(e) => {
            return Err(e);
        },
    };
    let modified = convert_date_time(&entry.epoch.to_date_time());
    let permissions = entry.mode.permissions();
    let child = path.join(&name);
    if is_dir {
        Ok(
            EntryAction::Directory {
                record,
                path: child,
                modified,
                permissions,
                storage: Storage::Stored,
            },
        )
    } else {
        Ok(
            EntryAction::File {
                record,
                path: child,
                size: entry.size,
                modified,
                permissions,
                storage: Storage::Compressed,
            },
        )
    }
}

/// Whether the name is `.` or `..`.
pub fn is_dot(name: &RawStr<'_>) -> (r: bool)
    ensures
        r == is_dot_name(name@),
{
    let n: usize = name.len();
    if n == 1 {
        let r = name.byte_at(0) == DOT;
        assert(r ==> name@ =~= seq![DOT]);
        assert(!r ==> name@[0] != seq![DOT][0]);
        r
    } else if n == 2 {
        let r = name.byte_at(0) == DOT && name.byte_at(1) == DOT;
        assert(r ==> name@ =~= seq![DOT, DOT]);
        assert(!r ==> name@[0] != seq![DOT, DOT][0] || name@[1] != seq![DOT, DOT][1]);
        r
    } else {
        assert(seq![DOT].len() == 1);
        assert(seq![DOT, DOT].len() == 2);
        false
    }
}

/// Takes what was read of a file into the archives. Content of another
/// size than the listing gave is `InvalidData`: then nothing is counted
/// and no record is due. Otherwise the file is counted, and it goes whole
/// into one archive: a new one where the count would pass the threshold.
pub fn visit_file(state: &mut ArchiveState, size: u32, pulled: Vec<u8>) -> (r: Result<
    FileWrite,
    Error,
>)
    requires
        old(state).wf(),
        old(state)@.0 < u64::MAX,
    ensures
        final(state).wf(),
        pulled@.len() != size ==> r is Err && r->Err_0 is InvalidData && final(state)@ == old(
            state,
        )@,
        pulled@.len() == size ==> r is Ok && final(state)@ == after_file(old(state)@, size as int)
            && r->Ok_0.rotate == rotates(old(state)@.1, size as int) && r->Ok_0.archive
            == final(state)@.0 && r->Ok_0.content@ == pulled@,
{
    match crate::device::pull(pulled, size) {
        Ok(content) => {
            let rotate = state.admit_file(size);
            Ok(FileWrite { rotate, archive: state.sequence(), content })
        },
        Err(e) => Err(e),
    }
}

} // verus!
