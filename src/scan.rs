use vstd::multiset::Multiset;
use vstd::prelude::*;

use crate::classify::{is_image_file, is_image_name};
use crate::timestamp::{resolve_created_with, resolved_created, ClockReading};

verus! {

/// What kind of filesystem object a directory entry is. Symbolic links are not
/// followed and count as `Other`.
#[derive(PartialEq, Eq, Structural, Clone, Copy, Debug)]
pub enum EntryKind {
    File,
    Directory,
    Other,
}

/// The filesystem metadata of one file.
pub struct FileStat {
    pub size: u64,
    pub created: ClockReading,
    pub modified: ClockReading,
}

/// One direct child of a directory, as the filesystem reported it. Each part that
/// could not be read holds the text of its error.
pub struct DirEntryInfo {
    /// The entry's file name, or `None` where it is not valid UTF-8.
    pub name: Option<String>,
    /// The entry's full path.
    pub path: String,
    pub kind: Result<EntryKind, String>,
    pub stat: Result<FileStat, String>,
}

/// An image file found by a folder scan.
pub struct ImageFile {
    pub name: String,
    pub path: String,
    pub size: u64,
    pub created: String,
}

/// The mathematical value of an [`ImageFile`].
pub struct ImageRecord {
    pub name: Seq<char>,
    pub path: Seq<char>,
    pub size: u64,
    pub created: Seq<char>,
}

impl View for ImageFile {
    type V = ImageRecord;

    open spec fn view(&self) -> ImageRecord {
        ImageRecord { name: self.name@, path: self.path@, size: self.size, created: self.created@ }
    }
}

/// Why a folder scan failed.
pub enum ScanError {
    /// The path given is not a directory.
    NotADirectory,
    /// The directory could not be enumerated.
    DirectoryUnreadable(String),
    /// One entry's type, metadata or clock could not be read.
    EntryUnreadable(String),
}

/// The mathematical value of a [`ScanError`].
pub enum ScanFailure {
    NotADirectory,
    DirectoryUnreadable(Seq<char>),
    EntryUnreadable(Seq<char>),
}

impl View for ScanError {
    type V = ScanFailure;

    open spec fn view(&self) -> ScanFailure {
        match self {
            ScanError::NotADirectory => ScanFailure::NotADirectory,
            ScanError::DirectoryUnreadable(m) => ScanFailure::DirectoryUnreadable(m@),
            ScanError::EntryUnreadable(m) => ScanFailure::EntryUnreadable(m@),
        }
    }
}

impl ScanError {
    /// The human-readable text of the error.
    pub fn message(&self) -> (r: String)
        ensures
            self is NotADirectory ==> r@ == not_a_directory_text(),
            self matches ScanError::DirectoryUnreadable(m) ==> r@ == m@,
            self matches ScanError::EntryUnreadable(m) ==> r@ == m@,
    {
        match self {
            ScanError::NotADirectory => {
                let r = "Provided path is not a directory".to_owned();
                proof {
                    reveal_strlit("Provided path is not a directory");
                }
                r
            },
            ScanError::DirectoryUnreadable(m) => m.clone(),
            ScanError::EntryUnreadable(m) => m.clone(),
        }
    }
}

/// The message of [`ScanError::NotADirectory`].
pub open spec fn not_a_directory_text() -> Seq<char> {
    "Provided path is not a directory"@
}

/// Runs through the outcomes of a scan's entries in order: the first error ends the
/// scan, and otherwise the kept values are gathered in order.
pub open spec fn collect_steps<A>(steps: Seq<Result<Option<A>, Seq<char>>>) -> Result<Seq<A>, Seq<char>>
    decreases steps.len(),
{
    if steps.len() == 0 {
        Ok(Seq::empty())
    } else {
        match collect_steps(steps.drop_last()) {
            Err(m) => Err(m),
            Ok(acc) => match steps.last() {
                Err(m) => Err(m),
                Ok(None) => Ok(acc),
                Ok(Some(x)) => Ok(acc.push(x)),
            },
        }
    }
}

/// Once a prefix of the steps has failed, every longer prefix fails the same way.
pub proof fn lemma_collect_error_stays<A>(steps: Seq<Result<Option<A>, Seq<char>>>, i: int, j: int)
    requires
        0 <= i <= j <= steps.len(),
        collect_steps(steps.take(i)) is Err,
    ensures
        collect_steps(steps.take(j)) == collect_steps(steps.take(i)),
    decreases j - i,
{
    if j > i {
        lemma_collect_error_stays(steps, i, j - 1);
        assert(steps.take(j).drop_last() =~= steps.take(j - 1));
    }
}

/// One step of a collection: a prefix one longer.
pub proof fn lemma_collect_step<A>(steps: Seq<Result<Option<A>, Seq<char>>>, i: int)
    requires
        0 <= i < steps.len(),
    ensures
        collect_steps(steps.take(i + 1)) == match collect_steps(steps.take(i)) {
            Err(m) => Err(m),
            Ok(acc) => match steps[i] {
                Err(m) => Err(m),
                Ok(None) => Ok(acc),
                Ok(Some(x)) => Ok(acc.push(x)),
            },
        },
{
    assert(steps.take(i + 1).drop_last() =~= steps.take(i));
}

/// The outcome of one entry in an image scan: an error that ends the scan, a record
/// for a regular file with a UTF-8 image name, or nothing.
pub open spec fn image_step(entry: Result<DirEntryInfo, String>, now: Seq<char>) -> Result<Option<ImageRecord>, Seq<char>> {
    match entry {
        Err(m) => Err(m@),
        Ok(info) => match info.kind {
            Err(m) => Err(m@),
            Ok(kind) => {
                if kind == EntryKind::File && info.name is Some && is_image_name(info.name->0@) {
                    match info.stat {
                        Err(m) => Err(m@),
                        Ok(st) => match resolved_created(st.created, st.modified, now) {
                            Err(m) => Err(m),
                            Ok(t) => Ok(
                                Some(
                                    ImageRecord {
                                        name: info.name->0@,
                                        path: info.path@,
                                        size: st.size,
                                        created: t,
                                    },
                                ),
                            ),
                        },
                    }
                } else {
                    Ok(None)
                }
            },
        },
    }
}

/// The outcome of one entry in a scan for names of entries of kind `wanted`.
pub open spec fn name_step(entry: Result<DirEntryInfo, String>, wanted: EntryKind) -> Result<Option<Seq<char>>, Seq<char>> {
    match entry {
        Err(m) => Err(m@),
        Ok(info) => match info.kind {
            Err(m) => Err(m@),
            Ok(kind) => {
                if kind == wanted && info.name is Some {
                    Ok(Some(info.name->0@))
                } else {
                    Ok(None)
                }
            },
        },
    }
}

/// A whole scan whose entries' outcomes `steps` gives: a path that is not a
/// directory, a listing that could not be read and a failed entry each end it with
/// their error; otherwise the kept values.
pub open spec fn scan_outcome<A>(
    is_dir: bool,
    listing: Result<Vec<Result<DirEntryInfo, String>>, String>,
    steps: Seq<Result<Option<A>, Seq<char>>>,
) -> Result<Seq<A>, ScanFailure> {
    if !is_dir {
        Err(ScanFailure::NotADirectory)
    } else {
        match listing {
            Err(m) => Err(ScanFailure::DirectoryUnreadable(m@)),
            Ok(_) => match collect_steps(steps) {
                Err(m) => Err(ScanFailure::EntryUnreadable(m)),
                Ok(xs) => Ok(xs),
            },
        }
    }
}

/// The entries of a listing that could be read; none where it could not.
pub open spec fn listed_entries(listing: Result<Vec<Result<DirEntryInfo, String>>, String>) -> Seq<Result<DirEntryInfo, String>> {
    match listing {
        Ok(es) => es@,
        Err(_) => Seq::empty(),
    }
}

/// The outcomes of the entries of an image scan, in order.
pub open spec fn image_steps(es: Seq<Result<DirEntryInfo, String>>, now: Seq<char>) -> Seq<Result<Option<ImageRecord>, Seq<char>>> {
    es.map_values(|e| image_step(e, now))
}

/// The outcomes of the entries of a scan for names of kind `wanted`, in order.
pub open spec fn name_steps(es: Seq<Result<DirEntryInfo, String>>, wanted: EntryKind) -> Seq<Result<Option<Seq<char>>, Seq<char>>> {
    es.map_values(|e| name_step(e, wanted))
}

/// The outcome of an image scan, where `now` is the current time's text.
pub open spec fn images_listed(
    is_dir: bool,
    listing: Result<Vec<Result<DirEntryInfo, String>>, String>,
    now: Seq<char>,
) -> Result<Seq<ImageRecord>, ScanFailure> {
    scan_outcome(is_dir, listing, image_steps(listed_entries(listing), now))
}

/// The outcome of a scan for the names of entries of kind `wanted`.
pub open spec fn names_listed(
    is_dir: bool,
    listing: Result<Vec<Result<DirEntryInfo, String>>, String>,
    wanted: EntryKind,
) -> Result<Seq<Seq<char>>, ScanFailure> {
    scan_outcome(is_dir, listing, name_steps(listed_entries(listing), wanted))
}

/// The mathematical value of an image scan's result.
pub open spec fn images_view(r: Result<Vec<ImageFile>, ScanError>) -> Result<Seq<ImageRecord>, ScanFailure> {
    match r {
        Ok(v) => Ok(v@.map_values(|f: ImageFile| f@)),
        Err(e) => Err(e@),
    }
}

/// The mathematical value of a name scan's result.
pub open spec fn names_view(r: Result<Vec<String>, ScanError>) -> Result<Seq<Seq<char>>, ScanFailure> {
    match r {
        Ok(v) => Ok(v@.map_values(|s: String| s@)),
        Err(e) => Err(e@),
    }
}

fn image_entry(entry: &Result<DirEntryInfo, String>, now: &String) -> (r: Result<Option<ImageFile>, String>)
    ensures
        image_step(*entry, now@) == match r {
            Err(m) => Err(m@),
            Ok(None) => Ok(None),
            Ok(Some(f)) => Ok(Some(f@)),
        },
{
    let info = match entry {
        Err(m) => {
            return Err(m.clone());
        },
        Ok(info) => info,
    };
    let kind = match &info.kind {
        Err(m) => {
            return Err(m.clone());
        },
        Ok(k) => *k,
    };
    let name = match &info.name {
        Some(n) => n,
        None => {
            return Ok(None);
        },
    };
    if kind != EntryKind::File || !is_image_file(name.as_str()) {
        return Ok(None);
    }
    let st = match &info.stat {
        Err(m) => {
            return Err(m.clone());
        },
        Ok(st) => st,
    };
    match resolve_created_with(&st.created, &st.modified, now) {
        Err(m) => Err(m),
        Ok(t) => Ok(Some(ImageFile { name: name.clone(), path: info.path.clone(), size: st.size, created: t })),
    }
}

fn name_entry(entry: &Result<DirEntryInfo, String>, wanted: EntryKind) -> (r: Result<Option<String>, String>)
    ensures
        name_step(*entry, wanted) == match r {
            Err(m) => Err(m@),
            Ok(None) => Ok(None),
            Ok(Some(n)) => Ok(Some(n@)),
        },
{
    let info = match entry {
        Err(m) => {
            return Err(m.clone());
        },
        Ok(info) => info,
    };
    let kind = match &info.kind {
        Err(m) => {
            return Err(m.clone());
        },
        Ok(k) => *k,
    };
    if kind != wanted {
        return Ok(None);
    }
    match &info.name {
        Some(n) => Ok(Some(n.clone())),
        None => Ok(None),
    }
}

/// Scans a directory's direct entries for images, against the current time's text
/// `now`: the records of the regular files with image names, in listing order, or
/// the first error met, with nothing else.
pub fn list_images_in_folder(
    is_dir: bool,
    listing: &Result<Vec<Result<DirEntryInfo, String>>, String>,
    now: &String,
) -> (r: Result<Vec<ImageFile>, ScanError>)
    ensures
        images_view(r) == images_listed(is_dir, *listing, now@),
{
    if !is_dir {
        return Err(ScanError::NotADirectory);
    }
    let es = match listing {
        Err(m) => {
            return Err(ScanError::DirectoryUnreadable(m.clone()));
        },
        Ok(es) => es,
    };
    let ghost steps = image_steps(es@, now@);
    let mut out: Vec<ImageFile> = Vec::new();
    let mut i: usize = 0;
    assert(steps.take(0) =~= Seq::<Result<Option<ImageRecord>, Seq<char>>>::empty());
    assert(out@.map_values(|f: ImageFile| f@) =~= Seq::<ImageRecord>::empty());
    while i < es.len()
        invariant
            is_dir,
            *listing is Ok,
            listed_entries(*listing) == es@,
            steps == image_steps(es@, now@),
            i <= es@.len(),
            collect_steps(steps.take(i as int)) == Ok::<Seq<ImageRecord>, Seq<char>>(out@.map_values(|f: ImageFile| f@)),
        decreases es@.len() - i,
    {
        proof {
            lemma_collect_step(steps, i as int);
        }
        assert(steps[i as int] == image_step(es@[i as int], now@));
        match image_entry(&es[i], now) {
            Err(m) => {
                proof {
                    lemma_collect_error_stays(steps, i + 1, steps.len() as int);
                    assert(steps.take(steps.len() as int) =~= steps);
                }
                return Err(ScanError::EntryUnreadable(m));
            },
            Ok(None) => {},
            Ok(Some(f)) => {
                let ghost prev = out@;
                let ghost rec = f@;
                out.push(f);
                assert(out@.map_values(|f: ImageFile| f@) =~= prev.map_values(|f: ImageFile| f@).push(rec));
            },
        }
        i = i + 1;
    }
    assert(steps.take(i as int) =~= steps);
    Ok(out)
}

fn list_names(
    is_dir: bool,
    listing: &Result<Vec<Result<DirEntryInfo, String>>, String>,
    wanted: EntryKind,
) -> (r: Result<Vec<String>, ScanError>)
    ensures
        names_view(r) == names_listed(is_dir, *listing, wanted),
{
    if !is_dir {
        return Err(ScanError::NotADirectory);
    }
    let es = match listing {
        Err(m) => {
            return Err(ScanError::DirectoryUnreadable(m.clone()));
        },
        Ok(es) => es,
    };
    let ghost steps = name_steps(es@, wanted);
    let mut out: Vec<String> = Vec::new();
    let mut i: usize = 0;
    assert(steps.take(0) =~= Seq::<Result<Option<Seq<char>>, Seq<char>>>::empty());
    assert(out@.map_values(|s: String| s@) =~= Seq::<Seq<char>>::empty());
    while i < es.len()
        invariant
            is_dir,
            *listing is Ok,
            listed_entries(*listing) == es@,
            steps == name_steps(es@, wanted),
            i <= es@.len(),
            collect_steps(steps.take(i as int)) == Ok::<Seq<Seq<char>>, Seq<char>>(out@.map_values(|s: String| s@)),
        decreases es@.len() - i,
    {
        proof {
            lemma_collect_step(steps, i as int);
        }
        assert(steps[i as int] == name_step(es@[i as int], wanted));
        match name_entry(&es[i], wanted) {
            Err(m) => {
                proof {
                    lemma_collect_error_stays(steps, i + 1, steps.len() as int);
                    assert(steps.take(steps.len() as int) =~= steps);
                }
                return Err(ScanError::EntryUnreadable(m));
            },
            Ok(None) => {},
            Ok(Some(n)) => {
                let ghost prev = out@;
                let ghost name = n@;
                out.push(n);
                assert(out@.map_values(|s: String| s@) =~= prev.map_values(|s: String| s@).push(name));
            },
        }
        i = i + 1;
    }
    assert(steps.take(i as int) =~= steps);
    Ok(out)
}

/// The names of a directory's direct entries that are regular files, in listing
/// order, or the first error met, with nothing else.
pub fn list_filenames_in_folder(
    is_dir: bool,
    listing: &Result<Vec<Result<DirEntryInfo, String>>, String>,
) -> (r: Result<Vec<String>, ScanError>)
    ensures
        names_view(r) == names_listed(is_dir, *listing, EntryKind::File),
{
    list_names(is_dir, listing, EntryKind::File)
}

/// The names of a directory's direct entries that are directories, in listing
/// order, or the first error met, with nothing else.
pub fn list_subfolders(
    is_dir: bool,
    listing: &Result<Vec<Result<DirEntryInfo, String>>, String>,
) -> (r: Result<Vec<String>, ScanError>)
    ensures
        names_view(r) == names_listed(is_dir, *listing, EntryKind::Directory),
{
    list_names(is_dir, listing, EntryKind::Directory)
}

/// A scan of a path that is not a directory fails with
/// [`ScanFailure::NotADirectory`] and yields no entries at all, whatever the
/// listing would have held.
pub proof fn lemma_not_a_directory(listing: Result<Vec<Result<DirEntryInfo, String>>, String>, now: Seq<char>, wanted: EntryKind)
    ensures
        images_listed(false, listing, now) == Err::<Seq<ImageRecord>, ScanFailure>(ScanFailure::NotADirectory),
        names_listed(false, listing, wanted) == Err::<Seq<Seq<char>>, ScanFailure>(ScanFailure::NotADirectory),
{
}

/// A collection succeeds exactly when no entry failed.
pub proof fn lemma_collect_ok_iff_no_failure<A>(steps: Seq<Result<Option<A>, Seq<char>>>)
    ensures
        collect_steps(steps) is Ok <==> forall|i: int| 0 <= i < steps.len() ==> !(#[trigger] steps[i] is Err),
    decreases steps.len(),
{
    if steps.len() > 0 {
        let t = steps.drop_last();
        lemma_collect_ok_iff_no_failure(t);
        if collect_steps(t) is Ok && !(steps.last() is Err) {
            assert forall|i: int| 0 <= i < steps.len() implies !(#[trigger] steps[i] is Err) by {
                if i < steps.len() - 1 {
                    assert(steps[i] == t[i]);
                }
            }
        }
        if collect_steps(t) is Err {
            let i = choose|i: int| 0 <= i < t.len() && (#[trigger] t[i]) is Err;
            assert(steps[i] == t[i]);
        }
    }
}

/// What a successful collection keeps: each value as many times as an entry gave it.
pub proof fn lemma_collect_counts<A>(steps: Seq<Result<Option<A>, Seq<char>>>)
    requires
        collect_steps(steps) is Ok,
    ensures
        forall|x: A| #[trigger] collect_steps(steps)->Ok_0.to_multiset().count(x)
            == steps.to_multiset().count(Ok(Some(x))),
    decreases steps.len(),
{
    broadcast use vstd::seq_lib::group_to_multiset_ensures;
    if steps.len() == 0 {
        assert forall|x: A| #[trigger] collect_steps(steps)->Ok_0.to_multiset().count(x)
            == steps.to_multiset().count(Ok(Some(x))) by {
            assert(collect_steps(steps)->Ok_0 =~= Seq::<A>::empty());
            assert(Seq::<A>::empty().to_multiset() =~= Multiset::empty());
            assert(steps =~= Seq::empty());
            assert(Seq::<Result<Option<A>, Seq<char>>>::empty().to_multiset() =~= Multiset::empty());
        }
    } else {
        let t = steps.drop_last();
        let last = steps.last();
        assert(steps =~= t.push(last));
        lemma_collect_counts(t);
        let acc = collect_steps(t)->Ok_0;
        assert forall|x: A| #[trigger] collect_steps(steps)->Ok_0.to_multiset().count(x)
            == steps.to_multiset().count(Ok(Some(x))) by {
            assert(acc.to_multiset().count(x) == t.to_multiset().count(Ok(Some(x))));
            assert(steps.to_multiset() =~= t.to_multiset().insert(last));
            match last {
                Ok(Some(y)) => {
                    assert(collect_steps(steps)->Ok_0 == acc.push(y));
                    assert(acc.push(y).to_multiset() =~= acc.to_multiset().insert(y));
                },
                _ => {},
            }
        }
    }
}

/// Applying one function to each of two sequences with the same elements gives two
/// sequences with the same elements.
pub proof fn lemma_map_keeps_multiset<A, B>(s1: Seq<A>, s2: Seq<A>, f: spec_fn(A) -> B)
    requires
        s1.to_multiset() == s2.to_multiset(),
    ensures
        s1.map_values(f).to_multiset() == s2.map_values(f).to_multiset(),
    decreases s1.len(),
{
    broadcast use vstd::seq_lib::group_to_multiset_ensures;
    if s1.len() == 0 {
        assert(s2.len() == s2.to_multiset().len());
        assert(s1.map_values(f) =~= Seq::empty());
        assert(s2.map_values(f) =~= Seq::empty());
    } else {
        let a = s1.last();
        let t1 = s1.drop_last();
        assert(s1 =~= t1.push(a));
        assert(s1[s1.len() - 1] == a);
        assert(s1.contains(a));
        assert(s1.to_multiset().count(a) > 0);
        assert(s2.contains(a));
        let j = choose|j: int| 0 <= j < s2.len() && s2[j] == a;
        let t2 = s2.remove(j);
        assert(t2.to_multiset() =~= s2.to_multiset().remove(a));
        assert(t1.to_multiset() =~= s1.to_multiset().remove(a));
        lemma_map_keeps_multiset(t1, t2, f);
        let m2 = s2.map_values(f);
        assert(s1.map_values(f) =~= t1.map_values(f).push(f(a)));
        assert(m2.remove(j) =~= t2.map_values(f));
        assert(m2[j] == f(a));
        assert(m2.remove(j).to_multiset() =~= m2.to_multiset().remove(f(a)));
        assert(m2.contains(f(a)));
        assert(m2.to_multiset().count(f(a)) > 0);
        assert(m2.to_multiset() =~= t2.map_values(f).to_multiset().insert(f(a)));
    }
}

/// A scan for images does not depend on the order in which the directory lists its
/// entries: for two listings of the same entries, one succeeds exactly when the
/// other does, and then both return the same records, each as often.
pub proof fn lemma_images_ignore_listing_order(
    is_dir: bool,
    first: Result<Vec<Result<DirEntryInfo, String>>, String>,
    second: Result<Vec<Result<DirEntryInfo, String>>, String>,
    now: Seq<char>,
)
    requires
        first is Ok,
        second is Ok,
        listed_entries(first).to_multiset() == listed_entries(second).to_multiset(),
    ensures
        images_listed(is_dir, first, now) is Ok <==> images_listed(is_dir, second, now) is Ok,
        images_listed(is_dir, first, now) is Ok ==> images_listed(is_dir, first, now)->Ok_0.to_multiset()
            == images_listed(is_dir, second, now)->Ok_0.to_multiset(),
{
    broadcast use vstd::seq_lib::group_to_multiset_ensures;
    let s1 = image_steps(listed_entries(first), now);
    let s2 = image_steps(listed_entries(second), now);
    lemma_map_keeps_multiset(listed_entries(first), listed_entries(second), |e| image_step(e, now));
    assert(s1.to_multiset() == s2.to_multiset());
    lemma_collect_ok_iff_no_failure(s1);
    lemma_collect_ok_iff_no_failure(s2);
    if collect_steps(s1) is Ok && collect_steps(s2) is Err {
        let i = choose|i: int| 0 <= i < s2.len() && (#[trigger] s2[i]) is Err;
        assert(s2.contains(s2[i]));
        assert(s2.to_multiset().count(s2[i]) > 0);
        assert(s1.to_multiset().count(s2[i]) > 0);
        assert(s1.contains(s2[i]));
    }
    if collect_steps(s2) is Ok && collect_steps(s1) is Err {
        let i = choose|i: int| 0 <= i < s1.len() && (#[trigger] s1[i]) is Err;
        assert(s1.contains(s1[i]));
        assert(s1.to_multiset().count(s1[i]) > 0);
        assert(s2.to_multiset().count(s1[i]) > 0);
        assert(s2.contains(s1[i]));
    }
    if collect_steps(s1) is Ok && collect_steps(s2) is Ok {
        lemma_collect_counts(s1);
        lemma_collect_counts(s2);
        assert(collect_steps(s1)->Ok_0.to_multiset() =~= collect_steps(s2)->Ok_0.to_multiset());
    }
}

} // verus!
