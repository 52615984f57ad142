//! The catalog: which directories are scanned, in which order, and which of
//! the descriptors found there become records.
//!
//! The first descriptor of a name wins; a later one of the same name is
//! dropped. A descriptor that stands for no record takes no name.

use crate::descriptor::{models, parse_desktop_file, parsed, AppInfo, AppModel};
use crate::environment::{data_directories, home_directory};
use crate::paths::{
    applications_directory, descriptor_path, has_descriptor_extension, is_descriptor_path, join,
    joined, scan_directory, under_transient_root,
};
use vstd::prelude::*;

verus! {

/// Why no catalog can be built.
#[derive(Debug, PartialEq, Eq, Clone, Copy)]
pub enum CatalogError {
    /// The user's home directory is not known, and the scan starts there.
    NoHomeDirectory,
    /// A directory of the scan is there and cannot be listed.
    UnreadableDirectory,
}

/// An error in words.
pub open spec fn message_of(error: CatalogError) -> Seq<char> {
    match error {
        CatalogError::NoHomeDirectory => "Failed to get home directory"@,
        CatalogError::UnreadableDirectory => "Failed to list a directory of applications"@,
    }
}

impl CatalogError {
    /// The error in words.
    pub fn message(&self) -> (text: String)
        ensures
            text@ == message_of(*self),
    {
        match self {
            CatalogError::NoHomeDirectory => "Failed to get home directory".to_owned(),
            CatalogError::UnreadableDirectory => "Failed to list a directory of applications".to_owned(),
        }
    }
}

/// A descriptor file as a scan found it.
#[derive(Debug, Clone, PartialEq, Eq)]
pub struct DescriptorFile {
    /// Where the file lies.
    pub path: String,
    /// The file's text.
    pub content: String,
}

/// The mathematical value of a [`DescriptorFile`].
pub struct FileModel {
    pub path: Seq<char>,
    pub content: Seq<char>,
}

impl View for DescriptorFile {
    type V = FileModel;

    open spec fn view(&self) -> FileModel {
        FileModel { path: self.path@, content: self.content@ }
    }
}

/// The characters of each text of a list.
pub open spec fn texts(list: Seq<String>) -> Seq<Seq<char>> {
    list.map_values(|s: String| s@)
}

/// The models of a list of files, in order.
pub open spec fn file_models(files: Seq<DescriptorFile>) -> Seq<FileModel> {
    files.map_values(|f: DescriptorFile| f@)
}

/// Where a user's own applications lie, from the home directory.
pub open spec fn local_applications() -> Seq<char> {
    ".local/share/applications"@
}

/// The roots of a scan in their order: the user's own applications
/// directory, then the shared data directories as they were given.
pub open spec fn candidate_roots(home: Seq<char>, data_dirs: Seq<Seq<char>>) -> Seq<Seq<char>> {
    seq![joined(home, local_applications())] + data_dirs
}

/// The directories of a scan in their order: for each root the directory
/// that [`scan_directory`] names.
pub open spec fn scan_directories(home: Seq<char>, data_dirs: Seq<Seq<char>>) -> Seq<Seq<char>> {
    candidate_roots(home, data_dirs).map_values(|root: Seq<char>| scan_directory(root))
}

/// The record that a file stands for: that of its text, where its path is
/// that of a descriptor.
pub open spec fn record_of(file: FileModel) -> Option<AppModel> {
    if is_descriptor_path(file.path) {
        parsed(file.content, file.path)
    } else {
        None
    }
}

/// Whether some record of `records` has the name `name`.
pub open spec fn has_name(records: Seq<AppModel>, name: Seq<char>) -> bool {
    exists|i: int| 0 <= i < records.len() && (#[trigger] records[i]).name == name
}

/// Whether no two records of `records` have the same name.
pub open spec fn distinct_names(records: Seq<AppModel>) -> bool {
    forall|i: int, j: int|
        0 <= i < j < records.len() ==> (#[trigger] records[i]).name != (#[trigger] records[j]).name
}

/// `records` after `record` was offered: it goes to the end unless there is
/// none, or its name is taken.
pub open spec fn with_record(records: Seq<AppModel>, record: Option<AppModel>) -> Seq<AppModel> {
    match record {
        Some(r) => if has_name(records, r.name) {
            records
        } else {
            records.push(r)
        },
        None => records,
    }
}

/// The catalog of the files `files`, offered in their order.
pub open spec fn catalog_of(files: Seq<FileModel>) -> Seq<AppModel>
    decreases files.len(),
{
    if files.len() == 0 {
        Seq::empty()
    } else {
        with_record(catalog_of(files.drop_last()), record_of(files.last()))
    }
}

/// Whether `file` stands for a record of the name `name`.
pub open spec fn yields_name(file: FileModel, name: Seq<char>) -> bool {
    record_of(file) matches Some(r) && r.name == name
}

/// No two records of a catalog have the same name.
pub proof fn lemma_catalog_names_distinct(files: Seq<FileModel>)
    ensures
        distinct_names(catalog_of(files)),
    decreases files.len(),
{
    if files.len() > 0 {
        lemma_catalog_names_distinct(files.drop_last());
    }
}

/// Every name in a catalog is that of a record of one of the files.
pub proof fn lemma_catalog_names_come_from_files(files: Seq<FileModel>, name: Seq<char>)
    requires
        has_name(catalog_of(files), name),
    ensures
        exists|i: int| 0 <= i < files.len() && yields_name(#[trigger] files[i], name),
    decreases files.len(),
{
    if files.len() > 0 {
        let before = catalog_of(files.drop_last());
        if has_name(before, name) {
            lemma_catalog_names_come_from_files(files.drop_last(), name);
            let i = choose|i: int|
                0 <= i < files.drop_last().len() && yields_name(
                    #[trigger] files.drop_last()[i],
                    name,
                );
            assert(files[i] == files.drop_last()[i]);
        } else {
            let k = choose|k: int|
                0 <= k < catalog_of(files).len() && (#[trigger] catalog_of(files)[k]).name == name;
            if k < before.len() {
                assert(before[k].name == name);
            }
            assert(yields_name(files[files.len() - 1], name));
        }
    }
}

/// Of all files that stand for a record of one name, the first in scan order
/// gives the catalog its record of that name, and the catalog holds no other
/// record of that name: a later descriptor of the same name is dropped.
pub proof fn lemma_first_of_a_name_wins(files: Seq<FileModel>, first: int)
    requires
        0 <= first < files.len(),
        record_of(files[first]) is Some,
        forall|h: int|
            0 <= h < first ==> !yields_name(
                #[trigger] files[h],
                record_of(files[first])->Some_0.name,
            ),
    ensures
        exists|k: int|
            {
                &&& 0 <= k < catalog_of(files).len()
                &&& #[trigger] catalog_of(files)[k] == record_of(files[first])->Some_0
                &&& forall|m: int|
                    0 <= m < catalog_of(files).len() && m != k ==> (#[trigger] catalog_of(
                        files,
                    )[m]).name != record_of(files[first])->Some_0.name
            },
    decreases files.len(),
{
    let winner = record_of(files[first])->Some_0;
    let name = winner.name;
    let earlier = files.drop_last();
    let before = catalog_of(earlier);
    let after = catalog_of(files);
    if first < files.len() - 1 {
        assert(earlier[first] == files[first]);
        assert forall|h: int| 0 <= h < first implies !yields_name(#[trigger] earlier[h], name) by {
            assert(earlier[h] == files[h]);
        }
        lemma_first_of_a_name_wins(earlier, first);
        let k = choose|k: int|
            {
                &&& 0 <= k < before.len()
                &&& #[trigger] before[k] == winner
                &&& forall|m: int|
                    0 <= m < before.len() && m != k ==> (#[trigger] before[m]).name != name
            };
        assert(has_name(before, name));
        assert(after[k] == winner);
        assert forall|m: int| 0 <= m < after.len() && m != k implies (#[trigger] after[m]).name
            != name by {
            if m < before.len() {
                assert(before[m].name != name);
            }
        }
    } else {
        assert(earlier =~= files.take(first));
        if has_name(before, name) {
            lemma_catalog_names_come_from_files(earlier, name);
            let i = choose|i: int| 0 <= i < earlier.len() && yields_name(#[trigger] earlier[i], name);
            assert(earlier[i] == files[i]);
            assert(false);
        }
        let k = before.len() as int;
        assert(after == before.push(winner));
        assert(after[k] == winner);
        assert forall|m: int| 0 <= m < after.len() && m != k implies (#[trigger] after[m]).name
            != name by {
            assert(after[m] == before[m]);
        }
    }
}

/// Every record of a catalog is the record of one of the files, and carries
/// the path of that file, which is that of a descriptor: a file under `/tmp`,
/// or one of another extension, is never listed, whatever it holds.
pub proof fn lemma_catalog_paths(files: Seq<FileModel>, k: int)
    requires
        0 <= k < catalog_of(files).len(),
    ensures
        exists|i: int|
            0 <= i < files.len() && record_of(#[trigger] files[i]) == Some(catalog_of(files)[k])
                && files[i].path == catalog_of(files)[k].path,
        has_descriptor_extension(catalog_of(files)[k].path),
        !under_transient_root(catalog_of(files)[k].path),
    decreases files.len(),
{
    if files.len() > 0 {
        let earlier = files.drop_last();
        let before = catalog_of(earlier);
        if k < before.len() {
            lemma_catalog_paths(earlier, k);
            let i = choose|i: int|
                0 <= i < earlier.len() && record_of(#[trigger] earlier[i]) == Some(before[k])
                    && earlier[i].path == before[k].path;
            assert(files[i] == earlier[i]);
            assert(catalog_of(files)[k] == before[k]);
        } else {
            let i = files.len() - 1;
            assert(record_of(files[i]) == Some(catalog_of(files)[k]));
        }
    }
}

/// A file under `/tmp` leaves a catalog as it is.
pub proof fn lemma_transient_file_is_passed_over(records: Seq<AppModel>, file: FileModel)
    requires
        under_transient_root(file.path),
    ensures
        record_of(file) is None,
        with_record(records, record_of(file)) == records,
{
}

/// The directories of a scan for a given home directory and given shared
/// data directories: see [`scan_directories`]. Without a home directory
/// there is no scan.
pub fn directories_from(home: Option<String>, data_dirs: &Vec<String>) -> (r: Result<
    Vec<String>,
    CatalogError,
>)
    ensures
        match home {
            Some(h) => r matches Ok(dirs) && dirs@.len() == data_dirs@.len() + 1 && texts(dirs@)
                == scan_directories(h@, texts(data_dirs@)),
            None => r == Err::<Vec<String>, CatalogError>(CatalogError::NoHomeDirectory),
        },
{
    let home = match home {
        Some(h) => h,
        None => {
            return Err(CatalogError::NoHomeDirectory);
        },
    };
    let ghost roots = candidate_roots(home@, texts(data_dirs@));
    let mut dirs: Vec<String> = Vec::new();
    let local = join(home.as_str(), ".local/share/applications");
    dirs.push(applications_directory(local.as_str()));
    let mut i: usize = 0;
    while i < data_dirs.len()
        invariant
            i <= data_dirs.len(),
            roots == candidate_roots(home@, texts(data_dirs@)),
            dirs.len() == i + 1,
            forall|j: int| 0 <= j < dirs.len() ==> (#[trigger] dirs@[j])@ == scan_directory(roots[j]),
        decreases data_dirs.len() - i,
    {
        dirs.push(applications_directory(data_dirs[i].as_str()));
        i += 1;
    }
    Ok(dirs)
}

/// The directories to scan on this machine, in scan order: the home
/// directory and the shared data directories are asked of the environment,
/// the rest is [`directories_from`].
pub fn application_directories() -> (r: Result<Vec<String>, CatalogError>)
    ensures
        match r {
            Ok(dirs) => exists|home: Seq<char>, data_dirs: Seq<Seq<char>>|
                texts(dirs@) == scan_directories(home, data_dirs),
            Err(e) => e == CatalogError::NoHomeDirectory,
        },
{
    let base = xdg::BaseDirectories::new();
    let home = home_directory();
    let data_dirs = data_directories(&base);
    directories_from(home, &data_dirs)
}

/// A catalog being built: records in the order they were taken, no two of
/// one name.
pub struct Catalog {
    apps: Vec<AppInfo>,
}

impl View for Catalog {
    type V = Seq<AppModel>;

    closed spec fn view(&self) -> Seq<AppModel> {
        models(self.apps@)
    }
}

impl Catalog {
    #[verifier::type_invariant]
    spec fn names_are_distinct(self) -> bool {
        distinct_names(models(self.apps@))
    }

    /// The empty catalog.
    pub fn new() -> (c: Catalog)
        ensures
            c@ == Seq::<AppModel>::empty(),
    {
        Catalog { apps: Vec::new() }
    }

    /// Whether a record of the name `name` is in the catalog.
    pub fn contains_name(&self, name: &String) -> (b: bool)
        ensures
            b == has_name(self@, name@),
    {
        let mut i: usize = 0;
        while i < self.apps.len()
            invariant
                i <= self.apps.len(),
                forall|j: int| 0 <= j < i ==> (#[trigger] models(self.apps@)[j]).name != name@,
            decreases self.apps.len() - i,
        {
            if self.apps[i].name == *name {
                proof {
                    assert(models(self.apps@)[i as int].name == name@);
                }
                return true;
            }
            i += 1;
        }
        false
    }

    /// Offers a record: it is taken, at the end, unless its name is taken.
    /// Tells whether it was taken.
    pub fn insert(&mut self, app: AppInfo) -> (taken: bool)
        ensures
            final(self)@ == with_record(old(self)@, Some(app@)),
            taken == !has_name(old(self)@, app@.name),
    {
        proof {
            use_type_invariant(&*self);
        }
        if self.contains_name(&app.name) {
            false
        } else {
            let ghost before = models(self.apps@);
            let mut apps: Vec<AppInfo> = Vec::new();
            std::mem::swap(&mut apps, &mut self.apps);
            apps.push(app);
            proof {
                assert(models(apps@) =~= before.push(app@));
            }
            self.apps = apps;
            true
        }
    }

    /// Offers the descriptor of text `content` found at `path`, whatever the
    /// path: the record it stands for, if any, is offered as by
    /// [`Catalog::insert`]. Tells whether a record was taken.
    pub fn add(&mut self, path: &str, content: &str) -> (taken: bool)
        ensures
            final(self)@ == with_record(old(self)@, parsed(content@, path@)),
            taken == (final(self)@ != old(self)@),
    {
        match parse_desktop_file(content, path) {
            Some(app) => self.insert(app),
            None => false,
        }
    }

    /// Offers a file found by a scan: it is passed over unless its path is
    /// that of a descriptor, and else offered as by [`Catalog::add`].
    pub fn offer(&mut self, file: &DescriptorFile) -> (taken: bool)
        ensures
            final(self)@ == with_record(old(self)@, record_of(file@)),
            taken == (final(self)@ != old(self)@),
    {
        if descriptor_path(file.path.as_str()) {
            self.add(file.path.as_str(), file.content.as_str())
        } else {
            false
        }
    }

    /// The number of records.
    pub fn len(&self) -> (n: usize)
        ensures
            n == self@.len(),
    {
        self.apps.len()
    }

    /// The records, in the order they were taken.
    pub fn into_records(self) -> (apps: Vec<AppInfo>)
        ensures
            models(apps@) == self@,
            distinct_names(models(apps@)),
    {
        proof {
            use_type_invariant(&self);
        }
        self.apps
    }
}

/// The catalog of the files of a scan, given in scan order: each file whose
/// path is that of a descriptor is parsed, and the records come out in scan
/// order, the first of each name only.
pub fn load_applications(files: &Vec<DescriptorFile>) -> (apps: Vec<AppInfo>)
    ensures
        models(apps@) == catalog_of(file_models(files@)),
        distinct_names(models(apps@)),
{
    let mut catalog = Catalog::new();
    let mut i: usize = 0;
    while i < files.len()
        invariant
            i <= files.len(),
            catalog@ == catalog_of(file_models(files@).take(i as int)),
        decreases files.len() - i,
    {
        proof {
            let all = file_models(files@);
            assert(all.take(i + 1).drop_last() =~= all.take(i as int));
        }
        catalog.offer(&files[i]);
        i += 1;
    }
    proof {
        assert(file_models(files@).take(i as int) =~= file_models(files@));
    }
    catalog.into_records()
}

} // verus!
