//! The scan of the file system for descriptors, as a chain of steps: the
//! host lists a directory or reads a file, and what it found decides the
//! next step.
//!
//! The directories are taken in their order and the entries of each in the
//! order they were listed. A directory that is not there is passed over; one
//! that is there and cannot be listed ends the scan in failure. Of the
//! entries only those with a descriptor's path are read, and one that cannot
//! be read is passed over.

use crate::catalog::{
    catalog_of, texts, Catalog, CatalogError, DescriptorFile, FileModel,
};
use crate::descriptor::{models, AppInfo, AppModel};
use crate::paths::{descriptor_path, is_descriptor_path};
use vstd::prelude::*;

verus! {

/// What the host has to do next for a scan, or how the scan ended.
#[derive(Debug, Clone, PartialEq, Eq)]
pub enum ScanAction {
    /// List the entries of `directory`.
    List { directory: String },
    /// Read the text of the file at `path`, if there is a regular file.
    Read { path: String },
    /// The scan is complete.
    Done,
    /// The scan has failed.
    Failed,
}

/// The mathematical value of a [`ScanAction`].
pub enum ActionModel {
    List { directory: Seq<char> },
    Read { path: Seq<char> },
    Done,
    Failed,
}

impl View for ScanAction {
    type V = ActionModel;

    open spec fn view(&self) -> ActionModel {
        match *self {
            ScanAction::List { directory } => ActionModel::List { directory: directory@ },
            ScanAction::Read { path } => ActionModel::Read { path: path@ },
            ScanAction::Done => ActionModel::Done,
            ScanAction::Failed => ActionModel::Failed,
        }
    }
}

/// What the host found when it carried out a [`ScanAction`].
#[derive(Debug, Clone, PartialEq, Eq)]
pub enum ScanEvent {
    /// The directory does not exist.
    Missing,
    /// The directory holds the entries at `paths`, in the order it gave them.
    Listed { paths: Vec<String> },
    /// The directory exists and could not be listed.
    Unlistable,
    /// The file was read; `content` is its text.
    Text { content: String },
    /// There is no regular file at the path, or it could not be read as text.
    Skipped,
}

/// The mathematical value of a [`ScanEvent`].
pub enum FindingModel {
    Missing,
    Listed { paths: Seq<Seq<char>> },
    Unlistable,
    Text { content: Seq<char> },
    Skipped,
}

impl View for ScanEvent {
    type V = FindingModel;

    open spec fn view(&self) -> FindingModel {
        match *self {
            ScanEvent::Missing => FindingModel::Missing,
            ScanEvent::Listed { paths } => FindingModel::Listed { paths: texts(paths@) },
            ScanEvent::Unlistable => FindingModel::Unlistable,
            ScanEvent::Text { content } => FindingModel::Text { content: content@ },
            ScanEvent::Skipped => FindingModel::Skipped,
        }
    }
}

/// The mathematical value of a [`Scan`].
pub struct ScanModel {
    /// The directories that are not listed yet, in scan order.
    pub directories: Seq<Seq<char>>,
    /// The files of the directory listed last that are not read yet, in the
    /// order of the listing.
    pub paths: Seq<Seq<char>>,
    /// The files that were read, in the order they were read.
    pub read: Seq<FileModel>,
    /// Whether a directory could not be listed.
    pub failed: bool,
}

/// The paths of `paths` that are those of descriptors, in the order of `paths`.
pub open spec fn descriptor_paths(paths: Seq<Seq<char>>) -> Seq<Seq<char>> {
    paths.filter(|p: Seq<char>| is_descriptor_path(p))
}

/// A scan of `directories` that has not begun.
pub open spec fn fresh_scan(directories: Seq<Seq<char>>) -> ScanModel {
    ScanModel { directories, paths: Seq::empty(), read: Seq::empty(), failed: false }
}

/// What the host has to do next: read the next file of the directory listed
/// last; when none is left, list the next directory; when none is left, end.
pub open spec fn action_of(scan: ScanModel) -> ActionModel {
    if scan.failed {
        ActionModel::Failed
    } else if scan.paths.len() > 0 {
        ActionModel::Read { path: scan.paths.first() }
    } else if scan.directories.len() > 0 {
        ActionModel::List { directory: scan.directories.first() }
    } else {
        ActionModel::Done
    }
}

/// The scan after the host found `finding` on carrying out [`action_of`].
///
/// A finding that an action cannot have counts as nothing found: the
/// directory, or the file, is passed over.
pub open spec fn scan_step(scan: ScanModel, finding: FindingModel) -> ScanModel {
    match action_of(scan) {
        ActionModel::List { directory } => match finding {
            FindingModel::Listed { paths } => ScanModel {
                directories: scan.directories.drop_first(),
                paths: descriptor_paths(paths),
                ..scan
            },
            FindingModel::Unlistable => ScanModel { failed: true, ..scan },
            _ => ScanModel { directories: scan.directories.drop_first(), ..scan },
        },
        ActionModel::Read { path } => match finding {
            FindingModel::Text { content } => ScanModel {
                paths: scan.paths.drop_first(),
                read: scan.read.push(FileModel { path, content }),
                ..scan
            },
            _ => ScanModel { paths: scan.paths.drop_first(), ..scan },
        },
        ActionModel::Done => scan,
        ActionModel::Failed => scan,
    }
}

/// What a scan has to show: the catalog of the files read, unless it failed.
pub open spec fn outcome_of(scan: ScanModel) -> Result<Seq<AppModel>, CatalogError> {
    if scan.failed {
        Err(CatalogError::UnreadableDirectory)
    } else {
        Ok(catalog_of(scan.read))
    }
}

/// A directory that does not exist is passed over without error: the scan
/// goes on to the next directory with its catalog as it was.
pub proof fn lemma_missing_directory_is_passed_over(scan: ScanModel)
    requires
        action_of(scan) is List,
    ensures
        scan_step(scan, FindingModel::Missing) == (ScanModel {
            directories: scan.directories.drop_first(),
            ..scan
        }),
        !scan_step(scan, FindingModel::Missing).failed,
        outcome_of(scan_step(scan, FindingModel::Missing)) == outcome_of(scan),
{
}

/// A file that cannot be read is passed over without error, and so is a
/// file that stands for no record: the catalog stays as it was.
pub proof fn lemma_unreadable_file_is_passed_over(scan: ScanModel)
    requires
        action_of(scan) is Read,
    ensures
        scan_step(scan, FindingModel::Skipped) == (ScanModel {
            paths: scan.paths.drop_first(),
            ..scan
        }),
        outcome_of(scan_step(scan, FindingModel::Skipped)) == outcome_of(scan),
{
}

/// Every file that a scan asks to read has the path of a descriptor, once
/// that holds of the files it has pending: a file under `/tmp`, or one of
/// another extension, is never asked for.
pub proof fn lemma_only_descriptor_paths_are_read(scan: ScanModel, finding: FindingModel)
    requires
        forall|i: int| 0 <= i < scan.paths.len() ==> is_descriptor_path(#[trigger] scan.paths[i]),
    ensures
        forall|i: int|
            0 <= i < scan_step(scan, finding).paths.len() ==> is_descriptor_path(
                #[trigger] scan_step(scan, finding).paths[i],
            ),
        action_of(scan) matches ActionModel::Read { path } ==> is_descriptor_path(path),
{
    let next = scan_step(scan, finding);
    assert forall|i: int| 0 <= i < next.paths.len() implies is_descriptor_path(
        #[trigger] next.paths[i],
    ) by {
        match action_of(scan) {
            ActionModel::List { directory } => match finding {
                FindingModel::Listed { paths } => {
                    paths.lemma_filter_pred(|p: Seq<char>| is_descriptor_path(p), i);
                },
                _ => {},
            },
            ActionModel::Read { path } => {
                assert(next.paths[i] == scan.paths[i + 1]);
            },
            _ => {},
        }
    }
    if action_of(scan) is Read {
        assert(is_descriptor_path(scan.paths[0]));
    }
}

/// A scan comes to its end: every step before the end either fails the scan,
/// or takes a directory off those to list, or leaves them and takes a file
/// off those to read.
pub proof fn lemma_scan_makes_progress(scan: ScanModel, finding: FindingModel)
    requires
        action_of(scan) is List || action_of(scan) is Read,
    ensures
        ({
            let next = scan_step(scan, finding);
            ||| next.failed
            ||| next.directories.len() < scan.directories.len()
            ||| next.directories == scan.directories && next.paths.len() < scan.paths.len()
        }),
{
}

/// What a directory is to a scan.
pub enum DirectoryModel {
    /// There is no such directory.
    Missing,
    /// The directory is there and cannot be listed.
    Unlistable,
    /// The directory lists these paths, in this order.
    Entries(Seq<Seq<char>>),
}

/// The file system as a scan meets it, taken not to change meanwhile.
pub struct FilesModel {
    /// What is at the path of a directory.
    pub directory: spec_fn(Seq<char>) -> DirectoryModel,
    /// The text of the regular file at a path; none where there is no
    /// regular file, or where it cannot be read as text.
    pub text: spec_fn(Seq<char>) -> Option<Seq<char>>,
}

/// What the host finds in `files` on carrying out `action`.
pub open spec fn finding_in(files: FilesModel, action: ActionModel) -> FindingModel {
    match action {
        ActionModel::List { directory } => match (files.directory)(directory) {
            DirectoryModel::Missing => FindingModel::Missing,
            DirectoryModel::Unlistable => FindingModel::Unlistable,
            DirectoryModel::Entries(paths) => FindingModel::Listed { paths },
        },
        ActionModel::Read { path } => match (files.text)(path) {
            Some(content) => FindingModel::Text { content },
            None => FindingModel::Skipped,
        },
        _ => FindingModel::Skipped,
    }
}

/// The scan `scan` carried on in `files` until it is complete or has failed.
pub open spec fn scan_to_end(files: FilesModel, scan: ScanModel) -> ScanModel
    decreases scan.directories.len(), scan.paths.len(),
{
    if action_of(scan) is List || action_of(scan) is Read {
        let next = scan_step(scan, finding_in(files, action_of(scan)));
        if next.failed {
            next
        } else {
            scan_to_end(files, next)
        }
    } else {
        scan
    }
}

/// Of the files at `paths`, those that can be read, with their texts, in
/// the order of `paths`.
pub open spec fn readable_files(files: FilesModel, paths: Seq<Seq<char>>) -> Seq<FileModel>
    decreases paths.len(),
{
    if paths.len() == 0 {
        Seq::empty()
    } else {
        let rest = readable_files(files, paths.drop_first());
        match (files.text)(paths.first()) {
            Some(content) => seq![FileModel { path: paths.first(), content }] + rest,
            None => rest,
        }
    }
}

/// The files that a scan reads in one directory: those that the directory
/// lists with the path of a descriptor and that can be read, in the order
/// of the listing. None for a directory that is not there.
pub open spec fn files_in(files: FilesModel, directory: Seq<char>) -> Seq<FileModel> {
    match (files.directory)(directory) {
        DirectoryModel::Entries(paths) => readable_files(files, descriptor_paths(paths)),
        _ => Seq::empty(),
    }
}

/// The files that a scan reads in the directories `directories`: those of
/// the first directory, then those of the second, and so on.
pub open spec fn files_under(files: FilesModel, directories: Seq<Seq<char>>) -> Seq<FileModel>
    decreases directories.len(),
{
    if directories.len() == 0 {
        Seq::empty()
    } else {
        files_in(files, directories.first()) + files_under(files, directories.drop_first())
    }
}

/// Whether one of `directories` is there and cannot be listed.
pub open spec fn any_unlistable(files: FilesModel, directories: Seq<Seq<char>>) -> bool {
    exists|i: int|
        0 <= i < directories.len() && (files.directory)(#[trigger] directories[i])
            is Unlistable
}

/// What a scan of `directories` in `files` has to show: the catalog of the
/// files under the directories, in scan order; a failure where one of the
/// directories cannot be listed.
pub open spec fn scan_result(files: FilesModel, directories: Seq<Seq<char>>) -> Result<
    Seq<AppModel>,
    CatalogError,
> {
    if any_unlistable(files, directories) {
        Err(CatalogError::UnreadableDirectory)
    } else {
        Ok(catalog_of(files_under(files, directories)))
    }
}

/// A scan carried to its end shows what [`scan_result`] says: step by step
/// it builds the catalog of all descriptors under its directories, in scan
/// order, passing over the directories that are not there and the files
/// that cannot be read.
pub proof fn lemma_scan_builds_the_catalog(files: FilesModel, directories: Seq<Seq<char>>)
    ensures
        outcome_of(scan_to_end(files, fresh_scan(directories))) == scan_result(files, directories),
{
    let scan = fresh_scan(directories);
    lemma_scan_from(files, scan);
    assert(scan.read + readable_files(files, scan.paths) + files_under(files, directories)
        =~= files_under(files, directories));
}

/// The end of a scan, told from any point of it.
proof fn lemma_scan_from(files: FilesModel, scan: ScanModel)
    requires
        !scan.failed,
    ensures
        outcome_of(scan_to_end(files, scan)) == if any_unlistable(files, scan.directories) {
            Err::<Seq<AppModel>, CatalogError>(CatalogError::UnreadableDirectory)
        } else {
            Ok(
                catalog_of(
                    scan.read + readable_files(files, scan.paths) + files_under(
                        files,
                        scan.directories,
                    ),
                ),
            )
        },
    decreases scan.directories.len(), scan.paths.len(),
{
    let next = scan_step(scan, finding_in(files, action_of(scan)));
    match action_of(scan) {
        ActionModel::Read { path } => {
            lemma_scan_from(files, next);
            let rest = readable_files(files, scan.paths.drop_first());
            let under = files_under(files, scan.directories);
            match (files.text)(path) {
                Some(content) => {
                    let file = FileModel { path, content };
                    assert(scan.read.push(file) + rest + under =~= scan.read + (seq![file] + rest)
                        + under);
                },
                None => {},
            }
        },
        ActionModel::List { directory } => {
            let later = scan.directories.drop_first();
            assert(scan.paths =~= Seq::<Seq<char>>::empty());
            assert forall|i: int| 0 <= i < later.len() implies later[i] == scan.directories[i
                + 1] by {}
            if (files.directory)(directory) is Unlistable {
                assert((files.directory)(scan.directories[0]) is Unlistable);
            } else {
                lemma_scan_from(files, next);
                if any_unlistable(files, scan.directories) {
                    let i = choose|i: int|
                        0 <= i < scan.directories.len() && (files.directory)(
                            #[trigger] scan.directories[i],
                        ) is Unlistable;
                    assert((files.directory)(later[i - 1]) is Unlistable);
                }
                if any_unlistable(files, later) {
                    let i = choose|i: int|
                        0 <= i < later.len() && (files.directory)(#[trigger] later[i])
                            is Unlistable;
                    assert((files.directory)(scan.directories[i + 1]) is Unlistable);
                }
                assert(scan.read + readable_files(files, next.paths) + files_under(files, later)
                    =~= scan.read + readable_files(files, scan.paths) + (files_in(
                    files,
                    directory,
                ) + files_under(files, later)));
            }
        },
        _ => {
            assert(scan.read + readable_files(files, scan.paths) + files_under(
                files,
                scan.directories,
            ) =~= scan.read);
        },
    }
}

/// A scan under way: what is left to list and to read, and the catalog of
/// what was read.
pub struct Scan {
    directories: Vec<String>,
    directory: usize,
    paths: Vec<String>,
    path: usize,
    catalog: Catalog,
    read: Ghost<Seq<FileModel>>,
    failed: bool,
}

impl View for Scan {
    type V = ScanModel;

    closed spec fn view(&self) -> ScanModel {
        ScanModel {
            directories: texts(self.directories@).skip(self.directory as int),
            paths: texts(self.paths@).skip(self.path as int),
            read: self.read@,
            failed: self.failed,
        }
    }
}

/// The paths of `paths` that are those of descriptors, in the order of `paths`.
fn keep_descriptor_paths(paths: Vec<String>) -> (kept: Vec<String>)
    ensures
        texts(kept@) == descriptor_paths(texts(paths@)),
{
    let ghost all = texts(paths@);
    let ghost wanted = |p: Seq<char>| is_descriptor_path(p);
    let mut kept: Vec<String> = Vec::new();
    let mut i: usize = 0;
    proof {
        reveal(Seq::filter);
        assert(all.take(0) =~= Seq::<Seq<char>>::empty());
    }
    while i < paths.len()
        invariant
            i <= paths.len(),
            all == texts(paths@),
            wanted == |p: Seq<char>| is_descriptor_path(p),
            texts(kept@) == all.take(i as int).filter(wanted),
        decreases paths.len() - i,
    {
        let ghost before = texts(kept@);
        proof {
            assert(all.take(i + 1) =~= all.take(i as int).push(paths@[i as int]@));
            all.take(i as int).lemma_filter_push(paths@[i as int]@, wanted);
        }
        if descriptor_path(paths[i].as_str()) {
            kept.push(paths[i].clone());
            proof {
                assert(texts(kept@) =~= before.push(paths@[i as int]@));
            }
        }
        i += 1;
    }
    proof {
        assert(all.take(i as int) =~= all);
    }
    kept
}

impl Scan {
    #[verifier::type_invariant]
    spec fn well_formed(self) -> bool {
        &&& self.directory <= self.directories@.len()
        &&& self.path <= self.paths@.len()
        &&& self.catalog@ == catalog_of(self.read@)
    }

    /// A scan of the directories `directories`, in their order, that has not begun.
    pub fn new(directories: Vec<String>) -> (scan: Scan)
        ensures
            scan@ == fresh_scan(texts(directories@)),
    {
        let scan = Scan {
            directories,
            directory: 0,
            paths: Vec::new(),
            path: 0,
            catalog: Catalog::new(),
            read: Ghost(Seq::empty()),
            failed: false,
        };
        proof {
            assert(scan@.directories =~= texts(directories@));
            assert(scan@.paths =~= Seq::<Seq<char>>::empty());
        }
        scan
    }

    /// What the host has to do next: see [`action_of`].
    pub fn action(&self) -> (action: ScanAction)
        ensures
            action@ == action_of(self@),
    {
        proof {
            use_type_invariant(self);
        }
        if self.failed {
            ScanAction::Failed
        } else if self.path < self.paths.len() {
            ScanAction::Read { path: self.paths[self.path].clone() }
        } else if self.directory < self.directories.len() {
            ScanAction::List { directory: self.directories[self.directory].clone() }
        } else {
            ScanAction::Done
        }
    }

    /// Takes what the host found on carrying out [`Scan::action`]: see [`scan_step`].
    pub fn advance(self, event: ScanEvent) -> (next: Scan)
        ensures
            next@ == scan_step(self@, event@),
    {
        proof {
            use_type_invariant(&self);
        }
        let ghost before = self@;
        let Scan { directories, directory, paths, path, catalog, read, failed } = self;
        if failed {
            Scan { directories, directory, paths, path, catalog, read, failed }
        } else if path < paths.len() {
            let mut catalog = catalog;
            let ghost mut files = read@;
            match event {
                ScanEvent::Text { content } => {
                    let file = DescriptorFile { path: paths[path].clone(), content };
                    catalog.offer(&file);
                    proof {
                        files = read@.push(file@);
                        assert(files.drop_last() =~= read@);
                    }
                },
                _ => {},
            }
            let next = Scan {
                directories,
                directory,
                paths,
                path: path + 1,
                catalog,
                read: Ghost(files),
                failed,
            };
            proof {
                assert(next@.paths =~= before.paths.drop_first());
            }
            next
        } else if directory < directories.len() {
            match event {
                ScanEvent::Listed { paths: found } => {
                    let kept = keep_descriptor_paths(found);
                    let next = Scan {
                        directories,
                        directory: directory + 1,
                        paths: kept,
                        path: 0,
                        catalog,
                        read,
                        failed,
                    };
                    proof {
                        assert(next@.directories =~= before.directories.drop_first());
                        assert(next@.paths =~= descriptor_paths(texts(found@)));
                    }
                    next
                },
                ScanEvent::Unlistable => Scan {
                    directories,
                    directory,
                    paths,
                    path,
                    catalog,
                    read,
                    failed: true,
                },
                _ => {
                    let next = Scan {
                        directories,
                        directory: directory + 1,
                        paths,
                        path,
                        catalog,
                        read,
                        failed,
                    };
                    proof {
                        assert(next@.directories =~= before.directories.drop_first());
                    }
                    next
                },
            }
        } else {
            Scan { directories, directory, paths, path, catalog, read, failed }
        }
    }

    /// What the scan has to show: see [`outcome_of`]. For a scan that is
    /// not complete this is the catalog of the files read so far.
    pub fn into_records(self) -> (r: Result<Vec<AppInfo>, CatalogError>)
        ensures
            match r {
                Ok(apps) => outcome_of(self@) == Ok::<Seq<AppModel>, CatalogError>(models(apps@)),
                Err(e) => outcome_of(self@) == Err::<Seq<AppModel>, CatalogError>(e),
            },
    {
        proof {
            use_type_invariant(&self);
        }
        if self.failed {
            Err(CatalogError::UnreadableDirectory)
        } else {
            Ok(self.catalog.into_records())
        }
    }
}

} // verus!
