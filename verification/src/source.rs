//! Source discovery: which of the files found under a project's directories
//! are sources, and of which kind.

use crate::config::Config;
use crate::error::Error;
use crate::paths::join;
use crate::paths::joined;
use crate::paths::relative;
use crate::paths::strip_root;
use crate::text::ends_with;
use crate::text::has_suffix;
use vstd::prelude::*;
use vstd::string::StrSliceExecFns;
use vstd::string::StringExecFns;

verus! {

/// What a source is for.
#[derive(Clone, Copy, Debug, PartialEq, Eq, Structural)]
pub enum SourceKind {
    /// Declarations only: symbols that are defined elsewhere.
    Definition,
    /// Code that runs.
    Script,
}

/// One source file of a project, read and classified.
#[derive(Clone, Debug)]
pub struct Source {
    pub kind: SourceKind,
    /// The path of the file, relative to the root.
    pub origin: String,
    /// The project root.
    pub root: String,
    /// The text of the file.
    pub contents: String,
}

/// A source as its texts.
pub struct SourceView {
    pub kind: SourceKind,
    pub origin: Seq<char>,
    pub root: Seq<char>,
    pub contents: Seq<char>,
}

impl View for Source {
    type V = SourceView;

    open spec fn view(&self) -> SourceView {
        SourceView {
            kind: self.kind,
            origin: self.origin@,
            root: self.root@,
            contents: self.contents@,
        }
    }
}

impl Source {
    /// The source of kind `kind` at `origin` under `root`, with `contents`.
    pub fn new(kind: SourceKind, root: String, origin: String, contents: String) -> (source:
        Source)
        ensures
            source.kind == kind,
            source.root == root,
            source.origin == origin,
            source.contents == contents,
    {
        Source { kind, origin, root, contents }
    }
}

/// A source file that was found and classified, and is still to be read.
#[derive(Clone, Debug)]
pub struct SourceFile {
    pub kind: SourceKind,
    /// The path of the file, relative to the root.
    pub origin: String,
}

/// A found file as its text.
pub struct SourceFileView {
    pub kind: SourceKind,
    pub origin: Seq<char>,
}

impl View for SourceFile {
    type V = SourceFileView;

    open spec fn view(&self) -> SourceFileView {
        SourceFileView { kind: self.kind, origin: self.origin@ }
    }
}

/// One entry that a walk through a directory came across.
#[derive(Clone, Debug)]
pub struct DirEntry {
    /// The path of the entry, as the walk gives it.
    pub path: String,
    /// Whether the entry is a regular file.
    pub is_file: bool,
}

/// An entry as its text.
pub struct DirEntryView {
    pub path: Seq<char>,
    pub is_file: bool,
}

impl View for DirEntry {
    type V = DirEntryView;

    open spec fn view(&self) -> DirEntryView {
        DirEntryView { path: self.path@, is_file: self.is_file }
    }
}

/// What came of walking one directory.
#[derive(Clone, Debug)]
pub enum Listing {
    /// Nothing is there, or what is there is no directory.
    NotADirectory,
    /// The walk broke off; the text says why.
    Failed(String),
    /// Everything below the directory, in the order of the walk.
    Entries(Vec<DirEntry>),
}

/// A listing as its texts.
pub enum ListingView {
    NotADirectory,
    Failed(Seq<char>),
    Entries(Seq<DirEntryView>),
}

impl View for Listing {
    type V = ListingView;

    open spec fn view(&self) -> ListingView {
        match self {
            Listing::NotADirectory => ListingView::NotADirectory,
            Listing::Failed(reason) => ListingView::Failed(reason@),
            Listing::Entries(entries) => ListingView::Entries(
                entries@.map_values(|entry: DirEntry| entry@),
            ),
        }
    }
}

/// A path names a source when it ends in `.ara` and the file name has
/// something in front of that.
pub open spec fn is_source_path(path: Seq<char>) -> bool {
    &&& ends_with(path, ".ara"@)
    &&& path.len() > ".ara"@.len()
    &&& path[path.len() - ".ara"@.len() - 1] != '/'
}

/// A source path names a definition when it ends in `.d.ara`; every other
/// source is a script.
pub open spec fn kind_of(path: Seq<char>) -> SourceKind {
    if ends_with(path, ".d.ara"@) {
        SourceKind::Definition
    } else {
        SourceKind::Script
    }
}

/// The origin of the file at `path`: the path relative to `root`, or the
/// path itself where it does not lie under `root`.
pub open spec fn origin_of(root: Seq<char>, path: Seq<char>) -> Seq<char> {
    match relative(root, path) {
        Some(origin) => origin,
        None => path,
    }
}

/// An entry is taken when it is a regular file with a source path.
pub open spec fn accepts(entry: DirEntryView) -> bool {
    entry.is_file && is_source_path(entry.path)
}

/// The file that the entry at `path` becomes.
pub open spec fn file_of(root: Seq<char>, path: Seq<char>) -> SourceFileView {
    SourceFileView { kind: kind_of(path), origin: origin_of(root, path) }
}

/// The files taken from one listing: each accepted entry, classified, in
/// the order of the listing.
pub open spec fn selected(root: Seq<char>, entries: Seq<DirEntryView>) -> Seq<SourceFileView>
    decreases entries.len(),
{
    if entries.len() == 0 {
        Seq::empty()
    } else if accepts(entries.last()) {
        selected(root, entries.drop_last()).push(file_of(root, entries.last().path))
    } else {
        selected(root, entries.drop_last())
    }
}

/// The entries that are taken.
pub open spec fn taken() -> spec_fn(DirEntryView) -> bool {
    |entry: DirEntryView| accepts(entry)
}

/// The entries that are taken as sources of kind `kind`.
pub open spec fn taken_as(kind: SourceKind) -> spec_fn(DirEntryView) -> bool {
    |entry: DirEntryView| accepts(entry) && kind_of(entry.path) == kind
}

/// The files of kind `kind`.
pub open spec fn of_kind(kind: SourceKind) -> spec_fn(SourceFileView) -> bool {
    |file: SourceFileView| file.kind == kind
}

/// One file is taken for each regular file with a source path, and no
/// other: as many files as the listing has such entries, as many
/// definitions as it has such entries ending in `.d.ara`, and scripts for
/// the rest.
pub proof fn lemma_one_file_for_each_source(root: Seq<char>, entries: Seq<DirEntryView>)
    ensures
        selected(root, entries).len() == entries.filter(taken()).len(),
        selected(root, entries).filter(of_kind(SourceKind::Definition)).len() == entries.filter(
            taken_as(SourceKind::Definition),
        ).len(),
        selected(root, entries).filter(of_kind(SourceKind::Script)).len() == entries.filter(
            taken_as(SourceKind::Script),
        ).len(),
        entries.filter(taken_as(SourceKind::Definition)).len() + entries.filter(
            taken_as(SourceKind::Script),
        ).len() == entries.filter(taken()).len(),
    decreases entries.len(),
{
    reveal(Seq::filter);
    if entries.len() > 0 {
        lemma_one_file_for_each_source(root, entries.drop_last());
        let files = selected(root, entries);
        if accepts(entries.last()) {
            assert(files.drop_last() =~= selected(root, entries.drop_last()));
            assert(files.last() == file_of(root, entries.last().path));
        }
    }
}

/// What a collection comes to.
pub enum Collected {
    /// Every directory was walked; these are the files taken, in order.
    Files(Seq<SourceFileView>),
    /// This directory is none.
    InvalidPath(Seq<char>),
    /// A walk broke off for this reason.
    Failed(Seq<char>),
}

/// The collection over `directories`, of which the i-th was listed as
/// `listings[i]`. A directory without a listing counts as not being one. The
/// first directory, in order, that is none or whose walk broke off decides
/// the failure; the files of the directories before it are dropped.
pub open spec fn collected(
    root: Seq<char>,
    directories: Seq<Seq<char>>,
    listings: Seq<ListingView>,
) -> Collected
    decreases directories.len(),
{
    if directories.len() == 0 {
        Collected::Files(Seq::empty())
    } else {
        let last = directories.len() - 1;
        match collected(root, directories.drop_last(), listings) {
            Collected::Files(before) => {
                if last >= listings.len() {
                    Collected::InvalidPath(directories[last])
                } else {
                    match listings[last] {
                        ListingView::NotADirectory => Collected::InvalidPath(directories[last]),
                        ListingView::Failed(reason) => Collected::Failed(reason),
                        ListingView::Entries(entries) => Collected::Files(
                            before + selected(root, entries),
                        ),
                    }
                }
            },
            failure => failure,
        }
    }
}

/// A project with a single directory gives the files taken from its
/// listing.
pub proof fn lemma_collected_from_one_directory(
    root: Seq<char>,
    directory: Seq<char>,
    entries: Seq<DirEntryView>,
)
    ensures
        collected(root, seq![directory], seq![ListingView::Entries(entries)]) == Collected::Files(
            selected(root, entries),
        ),
{
    let directories = seq![directory];
    assert(directories.drop_last() =~= Seq::<Seq<char>>::empty());
    assert(collected(root, directories.drop_last(), seq![ListingView::Entries(entries)])
        == Collected::Files(Seq::empty()));
    assert(Seq::<SourceFileView>::empty() + selected(root, entries) =~= selected(root, entries));
}

/// A source directory that is none ends the collection with `InvalidPath`
/// for it, whatever the definition directories hold.
pub proof fn lemma_missing_source_directory(
    root: Seq<char>,
    directories: Seq<Seq<char>>,
    listings: Seq<ListingView>,
)
    requires
        directories.len() > 0,
        listings.len() == 0 || listings[0] is NotADirectory,
    ensures
        collected(root, directories, listings) == Collected::InvalidPath(directories[0]),
{
    let first = directories.take(1);
    assert(first.drop_last() =~= Seq::<Seq<char>>::empty());
    assert(collected(root, first.drop_last(), listings) == Collected::Files(Seq::empty()));
    assert(first[0] == directories[0]);
    lemma_failure_is_final(root, directories, listings, 1);
}

/// The text of the error for a directory that is none.
pub open spec fn invalid_path_message(directory: Seq<char>) -> Seq<char> {
    directory + " must be a directory and be relative to the project root directory."@
}

/// Tests whether `path` names a source.
pub fn is_source(path: &str) -> (source: bool)
    ensures
        source == is_source_path(path@),
{
    if !has_suffix(path, ".ara") {
        return false;
    }
    let n = path.unicode_len();
    let m = ".ara".unicode_len();
    n > m && path.get_char(n - m - 1) != '/'
}

/// Collects the source files of a project from the listings of its
/// directories.
pub struct SourcesBuilder<'a, H, S> {
    config: &'a Config<H, S>,
}

impl<'a, H, S> SourcesBuilder<'a, H, S> {
    /// The configuration that the builder reads.
    pub closed spec fn config(&self) -> &Config<H, S> {
        self.config
    }

    /// A builder for the project that `config` describes.
    pub fn new(config: &'a Config<H, S>) -> (builder: Self)
        ensures
            builder.config() == config,
    {
        Self { config }
    }

    /// The directories to walk: the source directory first, then the
    /// definition directories in their configured order, each seen from the
    /// root.
    pub open spec fn spec_directories(&self) -> Seq<Seq<char>> {
        seq![joined(self.config().root@, self.config().source@)] + self.config().definitions@.map_values(
            |directory: String| joined(self.config().root@, directory@),
        )
    }

    /// The directories that the caller has to walk, in this order.
    pub fn directories(&self) -> (directories: Vec<String>)
        ensures
            directories@.map_values(|directory: String| directory@) == self.spec_directories(),
    {
        let mut directories: Vec<String> = Vec::new();
        directories.push(join(self.config.root.as_str(), self.config.source.as_str()));
        let mut i: usize = 0;
        while i < self.config.definitions.len()
            invariant
                i <= self.config.definitions@.len(),
                directories@.len() == i + 1,
                directories@[0]@ == joined(self.config.root@, self.config.source@),
                forall|k: int|
                    0 <= k < i ==> (#[trigger] directories@[k + 1])@ == joined(
                        self.config.root@,
                        self.config.definitions@[k]@,
                    ),
            decreases self.config.definitions@.len() - i,
        {
            directories.push(
                join(self.config.root.as_str(), self.config.definitions[i].as_str()),
            );
            i += 1;
        }
        proof {
            let views = directories@.map_values(|directory: String| directory@);
            let expected = self.spec_directories();
            assert(views.len() == expected.len());
            assert forall|k: int| 0 <= k < views.len() implies views[k] == expected[k] by {
                if k > 0 {
                    assert(directories@[(k - 1) + 1]@ == joined(
                        self.config.root@,
                        self.config.definitions@[k - 1]@,
                    ));
                }
            }
            assert(views =~= expected);
        }
        directories
    }

    /// Classifies the file at `path` and names it by its origin.
    pub fn build_source(&self, path: &str) -> (file: SourceFile)
        ensures
            file@ == file_of(self.config().root@, path@),
    {
        let origin = match strip_root(self.config.root.as_str(), path) {
            Some(origin) => origin,
            None => String::from_str(path),
        };
        let kind = if has_suffix(path, ".d.ara") {
            SourceKind::Definition
        } else {
            SourceKind::Script
        };
        SourceFile { kind, origin }
    }

    /// The source that `file` becomes once its contents are read.
    pub fn load(&self, file: SourceFile, contents: String) -> (source: Source)
        ensures
            source.kind == file.kind,
            source.origin == file.origin,
            source.root@ == self.config().root@,
            source.contents == contents,
    {
        Source::new(file.kind, self.config.root.clone(), file.origin, contents)
    }

    /// Takes the source files out of one listing.
    fn select(&self, entries: &Vec<DirEntry>, files: &mut Vec<SourceFile>)
        ensures
            final(files)@.map_values(|file: SourceFile| file@) == old(files)@.map_values(
                |file: SourceFile| file@,
            ) + selected(self.config().root@, entries@.map_values(|entry: DirEntry| entry@)),
    {
        let ghost root = self.config.root@;
        let ghost views = entries@.map_values(|entry: DirEntry| entry@);
        let ghost before = files@.map_values(|file: SourceFile| file@);
        let mut i: usize = 0;
        assert(views.take(0) =~= Seq::<DirEntryView>::empty());
        assert(before + selected(root, views.take(0)) =~= before);
        while i < entries.len()
            invariant
                i <= entries@.len(),
                root == self.config.root@,
                views == entries@.map_values(|entry: DirEntry| entry@),
                files@.map_values(|file: SourceFile| file@) == before + selected(
                    root,
                    views.take(i as int),
                ),
            decreases entries@.len() - i,
        {
            let entry = &entries[i];
            proof {
                let next = views.take(i + 1);
                assert(next.drop_last() =~= views.take(i as int));
                assert(next.last() == entry@);
            }
            if entry.is_file && is_source(entry.path.as_str()) {
                let file = self.build_source(entry.path.as_str());
                let ghost pushed = files@.map_values(|file: SourceFile| file@).push(file@);
                files.push(file);
                proof {
                    assert(files@.map_values(|file: SourceFile| file@) =~= pushed);
                    assert(pushed =~= before + selected(root, views.take(i + 1)));
                }
            }
            i += 1;
        }
        assert(views.take(entries@.len() as int) =~= views);
    }

    /// Collects the source files from `listings`, of which the i-th is what
    /// came of walking the i-th of `directories()`.
    ///
    /// A directory that is none, or has no listing, gives `InvalidPath`; a
    /// walk that broke off gives `IoError` with its reason. The first such
    /// directory decides.
    pub fn build(&self, listings: &Vec<Listing>) -> (files: Result<Vec<SourceFile>, Error>)
        ensures
            match collected(
                self.config().root@,
                self.spec_directories(),
                listings@.map_values(|listing: Listing| listing@),
            ) {
                Collected::Files(expected) => files matches Ok(found) && found@.map_values(
                    |file: SourceFile| file@,
                ) == expected,
                Collected::InvalidPath(directory) => files matches Err(Error::InvalidPath(message))
                    && message@ == invalid_path_message(directory),
                Collected::Failed(reason) => files matches Err(Error::IoError(message))
                    && message@ == reason,
            },
    {
        let directories = self.directories();
        let ghost root = self.config.root@;
        let ghost names = self.spec_directories();
        let ghost views = listings@.map_values(|listing: Listing| listing@);
        let mut files: Vec<SourceFile> = Vec::new();
        let mut i: usize = 0;
        assert(names.take(0) =~= Seq::<Seq<char>>::empty());
        assert(files@.map_values(|file: SourceFile| file@) =~= Seq::<SourceFileView>::empty());
        while i < directories.len()
            invariant
                i <= directories@.len(),
                root == self.config.root@,
                names == self.spec_directories(),
                names == directories@.map_values(|directory: String| directory@),
                views == listings@.map_values(|listing: Listing| listing@),
                collected(root, names.take(i as int), views) == Collected::Files(
                    files@.map_values(|file: SourceFile| file@),
                ),
            decreases directories@.len() - i,
        {
            proof {
                let next = names.take(i + 1);
                assert(next.drop_last() =~= names.take(i as int));
                assert(next[i as int] == directories@[i as int]@);
            }
            if i >= listings.len() {
                proof {
                    lemma_failure_is_final(root, names, views, i + 1);
                }
                return Err(Error::InvalidPath(invalid_path(directories[i].as_str())));
            }
            match &listings[i] {
                Listing::NotADirectory => {
                    proof {
                        lemma_failure_is_final(root, names, views, i + 1);
                    }
                    return Err(Error::InvalidPath(invalid_path(directories[i].as_str())));
                },
                Listing::Failed(reason) => {
                    proof {
                        lemma_failure_is_final(root, names, views, i + 1);
                    }
                    return Err(Error::IoError(reason.clone()));
                },
                Listing::Entries(entries) => {
                    self.select(entries, &mut files);
                },
            }
            i += 1;
        }
        assert(names.take(directories@.len() as int) =~= names);
        Ok(files)
    }
}

/// Builds the text of the error for a directory that is none.
fn invalid_path(directory: &str) -> (message: String)
    ensures
        message@ == invalid_path_message(directory@),
{
    String::from_str(directory).concat(
        " must be a directory and be relative to the project root directory.",
    )
}

/// Once a directory has decided the failure, the directories after it do
/// not change it.
pub proof fn lemma_failure_is_final(
    root: Seq<char>,
    directories: Seq<Seq<char>>,
    listings: Seq<ListingView>,
    upto: int,
)
    requires
        0 <= upto <= directories.len(),
        !(collected(root, directories.take(upto), listings) is Files),
    ensures
        collected(root, directories, listings) == collected(root, directories.take(upto), listings),
    decreases directories.len() - upto,
{
    if upto == directories.len() {
        assert(directories.take(upto) =~= directories);
    } else {
        let next = directories.take(upto + 1);
        assert(next.drop_last() =~= directories.take(upto));
        lemma_failure_is_final(root, directories, listings, upto + 1);
    }
}

} // verus!
