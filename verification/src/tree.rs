//! Trees, signed trees, and the cache protocol that builds them.
//!
//! A tree is built in steps. Each step is a decision of the builder; between
//! two steps the caller reads or writes the cache file that the step names
//! and reports how that went.

use crate::config::Config;
use crate::error::Error;
use crate::error::ErrorView;
use crate::hash::ContentHasher;
use crate::paths::join;
use crate::paths::joined;
use crate::serializer::Serializer;
use crate::source::Source;
use crate::source::SourceKind;
use crate::source::SourceView;
use crate::text::decimal;
use crate::text::push_decimal;
use ara_parser::tree::Tree;
use ara_reporting::Report;
use vstd::prelude::*;
use vstd::string::StringExecFns;

verus! {

/// The syntax tree of one source, as the parsing engine made it. Nothing
/// here looks inside it: trees are moved, stored and handed back.
#[verifier::external_type_specification]
#[verifier::external_body]
pub struct ExTree(Tree);

/// A tree together with the hash of the contents it was parsed from: the
/// record that a cache entry holds.
#[derive(Debug, Hash)]
pub struct SignedTree {
    pub signature: u64,
    pub tree: Tree,
}

impl SignedTree {
    /// Signs `tree` with `signature`.
    pub fn new(signature: u64, tree: Tree) -> (signed: SignedTree)
        ensures
            signed.signature == signature,
            signed.tree == tree,
    {
        SignedTree { signature, tree }
    }
}

/// What the parsing engine makes of the text `contents` that it knows as
/// `origin`: a tree, or the report of what is wrong with the text.
pub uninterp spec fn parse_outcome(origin: Seq<char>, contents: Seq<char>) -> Result<
    Tree,
    Box<Report>,
>;

/// Calls `ara_parser::parser::parse` on the source, handed over under its
/// origin and with its contents.
///
/// Trusted: the engine reads the origin and the contents and nothing else,
/// and its outcome is the one named by `parse_outcome`.
///
/// The engine descends once for each level that the text nests, and counts
/// no levels itself. A text that nests deeper than the stack of the calling
/// thread allows exhausts it, and the process ends as it does when memory
/// runs out; the contract leaves that aside.
#[verifier::external_body]
fn parse_source(source: &Source) -> (outcome: Result<Tree, Box<Report>>)
    ensures
        outcome == parse_outcome(source.origin@, source.contents@),
{
    let kind = match source.kind {
        SourceKind::Definition => ara_source::source::SourceKind::Definition,
        SourceKind::Script => ara_source::source::SourceKind::Script,
    };
    let origin = source.origin.as_str();
    let contents = source.contents.as_str();
    ara_parser::parser::parse(&ara_source::source::Source::new(kind, origin, contents))
}

/// What the builder decides next.
#[derive(Debug)]
pub enum Step {
    /// The tree is built.
    Done(Tree),
    /// The build failed; the run ends with this error.
    Failed(Error),
    /// Read the cache file at `path` and go on with `resume`.
    ReadCache { path: String },
    /// Write `bytes` to the cache file at `path`, replacing what is there,
    /// and go on with `conclude`, handing `tree` back. `miss` says why the
    /// cache had no tree to offer: `IoError` where the file could not be
    /// read, `DeserializeError` where it holds no entry, `CacheMiss` where
    /// the entry was signed for other contents.
    WriteCache { path: String, bytes: Vec<u8>, tree: Tree, miss: Error },
}

/// A step as its texts.
pub enum StepView {
    Done(Tree),
    Failed(ErrorView),
    ReadCache { path: Seq<char> },
    WriteCache { path: Seq<char>, bytes: Seq<u8>, tree: Tree, miss: ErrorView },
}

impl View for Step {
    type V = StepView;

    open spec fn view(&self) -> StepView {
        match self {
            Step::Done(tree) => StepView::Done(*tree),
            Step::Failed(error) => StepView::Failed(error@),
            Step::ReadCache { path } => StepView::ReadCache { path: path@ },
            Step::WriteCache { path, bytes, tree, miss } => StepView::WriteCache {
                path: path@,
                bytes: bytes@,
                tree: *tree,
                miss: miss@,
            },
        }
    }
}

/// How reading a file went, as its texts.
pub open spec fn read_view(read: Result<Vec<u8>, String>) -> Result<Seq<u8>, Seq<char>> {
    match read {
        Ok(bytes) => Ok(bytes@),
        Err(reason) => Err(reason@),
    }
}

/// The name of the cache file for the key `key`: the decimal numeral of the
/// key, then `.ara.cache`.
pub open spec fn cache_file_name(key: u64) -> Seq<char> {
    decimal(key as nat) + ".ara.cache"@
}

/// What parsing a source comes to: the tree of the parsing engine, or
/// `ParseError` with its report.
pub open spec fn parsed(source: SourceView) -> Result<Tree, ErrorView> {
    match parse_outcome(source.origin, source.contents) {
        Ok(tree) => Ok(tree),
        Err(report) => Err(ErrorView::ParseError(*report)),
    }
}

/// The step that parsing leads to where nothing is cached.
pub open spec fn direct(outcome: Result<Tree, ErrorView>) -> StepView {
    match outcome {
        Ok(tree) => StepView::Done(tree),
        Err(error) => StepView::Failed(error),
    }
}

/// Builds the tree of one source at a time, from the cache where the cache
/// holds a tree for the source's present contents.
pub struct TreeBuilder<'a, H, S> {
    config: &'a Config<H, S>,
}

impl<'a, H: ContentHasher, S: Serializer> TreeBuilder<'a, H, S> {
    /// The configuration that the builder reads.
    pub closed spec fn config(&self) -> &Config<H, S> {
        self.config
    }

    /// A builder for the project that `config` describes.
    pub fn new(config: &'a Config<H, S>) -> (builder: Self)
        ensures
            builder.config() == config,
    {
        Self { config }
    }

    /// The key of a source's cache entry: the hash of its origin.
    pub open spec fn cache_key(&self, source: SourceView) -> u64 {
        self.config().hasher.digest(source.origin)
    }

    /// The signature of a source: the hash of its contents.
    pub open spec fn signature(&self, source: SourceView) -> u64 {
        self.config().hasher.digest(source.contents)
    }

    /// The path of a source's cache entry, where trees are cached: the file
    /// named after the key, in the cache directory.
    pub open spec fn entry_path(&self, source: SourceView) -> Option<Seq<char>> {
        match self.config().cache {
            Some(directory) => Some(joined(directory@, cache_file_name(self.cache_key(source)))),
            None => None,
        }
    }

    /// What a lookup finds: the tree of the entry, where the file could be
    /// read, holds an entry, and the entry is signed for the source's
    /// present contents.
    pub open spec fn lookup(&self, source: SourceView, read: Result<Seq<u8>, Seq<char>>) -> Result<
        Tree,
        ErrorView,
    > {
        match read {
            Err(reason) => Err(ErrorView::IoError(reason)),
            Ok(bytes) => match self.config().serializer.decoding(bytes) {
                None => Err(ErrorView::DeserializeError),
                Some(entry) => if entry.signature == self.signature(source) {
                    Ok(entry.tree)
                } else {
                    Err(ErrorView::CacheMiss)
                },
            },
        }
    }

    /// The entry that is written for a source and its tree.
    pub open spec fn entry_of(&self, source: SourceView, tree: Tree) -> SignedTree {
        SignedTree { signature: self.signature(source), tree }
    }

    /// What a miss leads to, where trees are cached: the source is parsed,
    /// and its tree is to be written under its present signature.
    pub open spec fn reparsed(&self, source: SourceView, miss: ErrorView) -> StepView {
        match parsed(source) {
            Err(error) => StepView::Failed(error),
            Ok(tree) => match self.config().serializer.encoding(self.entry_of(source, tree)) {
                None => StepView::Failed(ErrorView::SerializeError),
                Some(bytes) => StepView::WriteCache {
                    path: self.entry_path(source).unwrap(),
                    bytes,
                    tree,
                    miss,
                },
            },
        }
    }

    /// The first step for a source.
    pub open spec fn first_step(&self, source: SourceView) -> StepView {
        match self.entry_path(source) {
            None => direct(parsed(source)),
            Some(path) => StepView::ReadCache { path },
        }
    }

    /// The step after the cache file was read, or could not be.
    pub open spec fn next_step(
        &self,
        source: SourceView,
        read: Result<Seq<u8>, Seq<char>>,
    ) -> StepView {
        if self.config().cache is None {
            direct(parsed(source))
        } else {
            match self.lookup(source, read) {
                Ok(tree) => StepView::Done(tree),
                Err(miss) => self.reparsed(source, miss),
            }
        }
    }

    /// Without a cache directory the builder asks for no file to be read or
    /// written: every step is the outcome of the parsing engine, its tree
    /// or its report, unchanged, whatever the caller reports.
    pub proof fn lemma_uncached_build_is_the_parse(
        &self,
        source: SourceView,
        read: Result<Seq<u8>, Seq<char>>,
    )
        requires
            self.config().cache is None,
        ensures
            self.first_step(source) == direct(parsed(source)),
            self.next_step(source, read) == direct(parsed(source)),
            !(self.first_step(source) is ReadCache),
            !(self.first_step(source) is WriteCache),
            !(self.next_step(source, read) is ReadCache),
            !(self.next_step(source, read) is WriteCache),
    {
    }

    /// With a cache directory the first step reads the entry of the source:
    /// the file named after the hash of its origin.
    pub proof fn lemma_cached_build_reads_first(&self, source: SourceView)
        requires
            self.config().cache is Some,
        ensures
            self.first_step(source) == (StepView::ReadCache {
                path: joined(
                    self.config().cache->0@,
                    cache_file_name(self.config().hasher.digest(source.origin)),
                ),
            }),
    {
    }

    /// The tree of a cache entry is only ever handed out for contents that
    /// hash to the entry's signature: a build that ends without the parsing
    /// engine read an entry signed with the hash of the source's contents,
    /// and its tree is the tree of that entry.
    pub proof fn lemma_hit_is_signed(&self, source: SourceView, bytes: Seq<u8>)
        requires
            self.config().cache is Some,
        ensures
            self.lookup(source, Ok(bytes)) matches Ok(tree) ==> self.config().serializer.decoding(
                bytes,
            ) == Some(SignedTree { signature: self.config().hasher.digest(source.contents), tree })
                && self.next_step(source, Ok(bytes)) == StepView::Done(tree),
            self.lookup(source, Ok(bytes)) matches Err(miss) ==> self.next_step(source, Ok(bytes))
                == self.reparsed(source, miss),
    {
    }

    /// Round trip. What a build hands out to be written is the entry of the
    /// source: it goes to the file named after the hash of the origin, and
    /// read back from there it is signed with the hash of the contents and
    /// holds the tree of a direct parse of them.
    pub proof fn lemma_written_entry_reads_back(
        &self,
        source: SourceView,
        read: Result<Seq<u8>, Seq<char>>,
    )
        requires
            self.next_step(source, read) is WriteCache,
        ensures
            self.config().cache is Some,
            self.next_step(source, read)->WriteCache_path == self.entry_path(source)->0,
            parsed(source) == Ok::<Tree, ErrorView>(self.next_step(source, read)->WriteCache_tree),
            self.config().serializer.decoding(self.next_step(source, read)->WriteCache_bytes)
                == Some(
                SignedTree {
                    signature: self.config().hasher.digest(source.contents),
                    tree: self.next_step(source, read)->WriteCache_tree,
                },
            ),
    {
        let tree = parsed(source)->Ok_0;
        self.config().serializer.lemma_reads_what_it_wrote(self.entry_of(source, tree));
    }

    /// After a build the cache holds the tree that was built, signed for the
    /// contents of the source. Whatever the cache file held before, a build
    /// of a source that parses either ends with the tree of an entry that
    /// is signed with the hash of the contents, or hands out bytes that read
    /// back as the tree of a direct parse, signed with that hash, for the
    /// file named after the hash of the origin. The one other end is
    /// `SerializeError`, where the serializer cannot write the entry.
    pub proof fn lemma_build_leaves_a_signed_entry(
        &self,
        source: SourceView,
        read: Result<Seq<u8>, Seq<char>>,
    )
        requires
            self.config().cache is Some,
            parsed(source) is Ok,
        ensures
            match self.next_step(source, read) {
                StepView::Done(found) => read matches Ok(bytes)
                    && self.config().serializer.decoding(bytes) == Some(
                    SignedTree { signature: self.config().hasher.digest(source.contents), tree: found },
                ),
                StepView::WriteCache { path, bytes, tree, miss } => {
                    &&& parsed(source) == Ok::<Tree, ErrorView>(tree)
                    &&& path == self.entry_path(source)->0
                    &&& self.config().serializer.decoding(bytes) == Some(
                        SignedTree { signature: self.config().hasher.digest(source.contents), tree },
                    )
                },
                StepView::Failed(error) => error == ErrorView::SerializeError
                    && self.config().serializer.encoding(
                    self.entry_of(source, parsed(source)->Ok_0),
                ) is None,
                StepView::ReadCache { path } => false,
            },
    {
        self.config().serializer.lemma_reads_what_it_wrote(
            self.entry_of(source, parsed(source)->Ok_0),
        );
    }

    /// A second build parses nothing. Once the entry that a build handed
    /// out is in the cache file, a build of the same source, with the same
    /// contents, ends with the tree of the first and does not go to the
    /// parsing engine or ask for anything to be written.
    pub proof fn lemma_second_build_is_a_hit(
        &self,
        source: SourceView,
        read: Result<Seq<u8>, Seq<char>>,
    )
        requires
            self.next_step(source, read) is WriteCache,
        ensures
            self.first_step(source) == (StepView::ReadCache {
                path: self.next_step(source, read)->WriteCache_path,
            }),
            self.next_step(source, Ok(self.next_step(source, read)->WriteCache_bytes))
                == StepView::Done(self.next_step(source, read)->WriteCache_tree),
    {
        self.lemma_written_entry_reads_back(source, read);
    }

    /// Every build of a source that parses, whatever its cache file held,
    /// ends with a tree or with an entry to write, unless the serializer
    /// cannot write the entry: an entry that is absent, damaged or stale
    /// never ends a build, and neither `CacheMiss` nor `DeserializeError`
    /// reaches the caller.
    pub proof fn lemma_misses_are_not_errors(
        &self,
        source: SourceView,
        read: Result<Seq<u8>, Seq<char>>,
    )
        requires
            self.config().cache is Some,
        ensures
            match self.next_step(source, read) {
                StepView::Done(tree) => self.lookup(source, read) == Ok::<Tree, ErrorView>(tree),
                StepView::WriteCache { path, bytes, tree, miss } => parsed(source) == Ok::<
                    Tree,
                    ErrorView,
                >(tree) && self.lookup(source, read) == Err::<Tree, ErrorView>(miss),
                StepView::Failed(error) => error == ErrorView::SerializeError || parsed(source)
                    == Err::<Tree, ErrorView>(error),
                StepView::ReadCache { path } => false,
            },
            parsed(source) matches Err(error) ==> !(error is CacheMiss) && !(error
                is DeserializeError),
    {
    }

    /// Invalidation. An entry that was signed for other contents than the
    /// source has now is not used: the source is parsed again, and what is
    /// handed out to be written, to the same file, reads back as the tree
    /// of the present contents, signed with their hash. `before` and `now`
    /// are the source at the time of the entry and at the time of the
    /// build; the law speaks of contents whose hashes differ.
    pub proof fn lemma_stale_entry_is_replaced(
        &self,
        before: SourceView,
        now: SourceView,
        bytes: Seq<u8>,
    )
        requires
            self.config().cache is Some,
            before.origin == now.origin,
            self.config().serializer.decoding(bytes) matches Some(entry) && entry.signature
                == self.signature(before),
            self.signature(now) != self.signature(before),
        ensures
            self.lookup(now, Ok(bytes)) == Err::<Tree, ErrorView>(ErrorView::CacheMiss),
            self.next_step(now, Ok(bytes)) == self.reparsed(now, ErrorView::CacheMiss),
            !(self.next_step(now, Ok(bytes)) is Done),
            self.entry_path(now) == self.entry_path(before),
            match parsed(now) {
                Err(error) => self.next_step(now, Ok(bytes)) == StepView::Failed(error),
                Ok(tree) => match self.next_step(now, Ok(bytes)) {
                    StepView::WriteCache { path, bytes: written, tree: built, miss } => {
                        &&& miss == ErrorView::CacheMiss
                        &&& path == self.entry_path(before)->0
                        &&& built == tree
                        &&& self.config().serializer.decoding(written) == Some(
                            SignedTree { signature: self.signature(now), tree },
                        )
                    },
                    StepView::Failed(error) => error == ErrorView::SerializeError
                        && self.config().serializer.encoding(
                        SignedTree { signature: self.signature(now), tree },
                    ) is None,
                    _ => false,
                },
            },
    {
        if let Ok(tree) = parsed(now) {
            self.config().serializer.lemma_reads_what_it_wrote(self.entry_of(now, tree));
        }
    }

    /// Parses `source`: the tree of the parsing engine, or `ParseError` with
    /// its report, unchanged.
    ///
    /// The engine needs stack for each level that a text nests; a caller
    /// that expects deeply nested texts runs on a thread with a generous
    /// stack.
    pub fn parse(source: &Source) -> (tree: Result<Tree, Error>)
        ensures
            match parsed(source@) {
                Ok(expected) => tree == Ok::<Tree, Error>(expected),
                Err(expected) => tree matches Err(error) && error@ == expected,
            },
    {
        match parse_source(source) {
            Ok(tree) => Ok(tree),
            Err(report) => Err(Error::ParseError(report)),
        }
    }

    /// The path of the cache file for `source`; `None` where nothing is
    /// cached.
    pub fn get_cached_file_path(&self, source: &Source) -> (path: Option<String>)
        ensures
            match self.entry_path(source@) {
                Some(expected) => path matches Some(found) && found@ == expected,
                None => path is None,
            },
    {
        match &self.config.cache {
            None => None,
            Some(directory) => {
                let key = self.config.hasher.hash(source.origin.as_str());
                let mut name = String::new();
                push_decimal(&mut name, key);
                name.append(".ara.cache");
                assert(name@ =~= cache_file_name(key));
                Some(join(directory.as_str(), name.as_str()))
            },
        }
    }

    /// Looks the tree of `source` up in what was read from its cache file.
    ///
    /// The tree of the entry is returned where the entry is signed with the
    /// hash of the source's contents. Otherwise the error says why there is
    /// no tree: `IoError` where the file could not be read, with the reason
    /// given; `DeserializeError` where it holds no entry; `CacheMiss` where
    /// the entry was signed for other contents.
    pub fn get_from_cache(&self, source: &Source, read: Result<Vec<u8>, String>) -> (tree: Result<
        Tree,
        Error,
    >)
        ensures
            match self.lookup(source@, read_view(read)) {
                Ok(found) => tree == Ok::<Tree, Error>(found),
                Err(expected) => tree matches Err(error) && error@ == expected,
            },
    {
        let bytes = match read {
            Ok(bytes) => bytes,
            Err(reason) => {
                return Err(Error::IoError(reason));
            },
        };
        let entry = match self.config.serializer.deserialize(bytes.as_slice()) {
            Ok(entry) => entry,
            Err(error) => {
                return Err(error);
            },
        };
        if entry.signature != self.config.hasher.hash(source.contents.as_str()) {
            return Err(Error::CacheMiss);
        }
        Ok(entry.tree)
    }

    /// Signs `tree` with the hash of the contents of `source` and encodes
    /// the entry. Returns the bytes to write to the cache file, and the tree.
    pub fn save_to_cache(&self, source: &Source, tree: Tree) -> (saved: Result<
        (Vec<u8>, Tree),
        Error,
    >)
        ensures
            match self.config().serializer.encoding(self.entry_of(source@, tree)) {
                Some(bytes) => saved matches Ok(pair) && pair.0@ == bytes && pair.1 == tree,
                None => saved matches Err(error) && error@ == ErrorView::SerializeError,
            },
    {
        let entry = SignedTree::new(self.config.hasher.hash(source.contents.as_str()), tree);
        match self.config.serializer.serialize(&entry) {
            Ok(bytes) => Ok((bytes, entry.tree)),
            Err(error) => Err(error),
        }
    }

    /// Parses `source` and prepares its cache entry.
    fn reparse(&self, source: &Source, miss: Error) -> (step: Step)
        requires
            self.config().cache is Some,
        ensures
            step@ == self.reparsed(source@, miss@),
    {
        match Self::parse(source) {
            Err(error) => Step::Failed(error),
            Ok(tree) => match self.save_to_cache(source, tree) {
                Err(error) => Step::Failed(error),
                Ok((bytes, tree)) => match self.get_cached_file_path(source) {
                    Some(path) => Step::WriteCache { path, bytes, tree, miss },
                    None => Step::Done(tree),
                },
            },
        }
    }

    /// Parses `source` where nothing is cached.
    fn parse_directly(source: &Source) -> (step: Step)
        ensures
            step@ == direct(parsed(source@)),
    {
        match Self::parse(source) {
            Ok(tree) => Step::Done(tree),
            Err(error) => Step::Failed(error),
        }
    }

    /// Begins to build the tree of `source`.
    ///
    /// Where nothing is cached the source is parsed and the step is the
    /// engine's outcome: `Done` with its tree or `Failed` with its report.
    /// Where trees are cached the step is `ReadCache`, for the file named
    /// after the hash of the source's origin.
    pub fn build(&self, source: &Source) -> (step: Step)
        ensures
            step@ == self.first_step(source@),
    {
        match self.get_cached_file_path(source) {
            None => Self::parse_directly(source),
            Some(path) => Step::ReadCache { path },
        }
    }

    /// Goes on after the cache file was read: `read` holds its bytes, or the
    /// reason why there are none.
    ///
    /// Where the bytes hold an entry signed with the hash of the source's
    /// contents, the step is `Done` with the tree of the entry, and the
    /// source is not parsed. In every other case the source is parsed; a
    /// report ends the build, a tree is signed, encoded and handed out in
    /// `WriteCache`, together with the reason why the cache had none. Where
    /// nothing is cached `read` is not looked at.
    pub fn resume(&self, source: &Source, read: Result<Vec<u8>, String>) -> (step: Step)
        ensures
            step@ == self.next_step(source@, read_view(read)),
    {
        if self.config.cache.is_none() {
            return Self::parse_directly(source);
        }
        match self.get_from_cache(source, read) {
            Ok(tree) => Step::Done(tree),
            Err(miss) => self.reparse(source, miss),
        }
    }

    /// Ends the build after the cache file was written: with the tree, or
    /// with `IoError` and the reason why the write failed.
    pub fn conclude(&self, tree: Tree, written: Result<(), String>) -> (built: Result<Tree, Error>)
        ensures
            match written {
                Ok(_) => built == Ok::<Tree, Error>(tree),
                Err(reason) => built matches Err(error) && error@ == ErrorView::IoError(reason@),
            },
    {
        match written {
            Ok(_) => Ok(tree),
            Err(reason) => Err(Error::IoError(reason)),
        }
    }
}

} // verus!
