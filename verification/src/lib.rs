//! Source loading and tree caching for Ara projects.
//!
//! The library decides; the caller touches the disk and starts the threads.
//! Every function here takes what was found on the file system as plain
//! values and answers with what has to be read, parsed, written or reported
//! next. A run goes through `Parser`: the directories to walk come from
//! `SourcesBuilder`, the share of each worker from `Parser::plan`, each tree
//! from the steps of `TreeBuilder`, and `Parser::parse` puts the forest
//! together.

use crate::config::Config;
use crate::config::LogLevel;
use crate::error::Error;
use crate::hash::ContentHasher;
use crate::schedule::gathered;
use crate::schedule::lemma_index_alignment;
use crate::schedule::output_views;
use crate::schedule::outputs_of;
use crate::schedule::partition;
use crate::schedule::reassemble;
use crate::schedule::reassembled;
use crate::schedule::slices;
use crate::schedule::Slice;
use crate::serializer::Serializer;
use crate::source::Source;
use crate::tree::TreeBuilder;
use ara_parser::tree::Tree;
use vstd::prelude::*;

pub mod config;
pub mod error;
pub mod hash;
pub mod paths;
pub mod schedule;
pub mod serializer;
pub mod source;
pub mod text;
pub mod tree;

verus! {

/// The sources of a project and their trees: the tree at an index belongs
/// to the source at that index.
#[derive(Debug)]
pub struct Forest {
    pub sources: Vec<Source>,
    pub trees: Vec<Tree>,
}

impl Forest {
    /// There is one tree for each source.
    pub open spec fn aligned(&self) -> bool {
        self.sources@.len() == self.trees@.len()
    }

    /// The forest of `sources` and `trees`.
    pub fn new(sources: Vec<Source>, trees: Vec<Tree>) -> (forest: Forest)
        ensures
            forest.sources == sources,
            forest.trees == trees,
    {
        Forest { sources, trees }
    }
}

/// How many workers run for `files` sources when at most `threads` may:
/// never more than there are sources, and one where there are sources and
/// no thread was allowed.
pub open spec fn worker_count(threads: nat, files: nat) -> nat {
    if files == 0 {
        0
    } else if threads == 0 {
        1
    } else if threads > files {
        files
    } else {
        threads
    }
}

/// The shares of the workers for `files` sources when at most `threads`
/// workers may run; no shares where there are no sources.
pub open spec fn planned(threads: nat, files: nat) -> Seq<Slice> {
    if files == 0 {
        Seq::empty()
    } else {
        slices(files, worker_count(threads, files))
    }
}

/// A run is aligned, however many threads it may use. When the outcomes of
/// the sources, in source order, are `results`, and each worker of the plan
/// hands in the gathered outcomes of its slice, the outputs put together
/// are the trees of all sources in source order or the first error in
/// source order, and a forest of the sources and those trees has the tree
/// of each source at the index of the source.
pub proof fn lemma_planned_run_is_aligned(
    sources: Seq<Source>,
    results: Seq<Result<Tree, Error>>,
    threads: nat,
)
    requires
        results.len() == sources.len(),
    ensures
        planned(threads, sources.len()).len() == worker_count(threads, sources.len()),
        reassembled(outputs_of(results, worker_count(threads, sources.len()))) == gathered(
            results,
        ),
        forall|forest: Forest|
            gathered(results) matches Ok(trees) && forest.sources@ == sources && forest.trees@
                == trees ==> forest.aligned() && forall|i: int|
                0 <= i < sources.len() ==> results[i] == Ok::<Tree, Error>(
                    #[trigger] forest.trees@[i],
                ),
{
    let workers = worker_count(threads, sources.len());
    if sources.len() > 0 {
        lemma_index_alignment(results, workers);
    } else {
        assert(outputs_of(results, 0) =~= Seq::<Result<Seq<Tree>, Error>>::empty());
    }
    crate::schedule::lemma_gathered_is_aligned(results);
}

/// Drives one run over a project.
pub struct Parser<'a, H, S> {
    pub config: &'a Config<H, S>,
    /// Builds the trees of this run; the workers share it.
    pub tree_builder: TreeBuilder<'a, H, S>,
}

impl<'a, H: ContentHasher, S: Serializer> Parser<'a, H, S> {
    /// A run over the project that `config` describes.
    pub fn new(config: &'a Config<H, S>) -> (parser: Self)
        ensures
            parser.config == config,
            parser.tree_builder.config() == config,
    {
        Parser { config, tree_builder: TreeBuilder::new(config) }
    }

    /// The level of the logger to install before anything else, if any.
    pub fn init_logger(&self) -> (level: Option<LogLevel>)
        ensures
            level == self.config.logger,
    {
        match &self.config.logger {
            Some(level) => Some(*level),
            None => None,
        }
    }

    /// The directory to create before sources are collected: the cache
    /// directory, where trees are cached.
    pub fn create_cache_dir(&self) -> (directory: Option<String>)
        ensures
            match self.config.cache {
                Some(cache) => directory matches Some(found) && found@ == cache@,
                None => directory is None,
            },
    {
        match &self.config.cache {
            Some(cache) => Some(cache.clone()),
            None => None,
        }
    }

    /// The number of threads for `files_len` sources: the configured number,
    /// but no more than there are sources.
    pub fn threads_count(&self, files_len: usize) -> (count: usize)
        ensures
            count == if self.config.threads > files_len {
                files_len
            } else {
                self.config.threads
            },
    {
        if self.config.threads > files_len {
            files_len
        } else {
            self.config.threads
        }
    }

    /// Shares `files_len` sources out among the workers of this run.
    ///
    /// There are `threads_count(files_len)` workers, and one where that
    /// would leave sources without a worker. Without sources there is no
    /// worker.
    pub fn plan(&self, files_len: usize) -> (plan: Vec<Slice>)
        ensures
            plan@ == planned(self.config.threads as nat, files_len as nat),
    {
        if files_len == 0 {
            return Vec::new();
        }
        let count = self.threads_count(files_len);
        if count == 0 {
            partition(files_len, 1)
        } else {
            partition(files_len, count)
        }
    }

    /// Ends the run: puts the outputs of the workers together, in the order
    /// in which the workers were started.
    ///
    /// Where every worker handed in its trees, the forest holds `sources`
    /// and all trees in worker order. Where a worker ended in an error, the
    /// run ends in the error of the first such worker, and the trees of the
    /// others are dropped.
    pub fn parse(&self, sources: Vec<Source>, outputs: Vec<Result<Vec<Tree>, Error>>) -> (forest:
        Result<Forest, Error>)
        ensures
            match reassembled(output_views(outputs@)) {
                Ok(trees) => forest matches Ok(found) && found.sources == sources && found.trees@
                    == trees,
                Err(error) => forest matches Err(found) && found == error,
            },
    {
        match reassemble(outputs) {
            Ok(trees) => Ok(Forest::new(sources, trees)),
            Err(error) => Err(error),
        }
    }
}

} // verus!
