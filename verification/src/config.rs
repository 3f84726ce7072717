//! What a run is told once, before it starts.

use crate::hash::FxHasher;
use crate::serializer::BincodeSerializer;
use vstd::prelude::*;
use vstd::string::StringExecFns;

verus! {

/// How much the caller wants to hear about cache hits and misses.
#[derive(Clone, Copy, Debug, PartialEq, Eq, Structural)]
pub enum LogLevel {
    Error,
    Warn,
    Info,
}

/// The configuration of a run: where the project lies, which of its
/// directories hold sources, whether trees are cached and where, how many
/// workers may run, and the strategies for hashing and for the cache format.
pub struct Config<H, S> {
    /// The project root.
    pub root: String,
    /// The source directory, relative to the root.
    pub source: String,
    /// The definition directories, relative to the root.
    pub definitions: Vec<String>,
    /// The cache directory; without one nothing is cached.
    pub cache: Option<String>,
    /// The most workers that may run at once.
    pub threads: usize,
    /// The level at which the caller logs, if it logs.
    pub logger: Option<LogLevel>,
    /// Names cache entries and signs them.
    pub hasher: H,
    /// Encodes and decodes cache entries.
    pub serializer: S,
}

impl Config<FxHasher, BincodeSerializer> {
    /// The configuration of a project at `root`: sources directly under the
    /// root, no definition directories, no cache, one worker, no logger, Fx
    /// hashes and bincode entries.
    pub fn new(root: String) -> (config: Self)
        ensures
            config.root == root,
            config.source@ == Seq::<char>::empty(),
            config.definitions@ == Seq::<String>::empty(),
            config.cache is None,
            config.threads == 1,
            config.logger is None,
            config.hasher == FxHasher,
            config.serializer == BincodeSerializer,
    {
        Config {
            root,
            source: String::new(),
            definitions: Vec::new(),
            cache: None,
            threads: 1,
            logger: None,
            hasher: FxHasher::new(),
            serializer: BincodeSerializer::new(),
        }
    }
}

impl<H, S> Config<H, S> {
    /// Whether trees are cached.
    pub open spec fn caching(&self) -> bool {
        self.cache is Some
    }

    /// The same configuration with `source` as its source directory.
    pub fn with_source(self, source: &str) -> (config: Self)
        ensures
            config.source@ == source@,
            config.root == self.root,
            config.definitions == self.definitions,
            config.cache == self.cache,
            config.threads == self.threads,
            config.logger == self.logger,
            config.hasher == self.hasher,
            config.serializer == self.serializer,
    {
        Config {
            root: self.root,
            source: String::from_str(source),
            definitions: self.definitions,
            cache: self.cache,
            threads: self.threads,
            logger: self.logger,
            hasher: self.hasher,
            serializer: self.serializer,
        }
    }

    /// The same configuration with `definitions` as its definition
    /// directories, in that order.
    pub fn with_definitions(self, definitions: Vec<String>) -> (config: Self)
        ensures
            config.definitions == definitions,
            config.root == self.root,
            config.source == self.source,
            config.cache == self.cache,
            config.threads == self.threads,
            config.logger == self.logger,
            config.hasher == self.hasher,
            config.serializer == self.serializer,
    {
        Config {
            root: self.root,
            source: self.source,
            definitions,
            cache: self.cache,
            threads: self.threads,
            logger: self.logger,
            hasher: self.hasher,
            serializer: self.serializer,
        }
    }

    /// The same configuration with trees cached under `cache`.
    pub fn with_cache_directory(self, cache: &str) -> (config: Self)
        ensures
            config.cache matches Some(directory) && directory@ == cache@,
            config.root == self.root,
            config.source == self.source,
            config.definitions == self.definitions,
            config.threads == self.threads,
            config.logger == self.logger,
            config.hasher == self.hasher,
            config.serializer == self.serializer,
    {
        Config {
            root: self.root,
            source: self.source,
            definitions: self.definitions,
            cache: Some(String::from_str(cache)),
            threads: self.threads,
            logger: self.logger,
            hasher: self.hasher,
            serializer: self.serializer,
        }
    }

    /// The same configuration with at most `threads` workers.
    pub fn with_threads(self, threads: usize) -> (config: Self)
        ensures
            config.threads == threads,
            config.root == self.root,
            config.source == self.source,
            config.definitions == self.definitions,
            config.cache == self.cache,
            config.logger == self.logger,
            config.hasher == self.hasher,
            config.serializer == self.serializer,
    {
        Config {
            root: self.root,
            source: self.source,
            definitions: self.definitions,
            cache: self.cache,
            threads,
            logger: self.logger,
            hasher: self.hasher,
            serializer: self.serializer,
        }
    }

    /// The same configuration with a logger at `level`.
    pub fn with_logger(self, level: LogLevel) -> (config: Self)
        ensures
            config.logger == Some(level),
            config.root == self.root,
            config.source == self.source,
            config.definitions == self.definitions,
            config.cache == self.cache,
            config.threads == self.threads,
            config.hasher == self.hasher,
            config.serializer == self.serializer,
    {
        Config {
            root: self.root,
            source: self.source,
            definitions: self.definitions,
            cache: self.cache,
            threads: self.threads,
            logger: Some(level),
            hasher: self.hasher,
            serializer: self.serializer,
        }
    }

    /// The same configuration with `hasher` to name and sign cache entries.
    pub fn with_hasher<G>(self, hasher: G) -> (config: Config<G, S>)
        ensures
            config.hasher == hasher,
            config.root == self.root,
            config.source == self.source,
            config.definitions == self.definitions,
            config.cache == self.cache,
            config.threads == self.threads,
            config.logger == self.logger,
            config.serializer == self.serializer,
    {
        Config {
            root: self.root,
            source: self.source,
            definitions: self.definitions,
            cache: self.cache,
            threads: self.threads,
            logger: self.logger,
            hasher,
            serializer: self.serializer,
        }
    }

    /// The same configuration with `serializer` for the cache format.
    pub fn with_serializer<T>(self, serializer: T) -> (config: Config<H, T>)
        ensures
            config.serializer == serializer,
            config.root == self.root,
            config.source == self.source,
            config.definitions == self.definitions,
            config.cache == self.cache,
            config.threads == self.threads,
            config.logger == self.logger,
            config.hasher == self.hasher,
    {
        Config {
            root: self.root,
            source: self.source,
            definitions: self.definitions,
            cache: self.cache,
            threads: self.threads,
            logger: self.logger,
            hasher: self.hasher,
            serializer,
        }
    }
}

} // verus!
