use ara_forest::config::Config;
use ara_forest::error::Error;
use ara_forest::hash::ContentHasher;
use ara_forest::hash::FxHasher;
use ara_forest::schedule::gather;
use ara_forest::serializer::BincodeSerializer;
use ara_forest::serializer::Serializer;
use ara_forest::source::DirEntry;
use ara_forest::source::Listing;
use ara_forest::source::Source;
use ara_forest::source::SourceKind;
use ara_forest::source::SourcesBuilder;
use ara_forest::tree::Step;
use ara_forest::tree::TreeBuilder;
use ara_forest::Forest;
use ara_forest::Parser;
use ara_parser::tree::Tree;
use std::collections::BTreeMap;

type Settings = Config<FxHasher, BincodeSerializer>;

/// Files by path, and a count of the sources that went to the engine.
struct Disk {
    files: BTreeMap<String, Vec<u8>>,
    parses: usize,
}

impl Disk {
    fn with(files: &[(&str, &str)]) -> Disk {
        let files = files
            .iter()
            .map(|(path, contents)| (path.to_string(), contents.as_bytes().to_vec()))
            .collect();
        Disk { files, parses: 0 }
    }

    fn list(&self, directory: &str) -> Listing {
        let below = format!("{directory}/");
        let entries: Vec<DirEntry> = self
            .files
            .keys()
            .filter(|path| path.starts_with(&below))
            .map(|path| DirEntry { path: path.clone(), is_file: true })
            .collect();
        if entries.is_empty() {
            Listing::NotADirectory
        } else {
            Listing::Entries(entries)
        }
    }

    fn under(&self, directory: &str) -> Vec<String> {
        let below = format!("{directory}/");
        self.files.keys().filter(|path| path.starts_with(&below)).cloned().collect()
    }
}

/// Drives the steps of one build against the disk.
fn build(builder: &TreeBuilder<FxHasher, BincodeSerializer>, source: &Source, disk: &mut Disk) -> Result<Tree, Error> {
    let mut step = builder.build(source);
    let mut looked_up = false;
    loop {
        step = match step {
            Step::Done(tree) => {
                if !looked_up {
                    disk.parses += 1;
                }
                return Ok(tree);
            },
            Step::Failed(error) => {
                disk.parses += 1;
                return Err(error);
            },
            Step::ReadCache { path } => {
                looked_up = true;
                let read = disk.files.get(&path).cloned().ok_or(format!("{path}: not found"));
                match builder.resume(source, read) {
                    Step::Done(tree) => return Ok(tree),
                    next => next,
                }
            },
            Step::WriteCache { path, bytes, tree, .. } => {
                disk.parses += 1;
                disk.files.insert(path, bytes);
                return builder.conclude(tree, Ok(()));
            },
        }
    }
}

/// A whole run, with one worker after the other.
fn run(config: &Settings, disk: &mut Disk) -> Result<Forest, Error> {
    let parser = Parser::new(config);
    let collector = SourcesBuilder::new(config);
    let listings: Vec<Listing> =
        collector.directories().iter().map(|directory| disk.list(directory)).collect();
    let mut sources = Vec::new();
    for file in collector.build(&listings)? {
        let path = ara_forest::paths::join(&config.root, &file.origin);
        let contents = String::from_utf8(disk.files[&path].clone()).unwrap();
        sources.push(collector.load(file, contents));
    }
    let mut outputs = Vec::new();
    for part in parser.plan(sources.len()) {
        let mut results = Vec::new();
        for source in &sources[part.start..part.end] {
            results.push(build(&parser.tree_builder, source, disk));
        }
        outputs.push(gather(results));
    }
    parser.parse(sources, outputs)
}

fn project() -> Disk {
    Disk::with(&[
        ("/p/src/a.ara", "function a(): void {}"),
        ("/p/src/b.ara", "function b(): void { $b = 2; }"),
        ("/p/src/c.d.ara", "function c(): void {}"),
    ])
}

fn shown(forest: &Forest) -> Vec<String> {
    forest.trees.iter().map(|tree| format!("{:?}", tree)).collect()
}

#[test]
fn a_run_without_cache_builds_every_tree_and_writes_nothing() {
    let config = Config::new(format!("/p")).with_source("src").with_threads(2);
    let mut disk = project();
    let forest = run(&config, &mut disk).unwrap();
    assert_eq!(forest.sources.len(), 3);
    assert_eq!(forest.trees.len(), 3);
    let kinds: Vec<SourceKind> = forest.sources.iter().map(|source| source.kind).collect();
    assert_eq!(kinds, vec![SourceKind::Script, SourceKind::Script, SourceKind::Definition]);
    for i in 0..3 {
        assert_eq!(forest.trees[i].source, forest.sources[i].origin);
    }
    assert_eq!(disk.files.len(), 3);
    assert_eq!(disk.parses, 3);
}

#[test]
fn a_first_run_with_cache_writes_one_entry_for_each_source() {
    let config =
        Config::new(format!("/p")).with_source("src").with_threads(2).with_cache_directory("/cache");
    let mut disk = project();
    let forest = run(&config, &mut disk).unwrap();
    assert_eq!(forest.trees.len(), 3);
    assert_eq!(disk.parses, 3);
    let hasher = FxHasher::new();
    let expected: Vec<String> = {
        let mut names: Vec<String> = ["src/a.ara", "src/b.ara", "src/c.d.ara"]
            .iter()
            .map(|origin| format!("/cache/{}.ara.cache", hasher.hash(origin)))
            .collect();
        names.sort();
        names
    };
    assert_eq!(disk.under("/cache"), expected);
    for source in &forest.sources {
        let path = format!("/cache/{}.ara.cache", hasher.hash(&source.origin));
        let entry = BincodeSerializer::new().deserialize(&disk.files[&path]).unwrap();
        assert_eq!(entry.signature, hasher.hash(&source.contents));
        assert_eq!(entry.tree.source, source.origin);
    }
}

#[test]
fn a_second_run_with_cache_parses_nothing_and_builds_the_same_trees() {
    let config =
        Config::new(format!("/p")).with_source("src").with_threads(2).with_cache_directory("/cache");
    let mut disk = project();
    let first = run(&config, &mut disk).unwrap();
    let entries = disk.under("/cache").len();
    disk.parses = 0;
    let second = run(&config, &mut disk).unwrap();
    assert_eq!(disk.parses, 0);
    assert_eq!(shown(&second), shown(&first));
    assert_eq!(disk.under("/cache").len(), entries);
}

#[test]
fn a_changed_source_is_the_only_one_parsed_again() {
    let config =
        Config::new(format!("/p")).with_source("src").with_threads(3).with_cache_directory("/cache");
    let mut disk = project();
    let first = run(&config, &mut disk).unwrap();
    let path = format!("/cache/{}.ara.cache", FxHasher::new().hash("src/b.ara"));
    let stale = disk.files[&path].clone();
    disk.files.insert(format!("/p/src/b.ara"), b"function b(): void { $b = 3; }".to_vec());
    disk.parses = 0;
    let second = run(&config, &mut disk).unwrap();
    assert_eq!(disk.parses, 1);
    assert_eq!(shown(&second)[0], shown(&first)[0]);
    assert_ne!(shown(&second)[1], shown(&first)[1]);
    assert_eq!(shown(&second)[2], shown(&first)[2]);
    assert_ne!(disk.files[&path], stale);
    let entry = BincodeSerializer::new().deserialize(&disk.files[&path]).unwrap();
    assert_eq!(entry.signature, FxHasher::new().hash("function b(): void { $b = 3; }"));
}

#[test]
fn the_forest_is_the_same_for_every_number_of_threads() {
    let mut disk = Disk::with(&[
        ("/p/src/a.ara", "function a(): void {}"),
        ("/p/src/b.ara", "function b(): void {}"),
        ("/p/src/c.ara", "function c(): void {}"),
        ("/p/src/d.ara", "function d(): void {}"),
        ("/p/src/e.ara", "function e(): void {}"),
    ]);
    let single = Config::new(format!("/p")).with_source("src").with_threads(1);
    let expected = shown(&run(&single, &mut disk).unwrap());
    for threads in 0..8 {
        let config = Config::new(format!("/p")).with_source("src").with_threads(threads);
        let forest = run(&config, &mut disk).unwrap();
        assert_eq!(shown(&forest), expected);
        for i in 0..forest.sources.len() {
            assert_eq!(forest.trees[i].source, forest.sources[i].origin);
        }
    }
}

#[test]
fn a_run_ends_in_the_report_of_the_first_source_that_does_not_parse() {
    let mut disk = Disk::with(&[
        ("/p/src/a.ara", "function a(): void {}"),
        ("/p/src/b.ara", "function b(: void {"),
        ("/p/src/c.ara", "function c(): void {}"),
        ("/p/src/d.ara", "function d() void }"),
    ]);
    let expected = ara_parser::parser::parse(&ara_source::source::Source::new(
        ara_source::source::SourceKind::Script,
        "src/b.ara",
        "function b(: void {",
    ))
    .unwrap_err();
    for threads in 1..=4 {
        let config = Config::new(format!("/p"))
            .with_source("src")
            .with_threads(threads)
            .with_cache_directory("/cache");
        match run(&config, &mut disk) {
            Err(Error::ParseError(report)) => assert_eq!(report, expected),
            other => panic!("expected ParseError, got {:?}", other.map(|forest| forest.trees.len())),
        }
    }
    // the sources that parsed were cached all the same
    assert_eq!(disk.under("/cache").len(), 2);
}

#[test]
fn a_run_over_a_project_without_sources_is_an_empty_forest() {
    let mut disk = Disk::with(&[("/p/src/README.md", "nothing here")]);
    let config = Config::new(format!("/p")).with_source("src").with_threads(4);
    let forest = run(&config, &mut disk).unwrap();
    assert!(forest.sources.is_empty());
    assert!(forest.trees.is_empty());
    assert_eq!(disk.parses, 0);
}

#[test]
fn a_run_over_a_missing_source_directory_is_an_invalid_path() {
    let mut disk = project();
    let config = Config::new(format!("/p")).with_source("lib");
    assert!(matches!(run(&config, &mut disk), Err(Error::InvalidPath(_))));
    assert_eq!(disk.parses, 0);
}
