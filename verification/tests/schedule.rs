use ara_forest::config::Config;
use ara_forest::error::Error;
use ara_forest::schedule::gather;
use ara_forest::schedule::partition;
use ara_forest::schedule::reassemble;
use ara_forest::schedule::Slice;
use ara_forest::source::Source;
use ara_forest::source::SourceKind;
use ara_forest::tree::TreeBuilder;
use ara_forest::Parser;
use ara_parser::tree::Tree;

fn slice(start: usize, end: usize) -> Slice {
    Slice { start, end }
}

fn tree(name: &str) -> Tree {
    let source = Source::new(
        SourceKind::Script,
        format!("/p"),
        format!("{name}.ara"),
        format!("function {name}(): void {{}}"),
    );
    TreeBuilder::<ara_forest::hash::FxHasher, ara_forest::serializer::BincodeSerializer>::parse(
        &source,
    )
    .unwrap()
}

fn names(trees: &[Tree]) -> Vec<String> {
    trees.iter().map(|tree| tree.source.clone()).collect()
}

#[test]
fn the_first_workers_get_the_remainder() {
    assert_eq!(partition(5, 2), vec![slice(0, 3), slice(3, 5)]);
    assert_eq!(partition(10, 4), vec![slice(0, 3), slice(3, 6), slice(6, 8), slice(8, 10)]);
    assert_eq!(partition(3, 3), vec![slice(0, 1), slice(1, 2), slice(2, 3)]);
    assert_eq!(partition(7, 1), vec![slice(0, 7)]);
    assert_eq!(partition(6, 3), vec![slice(0, 2), slice(2, 4), slice(4, 6)]);
}

#[test]
fn slices_are_contiguous_balanced_and_cover_every_source() {
    for files in 1..40usize {
        for workers in 1..=files {
            let plan = partition(files, workers);
            assert_eq!(plan.len(), workers);
            assert_eq!(plan[0].start, 0);
            assert_eq!(plan[workers - 1].end, files);
            for k in 0..workers {
                let length = plan[k].end - plan[k].start;
                assert!(length == files / workers || length == files / workers + 1);
                assert!(length >= 1);
                if k > 0 {
                    assert_eq!(plan[k].start, plan[k - 1].end);
                    assert!(length <= plan[k - 1].end - plan[k - 1].start);
                }
            }
        }
    }
}

#[test]
fn threads_are_capped_by_the_number_of_files() {
    let config = Config::new(format!("/p")).with_threads(4);
    let parser = Parser::new(&config);
    assert_eq!(parser.threads_count(10), 4);
    assert_eq!(parser.threads_count(4), 4);
    assert_eq!(parser.threads_count(3), 3);
    assert_eq!(parser.threads_count(0), 0);
}

#[test]
fn a_plan_has_no_worker_without_sources_and_one_without_threads() {
    let config = Config::new(format!("/p")).with_threads(4);
    let parser = Parser::new(&config);
    assert_eq!(parser.plan(0), vec![]);
    assert_eq!(parser.plan(3), vec![slice(0, 1), slice(1, 2), slice(2, 3)]);
    assert_eq!(parser.plan(9), vec![slice(0, 3), slice(3, 5), slice(5, 7), slice(7, 9)]);

    let idle = Config::new(format!("/p")).with_threads(0);
    let parser = Parser::new(&idle);
    assert_eq!(parser.threads_count(5), 0);
    assert_eq!(parser.plan(5), vec![slice(0, 5)]);
    assert_eq!(parser.plan(0), vec![]);
}

#[test]
fn gather_keeps_the_order_of_the_trees() {
    let trees = gather(vec![Ok(tree("a")), Ok(tree("b")), Ok(tree("c"))]).unwrap();
    assert_eq!(names(&trees), vec!["a.ara", "b.ara", "c.ara"]);
    assert!(gather(vec![]).unwrap().is_empty());
}

#[test]
fn gather_ends_in_the_first_error() {
    let outcome = gather(vec![
        Ok(tree("a")),
        Err(Error::IoError(format!("first"))),
        Ok(tree("b")),
        Err(Error::CacheMiss),
    ]);
    match outcome {
        Err(Error::IoError(message)) => assert_eq!(message, "first"),
        other => panic!("expected the first error, got {:?}", other),
    }
}

#[test]
fn reassemble_joins_the_outputs_in_worker_order() {
    let trees = reassemble(vec![
        Ok(vec![tree("a"), tree("b")]),
        Ok(vec![]),
        Ok(vec![tree("c")]),
        Ok(vec![tree("d"), tree("e")]),
    ])
    .unwrap();
    assert_eq!(names(&trees), vec!["a.ara", "b.ara", "c.ara", "d.ara", "e.ara"]);
    assert!(reassemble(vec![]).unwrap().is_empty());
}

#[test]
fn reassemble_ends_in_the_error_of_the_first_failed_worker() {
    let outcome = reassemble(vec![
        Ok(vec![tree("a")]),
        Err(Error::IoError(format!("second worker"))),
        Ok(vec![tree("b")]),
        Err(Error::IoError(format!("fourth worker"))),
    ]);
    match outcome {
        Err(Error::IoError(message)) => assert_eq!(message, "second worker"),
        other => panic!("expected the error of the second worker, got {:?}", other),
    }
}

#[test]
fn trees_stay_aligned_with_their_sources_for_every_worker_count() {
    let all = ["a", "b", "c", "d", "e", "f", "g"];
    for workers in 1..=all.len() {
        let mut outputs = Vec::new();
        for part in partition(all.len(), workers) {
            let results = all[part.start..part.end].iter().map(|name| Ok(tree(name))).collect();
            outputs.push(gather(results));
        }
        let trees = reassemble(outputs).unwrap();
        assert_eq!(trees.len(), all.len());
        for (i, name) in all.iter().enumerate() {
            assert_eq!(trees[i].source, format!("{name}.ara"));
        }
    }
}

#[test]
fn the_first_error_in_source_order_wins_for_every_worker_count() {
    let all = ["a", "b", "!one", "c", "!two", "d"];
    for workers in 1..=all.len() {
        let mut outputs = Vec::new();
        for part in partition(all.len(), workers) {
            let results = all[part.start..part.end]
                .iter()
                .map(|name| match name.strip_prefix('!') {
                    Some(reason) => Err(Error::IoError(reason.to_string())),
                    None => Ok(tree(name)),
                })
                .collect();
            outputs.push(gather(results));
        }
        match reassemble(outputs) {
            Err(Error::IoError(reason)) => assert_eq!(reason, "one"),
            other => panic!("expected the first error, got {:?}", other),
        }
    }
}

#[test]
fn parse_builds_the_forest_of_the_sources_and_the_reassembled_trees() {
    let config = Config::new(format!("/p")).with_threads(2);
    let parser = Parser::new(&config);
    let sources: Vec<Source> = ["a", "b", "c"]
        .iter()
        .map(|name| {
            Source::new(
                SourceKind::Script,
                format!("/p"),
                format!("{name}.ara"),
                format!("function {name}(): void {{}}"),
            )
        })
        .collect();
    let outputs = vec![Ok(vec![tree("a"), tree("b")]), Ok(vec![tree("c")])];
    let forest = parser.parse(sources, outputs).unwrap();
    assert_eq!(forest.sources.len(), 3);
    assert_eq!(forest.trees.len(), 3);
    for i in 0..3 {
        assert_eq!(forest.trees[i].source, forest.sources[i].origin);
    }
}

#[test]
fn parse_ends_in_the_error_of_the_first_failed_worker() {
    let config = Config::new(format!("/p")).with_threads(2);
    let parser = Parser::new(&config);
    let outputs = vec![Err(Error::CacheMiss), Err(Error::IoError(format!("late")))];
    assert!(matches!(parser.parse(vec![], outputs), Err(Error::CacheMiss)));
}

#[test]
fn parse_of_nothing_is_an_empty_forest() {
    let config = Config::new(format!("/p"));
    let forest = Parser::new(&config).parse(vec![], vec![]).unwrap();
    assert!(forest.sources.is_empty());
    assert!(forest.trees.is_empty());
}
