use random_place::config::{Multiplier, WeightConfig, WeightRule};
use random_place::detail::{QueryResult, SqlValue};
use random_place::error::Error;
use random_place::cache::cache_key;
use random_place::handler::{step, Action, Event, Stage};
use random_place::table::{WeightedEntry, WeightedTable};

fn cell(s: &str) -> SqlValue {
    SqlValue::Text(s.to_string())
}

fn candidates() -> QueryResult {
    QueryResult {
        columns: vec![
            "geonameid".to_string(),
            "population".to_string(),
            "country".to_string(),
            "asciiname".to_string(),
        ],
        rows: vec![
            vec![SqlValue::Integer(1), SqlValue::Integer(100), cell("US"), cell("X")],
            vec![SqlValue::Integer(2), SqlValue::Integer(100), cell("FR"), cell("Y")],
        ],
    }
}

fn detail(id: i64) -> QueryResult {
    QueryResult {
        columns: vec!["geonameid".to_string(), "name".to_string()],
        rows: vec![vec![SqlValue::Integer(id), cell("Somewhere")]],
    }
}

fn failure(error: Error) -> Option<(Stage, Action)> {
    Some((Stage::Done, Action::Fail { error }))
}

#[test]
fn cache_slot_has_one_name() {
    assert_eq!(cache_key(), "city-pop-pair");
}

#[test]
fn request_starts_with_the_cache() {
    assert_eq!(step(Stage::Start, Event::Started), Some((Stage::ReadingCache, Action::ReadCache)));
}

#[test]
fn empty_slot_rebuilds_the_table() {
    let (stage, action) = step(Stage::ReadingCache, Event::CacheRead { slot: None }).unwrap();
    assert_eq!(stage, Stage::FetchingConfig);
    assert_eq!(action, Action::FetchConfig);

    let body = b"{base_population: 100, country: {\"US\": 2.0}, city: {}}".to_vec();
    let (stage, action) = step(stage, Event::ConfigFetched { body }).unwrap();
    assert_eq!(action, Action::LoadCandidates { base_population: 100 });
    assert_eq!(
        stage,
        Stage::LoadingCandidates {
            config: WeightConfig {
                base_population: 100,
                country_weights: Some(vec![WeightRule {
                    key: "US".to_string(),
                    multiplier: Multiplier { millionths: 2_000_000 },
                }]),
                city_weights: Some(vec![]),
            }
        }
    );

    let (stage, action) = step(stage, Event::CandidatesLoaded { result: candidates() }).unwrap();
    assert_eq!(action, Action::WriteCache { bytes: b"[[1,200000000]]".to_vec() });
    assert_eq!(
        stage,
        Stage::WritingCache {
            table: WeightedTable::from_entries(vec![WeightedEntry { id: 1, weight: 200_000_000 }])
        }
    );

    let (stage, action) = step(stage, Event::CacheWritten).unwrap();
    assert_eq!(action, Action::LoadDetail { id: 1 });
    assert_eq!(stage, Stage::Resolving { id: 1 });

    let (stage, action) = step(stage, Event::DetailLoaded { result: detail(1) }).unwrap();
    assert_eq!(stage, Stage::Done);
    assert_eq!(
        action,
        Action::Respond {
            body: "[\n  {\n    \"geonameid\": 1,\n    \"name\": \"Somewhere\"\n  }\n]".to_string()
        }
    );
}

#[test]
fn filled_slot_is_drawn_from_at_once() {
    let slot = Some(b"[[5,0],[6,3],[7,0]]".to_vec());
    for _ in 0..50 {
        assert_eq!(
            step(Stage::ReadingCache, Event::CacheRead { slot: slot.clone() }),
            Some((Stage::Resolving { id: 6 }, Action::LoadDetail { id: 6 }))
        );
    }
}

#[test]
fn what_one_request_wrote_the_next_one_draws_from() {
    let config = WeightConfig::unweighted(0);
    let (_, action) =
        step(Stage::LoadingCandidates { config }, Event::CandidatesLoaded { result: candidates() })
            .unwrap();
    let bytes = match action {
        Action::WriteCache { bytes } => bytes,
        other => panic!("{:?}", other),
    };
    for _ in 0..50 {
        match step(Stage::ReadingCache, Event::CacheRead { slot: Some(bytes.clone()) }) {
            Some((Stage::Resolving { id }, Action::LoadDetail { id: asked })) => {
                assert_eq!(id, asked);
                assert!(id == 1 || id == 2);
            }
            other => panic!("{:?}", other),
        }
    }
}

#[test]
fn slot_that_holds_no_table_fails() {
    let slot = Some(b"garbage".to_vec());
    assert_eq!(step(Stage::ReadingCache, Event::CacheRead { slot }), failure(Error::CacheStore));
}

#[test]
fn slot_without_a_positive_weight_fails() {
    let slot = Some(b"[]".to_vec());
    assert_eq!(
        step(Stage::ReadingCache, Event::CacheRead { slot }),
        failure(Error::EmptyDistribution)
    );
    let slot = Some(b"[[1,0]]".to_vec());
    assert_eq!(
        step(Stage::ReadingCache, Event::CacheRead { slot }),
        failure(Error::EmptyDistribution)
    );
}

#[test]
fn slot_whose_weights_do_not_add_up_fails() {
    let slot = Some(b"[[1,340282366920938463463374607431768211455],[2,1]]".to_vec());
    assert_eq!(step(Stage::ReadingCache, Event::CacheRead { slot }), failure(Error::WeightOverflow));
}

#[test]
fn table_without_a_positive_weight_fails_after_it_is_written() {
    let table = WeightedTable::new();
    assert_eq!(
        step(Stage::WritingCache { table }, Event::CacheWritten),
        failure(Error::EmptyDistribution)
    );
}

#[test]
fn failures_of_the_host_end_the_request() {
    assert_eq!(step(Stage::ReadingCache, Event::CacheFailed), failure(Error::CacheStore));
    assert_eq!(step(Stage::FetchingConfig, Event::ConfigFailed), failure(Error::ConfigFetch));
    let config = WeightConfig::unweighted(1);
    assert_eq!(
        step(Stage::LoadingCandidates { config }, Event::StoreFailed),
        failure(Error::StoreQuery)
    );
    let table = WeightedTable::new();
    assert_eq!(step(Stage::WritingCache { table }, Event::CacheFailed), failure(Error::CacheStore));
    assert_eq!(step(Stage::Resolving { id: 1 }, Event::StoreFailed), failure(Error::StoreQuery));
}

#[test]
fn document_that_is_no_weighting_fails() {
    let body = b"{country: {US: -1}}".to_vec();
    assert_eq!(
        step(Stage::FetchingConfig, Event::ConfigFetched { body }),
        failure(Error::ConfigParse)
    );
    let body = vec![b'{', 0xff, b'}'];
    assert_eq!(
        step(Stage::FetchingConfig, Event::ConfigFetched { body }),
        failure(Error::ConfigParse)
    );
    let config = WeightConfig {
        base_population: 1,
        country_weights: Some(vec![WeightRule {
            key: "US".to_string(),
            multiplier: Multiplier { millionths: 0 },
        }]),
        city_weights: None,
    };
    assert_eq!(
        step(Stage::LoadingCandidates { config }, Event::CandidatesLoaded { result: candidates() }),
        failure(Error::ConfigParse)
    );
}

#[test]
fn rows_that_are_no_candidates_fail() {
    let config = WeightConfig::unweighted(1);
    let result = QueryResult { columns: vec![], rows: vec![vec![SqlValue::Null]] };
    assert_eq!(
        step(Stage::LoadingCandidates { config }, Event::CandidatesLoaded { result }),
        failure(Error::StoreQuery)
    );
}

#[test]
fn id_that_is_gone_is_not_found() {
    let gone = QueryResult { columns: vec!["geonameid".to_string()], rows: vec![] };
    assert_eq!(
        step(Stage::Resolving { id: 3 }, Event::DetailLoaded { result: gone }),
        failure(Error::NotFound)
    );
}

#[test]
fn events_out_of_turn_lead_nowhere() {
    assert_eq!(step(Stage::Start, Event::CacheWritten), None);
    assert_eq!(step(Stage::Start, Event::CacheRead { slot: None }), None);
    assert_eq!(step(Stage::ReadingCache, Event::Started), None);
    assert_eq!(step(Stage::FetchingConfig, Event::CacheFailed), None);
    assert_eq!(step(Stage::Resolving { id: 1 }, Event::CacheWritten), None);
    assert_eq!(step(Stage::Done, Event::Started), None);
    assert_eq!(step(Stage::Done, Event::StoreFailed), None);
    let table = WeightedTable::new();
    assert_eq!(step(Stage::WritingCache { table }, Event::StoreFailed), None);
    let config = WeightConfig::unweighted(1);
    assert_eq!(step(Stage::LoadingCandidates { config }, Event::CacheWritten), None);
}

fn perform(action: &Action) -> Option<Event> {
    match action {
        Action::ReadCache => Some(Event::CacheRead { slot: None }),
        Action::FetchConfig => {
            Some(Event::ConfigFetched { body: b"{country: {FR: 3}, city: {}}".to_vec() })
        }
        Action::LoadCandidates { .. } => Some(Event::CandidatesLoaded { result: candidates() }),
        Action::WriteCache { .. } => Some(Event::CacheWritten),
        Action::LoadDetail { id } => Some(Event::DetailLoaded { result: detail(*id) }),
        Action::Respond { .. } => None,
        Action::Fail { .. } => None,
    }
}

#[test]
fn request_is_answered_once_within_six_steps() {
    let mut stage = Stage::Start;
    let mut event = Event::Started;
    let mut steps = 0;
    let answer = loop {
        let (next, action) = step(stage, event).unwrap();
        steps += 1;
        stage = next;
        match perform(&action) {
            Some(reported) => event = reported,
            None => break action,
        }
    };
    assert_eq!(steps, 6);
    assert_eq!(stage, Stage::Done);
    assert_eq!(
        answer,
        Action::Respond {
            body: "[\n  {\n    \"geonameid\": 2,\n    \"name\": \"Somewhere\"\n  }\n]".to_string()
        }
    );
    assert_eq!(step(stage, Event::Started), None);
}

#[test]
fn document_nested_too_deep_fails() {
    let body = "{".repeat(100_000).into_bytes();
    assert_eq!(
        step(Stage::FetchingConfig, Event::ConfigFetched { body }),
        failure(Error::ConfigParse)
    );
}

#[test]
fn every_table_that_is_built_is_written() {
    let config = WeightConfig::unweighted(0);
    let none = QueryResult { columns: vec![], rows: vec![] };
    assert_eq!(
        step(Stage::LoadingCandidates { config }, Event::CandidatesLoaded { result: none }),
        Some((
            Stage::WritingCache { table: WeightedTable::new() },
            Action::WriteCache { bytes: b"[]".to_vec() }
        ))
    );
}
