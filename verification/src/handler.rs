use vstd::prelude::*;
use crate::cache::{get, put};
use crate::codec::{table_decoding, table_encoding};
use crate::config::WeightConfig;
use crate::detail::{pretty_json, query_result_to_json, resolve, result_members, QueryResult};
use crate::document::{body_config, read_config};
use crate::error::Error;
use crate::loader::{candidates_of, result_candidates};
use crate::sampler::{drawable, sample, undrawable};
use crate::table::{WeightedEntry, WeightedTable};
use crate::transform::{table_of, transform};

verus! {

/// How far the handling of one request has come. The host keeps the stage
/// between two steps and does what the step asks for.
#[derive(Clone, Debug, PartialEq, Eq)]
pub enum Stage {
    /// Nothing has been done yet.
    Start,
    /// The cache slot is being read.
    ReadingCache,
    /// The slot was empty: the weighting document is being fetched.
    FetchingConfig,
    /// The candidate rows at or above the document's threshold are being loaded.
    LoadingCandidates { config: WeightConfig },
    /// The table that was built is being written to the cache slot.
    WritingCache { table: WeightedTable },
    /// The full row of the sampled id is being looked up.
    Resolving { id: i64 },
    /// The request has been answered or has failed.
    Done,
}

/// What the host reports back after it has done what a step asked for.
#[derive(Clone, Debug, PartialEq, Eq)]
pub enum Event {
    /// A request has come in.
    Started,
    /// The cache slot was read: its bytes, or nothing where it holds none.
    CacheRead { slot: Option<Vec<u8>> },
    /// The cache slot was written.
    CacheWritten,
    /// The cache could not be read or written.
    CacheFailed,
    /// The weighting document was fetched: the bytes of its body.
    ConfigFetched { body: Vec<u8> },
    /// The weighting document could not be fetched.
    ConfigFailed,
    /// The candidate query was answered: its rows.
    CandidatesLoaded { result: QueryResult },
    /// The rows of the sampled id were loaded.
    DetailLoaded { result: QueryResult },
    /// A query against the backing store failed.
    StoreFailed,
}

/// What the host has to do next.
#[derive(Clone, Debug, PartialEq, Eq)]
pub enum Action {
    /// Read the cache slot named by `cache_key`.
    ReadCache,
    /// Fetch the weighting document.
    FetchConfig,
    /// Load the rows whose population is at least `base_population`.
    LoadCandidates { base_population: i64 },
    /// Write `bytes` to the cache slot named by `cache_key`.
    WriteCache { bytes: Vec<u8> },
    /// Load the full row of `id`.
    LoadDetail { id: i64 },
    /// Answer the request with `body`, which is JSON.
    Respond { body: String },
    /// Answer the request with the failure `error`.
    Fail { error: Error },
}

/// The request fails with `error`.
pub open spec fn failed(error: Error) -> Option<(Stage, Action)> {
    Some((Stage::Done, Action::Fail { error }))
}

/// What holds of a step that draws from `entries`, whichever entry is drawn:
/// it fails where nothing can be drawn or the weights do not add up, and asks
/// for the row of an id that has a positive weight otherwise.
pub open spec fn draws_from(entries: Seq<WeightedEntry>, next: Option<(Stage, Action)>) -> bool {
    match undrawable(entries) {
        Some(error) => next == failed(error),
        None => exists|i: int|
            drawable(entries, i) && next == Some(
                (
                    Stage::Resolving { id: (#[trigger] entries[i]).id },
                    Action::LoadDetail { id: entries[i].id },
                ),
            ),
    }
}

/// What holds of a step that builds the table of the rows of `result` under
/// `config`: it refuses rows that are no candidates and a document that is
/// no weighting, and otherwise asks for the table to be written, as the
/// bytes that it is kept as.
pub open spec fn builds_from(
    config: WeightConfig,
    result: QueryResult,
    next: Option<(Stage, Action)>,
) -> bool {
    match result_candidates(result) {
        None => next == failed(Error::StoreQuery),
        Some(rows) => if !config@.wf() {
            next == failed(Error::ConfigParse)
        } else {
            next matches Some((Stage::WritingCache { table }, Action::WriteCache { bytes }))
                && table@ == table_of(rows, config@) && bytes@ == table_encoding(table@)
        },
    }
}

/// What holds of the step that `event` leads to from `stage`.
///
/// A cache slot that holds a table is drawn from at once. An empty slot
/// makes the handler fetch the document, load the candidates, build the
/// table, write it to the slot and then draw from it. The id drawn is looked
/// up, and the request is answered with its row. Every failure ends the
/// request. An event that does not belong to the stage leads nowhere.
pub open spec fn step_allows(stage: Stage, event: Event, next: Option<(Stage, Action)>) -> bool {
    match (stage, event) {
        (Stage::Start, Event::Started) => next == Some((Stage::ReadingCache, Action::ReadCache)),
        (Stage::ReadingCache, Event::CacheFailed) => next == failed(Error::CacheStore),
        (Stage::ReadingCache, Event::CacheRead { slot: None }) => next == Some(
            (Stage::FetchingConfig, Action::FetchConfig),
        ),
        (Stage::ReadingCache, Event::CacheRead { slot: Some(bytes) }) => match table_decoding(
            bytes@,
        ) {
            Some(entries) => draws_from(entries, next),
            None => next == failed(Error::CacheStore),
        },
        (Stage::FetchingConfig, Event::ConfigFailed) => next == failed(Error::ConfigFetch),
        (Stage::FetchingConfig, Event::ConfigFetched { body }) => match body_config(body@) {
            Some(cfg) => next matches Some(
                (Stage::LoadingCandidates { config }, Action::LoadCandidates { base_population }),
            ) && config@ == cfg && base_population == cfg.base_population,
            None => next == failed(Error::ConfigParse),
        },
        (Stage::LoadingCandidates { config }, Event::StoreFailed) => next == failed(
            Error::StoreQuery,
        ),
        (Stage::LoadingCandidates { config }, Event::CandidatesLoaded { result }) => builds_from(
            config,
            result,
            next,
        ),
        (Stage::WritingCache { table }, Event::CacheFailed) => next == failed(Error::CacheStore),
        (Stage::WritingCache { table }, Event::CacheWritten) => draws_from(table@, next),
        (Stage::Resolving { id }, Event::StoreFailed) => next == failed(Error::StoreQuery),
        (Stage::Resolving { id }, Event::DetailLoaded { result }) => if result.rows@.len() == 0 {
            next == failed(Error::NotFound)
        } else {
            next matches Some((Stage::Done, Action::Respond { body })) && body@ == pretty_json(
                result_members(result),
            )
        },
        _ => next is None,
    }
}

impl Stage {
    /// How far a stage is from the start: each step leads to a stage that is
    /// further.
    pub open spec fn rank(self) -> nat {
        match self {
            Stage::Start => 0,
            Stage::ReadingCache => 1,
            Stage::FetchingConfig => 2,
            Stage::LoadingCandidates { .. } => 3,
            Stage::WritingCache { .. } => 4,
            Stage::Resolving { .. } => 5,
            Stage::Done => 6,
        }
    }
}

impl Action {
    /// Whether the action answers the request, with a body or with a failure.
    pub open spec fn answers(self) -> bool {
        self is Respond || self is Fail
    }
}

/// Every step leads further, and it answers the request exactly when it
/// leads to the end. So a request is answered once, after six steps at most,
/// and nothing is asked of the host after the answer.
pub proof fn lemma_step_advances(stage: Stage, event: Event, next: Option<(Stage, Action)>)
    requires
        step_allows(stage, event, next),
    ensures
        next matches Some((after, action)) ==> stage.rank() < after.rank() <= 6 && (action.answers()
            <==> after is Done),
        stage is Done ==> next is None,
{
}

fn fail(error: Error) -> (next: Option<(Stage, Action)>)
    ensures
        next == failed(error),
{
    Some((Stage::Done, Action::Fail { error }))
}

fn draw_from(table: &WeightedTable) -> (next: Option<(Stage, Action)>)
    ensures
        draws_from(table@, next),
{
    match sample(table) {
        Ok(entry) => Some((Stage::Resolving { id: entry.id }, Action::LoadDetail { id: entry.id })),
        Err(error) => fail(error),
    }
}

fn build_from(config: WeightConfig, result: QueryResult) -> (next: Option<(Stage, Action)>)
    ensures
        builds_from(config, result, next),
{
    let rows = match candidates_of(&result) {
        Ok(rows) => rows,
        Err(error) => {
            return fail(error);
        },
    };
    match transform(&rows, &config) {
        Ok(table) => {
            let bytes = put(&table);
            Some((Stage::WritingCache { table }, Action::WriteCache { bytes }))
        },
        Err(error) => fail(error),
    }
}

/// Whether `event` reports that the cache slot holds the bytes that `entries`
/// are kept as.
pub open spec fn reports_table(event: Event, entries: Seq<WeightedEntry>) -> bool {
    event matches Event::CacheRead { slot: Some(bytes) } && bytes@ == table_encoding(entries)
}

/// Takes the handling of a request one step further: from the stage it is in
/// and what the host reports, to the next stage and what the host has to do.
/// Gives nothing where the event does not belong to the stage.
///
/// Where the cache slot holds the bytes that an earlier request asked to be
/// written for a table, the step draws from that table.
pub fn step(stage: Stage, event: Event) -> (next: Option<(Stage, Action)>)
    ensures
        step_allows(stage, event, next),
        forall|entries: Seq<WeightedEntry>|
            stage is ReadingCache && #[trigger] reports_table(event, entries) ==> draws_from(
                entries,
                next,
            ),
{
    match stage {
        Stage::Start => match event {
            Event::Started => Some((Stage::ReadingCache, Action::ReadCache)),
            _ => None,
        },
        Stage::ReadingCache => match event {
            Event::CacheFailed => fail(Error::CacheStore),
            Event::CacheRead { slot } => {
                let held: Option<&[u8]> = match &slot {
                    Some(bytes) => Some(bytes.as_slice()),
                    None => None,
                };
                match get(held) {
                    Ok(Some(table)) => draw_from(&table),
                    Ok(None) => Some((Stage::FetchingConfig, Action::FetchConfig)),
                    Err(error) => fail(error),
                }
            },
            _ => None,
        },
        Stage::FetchingConfig => match event {
            Event::ConfigFailed => fail(Error::ConfigFetch),
            Event::ConfigFetched { body } => match read_config(body.as_slice()) {
                Ok(config) => {
                    let base_population: i64 = config.base_population;
                    Some(
                        (
                            Stage::LoadingCandidates { config },
                            Action::LoadCandidates { base_population },
                        ),
                    )
                },
                Err(error) => fail(error),
            },
            _ => None,
        },
        Stage::LoadingCandidates { config } => match event {
            Event::StoreFailed => fail(Error::StoreQuery),
            Event::CandidatesLoaded { result } => build_from(config, result),
            _ => None,
        },
        Stage::WritingCache { table } => match event {
            Event::CacheFailed => fail(Error::CacheStore),
            Event::CacheWritten => draw_from(&table),
            _ => None,
        },
        Stage::Resolving { id } => match event {
            Event::StoreFailed => fail(Error::StoreQuery),
            Event::DetailLoaded { result } => match resolve(Some(result)) {
                Ok(found) => {
                    let body = query_result_to_json(&found);
                    Some((Stage::Done, Action::Respond { body }))
                },
                Err(error) => fail(error),
            },
            _ => None,
        },
        Stage::Done => None,
    }
}

} // verus!
