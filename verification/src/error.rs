use vstd::prelude::*;

verus! {

/// Why a request could not be answered.
#[derive(Clone, Copy, Debug, PartialEq, Eq, Structural)]
pub enum Error {
    /// The weighting document could not be retrieved.
    ConfigFetch,
    /// The weighting document is malformed or holds a rule that is not allowed.
    ConfigParse,
    /// A query against the backing store failed.
    StoreQuery,
    /// The cache slot could not be read or written, or holds bytes that are no table.
    CacheStore,
    /// The table has no entry with a positive weight.
    EmptyDistribution,
    /// The weights of the table add up to more than a weight can hold.
    WeightOverflow,
    /// The sampled id is no longer in the backing store.
    NotFound,
}

impl Error {
    /// The HTTP status that stands for this error.
    pub open spec fn status_of(self) -> u16 {
        match self {
            Error::ConfigFetch => 502,
            Error::ConfigParse => 422,
            Error::StoreQuery => 503,
            Error::CacheStore => 507,
            Error::EmptyDistribution => 409,
            Error::WeightOverflow => 500,
            Error::NotFound => 404,
        }
    }

    /// The short name of this error.
    pub open spec fn name_of(self) -> Seq<char> {
        match self {
            Error::ConfigFetch => "config_fetch"@,
            Error::ConfigParse => "config_parse"@,
            Error::StoreQuery => "store_query"@,
            Error::CacheStore => "cache_store"@,
            Error::EmptyDistribution => "empty_distribution"@,
            Error::WeightOverflow => "weight_overflow"@,
            Error::NotFound => "not_found"@,
        }
    }

    /// Whether the caller may answer the failure by rebuilding the table and
    /// trying again. Only a missing id is of that kind.
    pub open spec fn is_retryable(self) -> bool {
        self == Error::NotFound
    }

    /// The HTTP status that stands for this error.
    pub fn status(&self) -> (code: u16)
        ensures
            code == self.status_of(),
            400 <= code < 600,
    {
        match self {
            Error::ConfigFetch => 502,
            Error::ConfigParse => 422,
            Error::StoreQuery => 503,
            Error::CacheStore => 507,
            Error::EmptyDistribution => 409,
            Error::WeightOverflow => 500,
            Error::NotFound => 404,
        }
    }

    /// A short name for the error, for the body of a failure response.
    pub fn name(&self) -> (name: &'static str)
        ensures
            name@ == self.name_of(),
    {
        match self {
            Error::ConfigFetch => "config_fetch",
            Error::ConfigParse => "config_parse",
            Error::StoreQuery => "store_query",
            Error::CacheStore => "cache_store",
            Error::EmptyDistribution => "empty_distribution",
            Error::WeightOverflow => "weight_overflow",
            Error::NotFound => "not_found",
        }
    }

    /// Whether the caller may rebuild the table and try again.
    pub fn retryable(&self) -> (r: bool)
        ensures
            r == self.is_retryable(),
    {
        match self {
            Error::NotFound => true,
            _ => false,
        }
    }
}

/// Two different errors never share a status.
pub proof fn lemma_status_distinct(a: Error, b: Error)
    ensures
        a.status_of() == b.status_of() <==> a == b,
{
}

} // verus!
