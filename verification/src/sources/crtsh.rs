use vstd::prelude::*;
use vstd::string::StringExecFns;
use crate::outcome::{SourceError, SourceKind, SourceCause, error_view};
use crate::aggregate::dedup_names;

verus! {

// The crt.sh provider answers with a JSON array of certificate records;
// the candidate names sit in each record's `name_value` field.  Decoding
// the records is serde's work at the fetch boundary; this module holds the
// extraction of the names from the decoded records.

/// The query for `host` against the crt.sh endpoint.
pub fn build_url(host: &str) -> (r: String)
    ensures
        r@ == "https://crt.sh/?q=%."@ + host@ + "&output=json"@,
{
    let mut url = String::from_str("https://crt.sh/?q=%.");
    url.append(host);
    url.append("&output=json");
    url
}

/// One decoded crt.sh record.
pub struct CrtshResult {
    pub name_value: String,
}

impl CrtshResult {
    pub fn new(name_value: String) -> (r: Self)
        ensures
            r.name_value@ == name_value@,
    {
        Self { name_value }
    }
}

/// The error crt.sh reports when it has no results for a host.
pub struct CrtshError {
    pub host: String,
}

impl CrtshError {
    pub fn new(host: String) -> (r: Self)
        ensures
            r.host@ == host@,
    {
        Self { host }
    }

    /// The user-facing description of this error.
    pub fn message(&self) -> (r: String)
        ensures
            r@ == "Crtsh couldn't find any results for: "@ + self.host@,
    {
        let mut m = String::from_str("Crtsh couldn't find any results for: ");
        m.append(self.host.as_str());
        m
    }
}

/// The candidate names a sequence of records holds.
pub open spec fn name_values(rs: Seq<CrtshResult>) -> Seq<Seq<char>> {
    rs.map_values(|c: CrtshResult| c.name_value@)
}

/// The deduplicated set of names of the given records.
pub fn subdomains(results: &Vec<CrtshResult>) -> (r: Vec<String>)
    ensures
        r.deep_view().no_duplicates(),
        r.deep_view().to_set() == name_values(results@).to_set(),
{
    let n = results.len();
    let mut names: Vec<String> = Vec::new();
    let mut i: usize = 0;
    while i < n
        invariant
            n == results@.len(),
            i <= n,
            names.deep_view() =~= name_values(results@.take(i as int)),
        decreases n - i,
    {
        let ghost oldv = names.deep_view();
        names.push(results[i].name_value.clone());
        proof {
            assert(names.deep_view() =~= oldv.push(results@[i as int].name_value@));
            assert(names.deep_view() =~= name_values(results@.take(i as int + 1)));
        }
        i = i + 1;
    }
    proof {
        assert(results@.take(n as int) =~= results@);
    }
    dedup_names(&names)
}

/// Turns a fetched crt.sh body into this source's result: the deduplicated
/// names of the decoded records, or an empty-result error when the service
/// answered with no body at all.
pub fn process(host: &str, resp: Option<Vec<CrtshResult>>) -> (r: Result<Vec<String>, SourceError>)
    ensures
        match resp {
            None => r matches Err(e) && e@ == error_view(
                SourceKind::CrtSh,
                SourceCause::EmptyResult,
                host@,
            ),
            Some(data) => r matches Ok(out) && out.deep_view().no_duplicates()
                && out.deep_view().to_set() == name_values(data@).to_set(),
        },
{
    match resp {
        None => Err(SourceError::new(SourceKind::CrtSh, SourceCause::EmptyResult, host.to_owned())),
        Some(data) => Ok(subdomains(&data)),
    }
}

} // verus!
