use vstd::prelude::*;
use vstd::string::StringExecFns;
use crate::jsonval::{json_as_array, json_array_of, json_as_str, json_str_of};
use crate::outcome::{SourceError, SourceKind, SourceCause, error_view};
use crate::aggregate::dedup_names;

verus! {

// The Wayback Machine's CDX endpoint answers with a JSON array of rows,
// each row an array whose first cell is an archived URL.  The candidate
// name is the host part of that URL; rows whose text does not parse as a
// URL with a host carry no candidate.

/// The query for `host` against the Wayback CDX endpoint.
pub fn build_url(host: &str) -> (r: String)
    ensures
        r@ == "https://web.archive.org/cdx/search/cdx?url=*."@ + host@
            + "/*&output=json&fl=original&collapse=urlkey&limit=100000"@,
{
    let mut url = String::from_str("https://web.archive.org/cdx/search/cdx?url=*.");
    url.append(host);
    url.append("/*&output=json&fl=original&collapse=urlkey&limit=100000");
    url
}

/// The error the Wayback Machine reports when it has no results for a host.
pub struct WaybackError {
    pub host: String,
}

impl WaybackError {
    pub fn new(host: String) -> (r: Self)
        ensures
            r.host@ == host@,
    {
        Self { host }
    }

    /// The user-facing description of this error.
    pub fn message(&self) -> (r: String)
        ensures
            r@ == "WaybackMachine couldn't find any results for: "@ + self.host@,
    {
        let mut m = String::from_str("WaybackMachine couldn't find any results for: ");
        m.append(self.host.as_str());
        m
    }
}

/// The host part of the URL `s`, when `s` parses as a URL with a host.
pub uninterp spec fn url_host_of(s: Seq<char>) -> Option<Seq<char>>;

/// Relies on url::Url::parse and url::Url::host_str: both depend on the
/// input text alone, and `host_str` returns the host part exactly when the
/// parsed URL has one.
#[verifier::external_body]
fn url_host(s: &str) -> (r: Option<String>)
    ensures
        match r {
            Some(h) => url_host_of(s@) == Some(h@),
            None => url_host_of(s@) is None,
        },
{
    match url::Url::parse(s) {
        Ok(u) => u.host_str().map(|h| h.to_string()),
        Err(_) => None,
    }
}

/// A row is well formed when it is an array whose first cell is a string.
pub open spec fn row_ok(row: serde_json::Value) -> bool {
    match json_array_of(row) {
        Some(cells) => cells.len() > 0 && json_str_of(cells[0]) is Some,
        None => false,
    }
}

/// The text of a well-formed row's first cell.
pub open spec fn row_text(row: serde_json::Value) -> Seq<char> {
    json_str_of(json_array_of(row).unwrap()[0]).unwrap()
}

pub open spec fn all_rows_ok(rows: Seq<serde_json::Value>) -> bool {
    forall|i: int| 0 <= i < rows.len() ==> row_ok(#[trigger] rows[i])
}

/// The hosts of the rows' URLs, in row order, skipping texts that do not
/// parse as a URL with a host.
pub open spec fn hosts_of(rows: Seq<serde_json::Value>) -> Seq<Seq<char>>
    decreases rows.len(),
{
    if rows.len() == 0 {
        Seq::empty()
    } else {
        hosts_of(rows.drop_last()) + match url_host_of(row_text(rows.last())) {
            Some(h) => seq![h],
            None => Seq::empty(),
        }
    }
}

/// Turns a fetched Wayback body into this source's result: the
/// deduplicated hosts of the archived URLs on a well-formed, non-empty
/// answer; an empty-result error when the body is missing or yields no
/// hosts; a decode error when the body or a row has the wrong shape.
pub fn process(host: &str, resp: Option<serde_json::Value>) -> (r: Result<Vec<String>, SourceError>)
    ensures
        match resp {
            None => r matches Err(e) && e@ == error_view(
                SourceKind::Wayback,
                SourceCause::EmptyResult,
                host@,
            ),
            Some(v) => match json_array_of(v) {
                None => r matches Err(e) && e@ == error_view(
                    SourceKind::Wayback,
                    SourceCause::DecodeFailure,
                    host@,
                ),
                Some(rows) => if !all_rows_ok(rows) {
                    r matches Err(e) && e@ == error_view(
                        SourceKind::Wayback,
                        SourceCause::DecodeFailure,
                        host@,
                    )
                } else if hosts_of(rows).len() > 0 {
                    r matches Ok(out) && out.deep_view().to_set() == hosts_of(rows).to_set()
                        && out.deep_view().no_duplicates()
                } else {
                    r matches Err(e) && e@ == error_view(
                        SourceKind::Wayback,
                        SourceCause::EmptyResult,
                        host@,
                    )
                },
            },
        },
{
    match resp {
        None => Err(
            SourceError::new(SourceKind::Wayback, SourceCause::EmptyResult, host.to_owned()),
        ),
        Some(v) => match json_as_array(&v) {
            None => Err(
                SourceError::new(SourceKind::Wayback, SourceCause::DecodeFailure, host.to_owned()),
            ),
            Some(rows) => {
                let n = rows.len();
                let mut names: Vec<String> = Vec::new();
                let mut i: usize = 0;
                while i < n
                    invariant
                        resp matches Some(vv) && json_array_of(vv) == Some(rows@),
                        n == rows@.len(),
                        i <= n,
                        forall|k: int| 0 <= k < i ==> row_ok(#[trigger] rows@[k]),
                        names.deep_view() =~= hosts_of(rows@.take(i as int)),
                    decreases n - i,
                {
                    let bad = SourceCause::DecodeFailure;
                    match json_as_array(&rows[i]) {
                        None => {
                            proof {
                                assert(!row_ok(rows@[i as int]));
                                assert(!all_rows_ok(rows@));
                            }
                            return Err(
                                SourceError::new(SourceKind::Wayback, bad, host.to_owned()),
                            );
                        },
                        Some(cells) => {
                            if cells.len() == 0 {
                                proof {
                                    assert(!row_ok(rows@[i as int]));
                                    assert(!all_rows_ok(rows@));
                                }
                                return Err(
                                    SourceError::new(SourceKind::Wayback, bad, host.to_owned()),
                                );
                            }
                            match json_as_str(&cells[0]) {
                                None => {
                                    proof {
                                        assert(!row_ok(rows@[i as int]));
                                        assert(!all_rows_ok(rows@));
                                    }
                                    return Err(
                                        SourceError::new(SourceKind::Wayback, bad, host.to_owned()),
                                    );
                                },
                                Some(text) => {
                                    proof {
                                        assert(row_ok(rows@[i as int]));
                                        assert(text@ == row_text(rows@[i as int]));
                                    }
                                    let ghost oldv = names.deep_view();
                                    match url_host(text.as_str()) {
                                        Some(h) => {
                                            names.push(h);
                                            proof {
                                                assert(names.deep_view() =~= oldv.push(
                                                    url_host_of(row_text(rows@[i as int])).unwrap(),
                                                ));
                                            }
                                        },
                                        None => {},
                                    }
                                    proof {
                                        let w = rows@.take(i as int + 1);
                                        assert(w.drop_last() =~= rows@.take(i as int));
                                        assert(w.last() == rows@[i as int]);
                                        assert(names.deep_view() =~= hosts_of(w));
                                    }
                                },
                            }
                        },
                    }
                    i = i + 1;
                }
                proof {
                    assert(rows@.take(n as int) =~= rows@);
                    assert(all_rows_ok(rows@));
                }
                let ghost hs = hosts_of(rows@);
                let out = dedup_names(&names);
                if out.len() > 0 {
                    proof {
                        assert(out.deep_view().contains(out.deep_view()[0]));
                        assert(hs.to_set().contains(out.deep_view()[0]));
                        assert(hs.len() > 0);
                    }
                    Ok(out)
                } else {
                    proof {
                        if hs.len() > 0 {
                            assert(hs.contains(hs[0]));
                            assert(out.deep_view().to_set().contains(hs[0]));
                            assert(out.deep_view().contains(hs[0]));
                        }
                    }
                    Err(
                        SourceError::new(
                            SourceKind::Wayback,
                            SourceCause::EmptyResult,
                            host.to_owned(),
                        ),
                    )
                }
            },
        },
    }
}

} // verus!
