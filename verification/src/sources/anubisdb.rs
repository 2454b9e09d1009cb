use vstd::prelude::*;
use vstd::string::StringExecFns;
use crate::jsonval::{json_as_array, json_array_of, string_values, all_strings, strings_of};
use crate::outcome::{SourceError, SourceKind, SourceCause, error_view};
use crate::aggregate::dedup_names;

verus! {

// The AnubisDB provider answers with a JSON array of subdomain strings.

/// The query for `host` against the AnubisDB endpoint.
pub fn build_url(host: &str) -> (r: String)
    ensures
        r@ == "https://jldc.me/anubis/subdomains/"@ + host@,
{
    let mut url = String::from_str("https://jldc.me/anubis/subdomains/");
    url.append(host);
    url
}

/// The error AnubisDB reports when it has no results for a host.
pub struct AnubisError {
    pub host: String,
}

impl AnubisError {
    pub fn new(host: String) -> (r: Self)
        ensures
            r.host@ == host@,
    {
        Self { host }
    }

    /// The user-facing description of this error.
    pub fn message(&self) -> (r: String)
        ensures
            r@ == "AnubisDB couldn't find any results for: "@ + self.host@,
    {
        let mut m = String::from_str("AnubisDB couldn't find any results for: ");
        m.append(self.host.as_str());
        m
    }
}

/// The names an AnubisDB response body holds: the texts of its elements,
/// when the body is an array of strings.
pub open spec fn anubis_names(v: serde_json::Value) -> Option<Seq<Seq<char>>> {
    match json_array_of(v) {
        Some(a) => if all_strings(a) {
            Some(strings_of(a))
        } else {
            None
        },
        None => None,
    }
}

/// Turns a fetched AnubisDB body into this source's result: the
/// deduplicated names on a well-formed, non-empty answer; an empty-result
/// error when the body is missing or holds no names; a decode error when
/// the body has the wrong shape.
pub fn process(host: &str, resp: Option<serde_json::Value>) -> (r: Result<Vec<String>, SourceError>)
    ensures
        match resp {
            None => r matches Err(e) && e@ == error_view(
                SourceKind::AnubisDb,
                SourceCause::EmptyResult,
                host@,
            ),
            Some(v) => match anubis_names(v) {
                None => r matches Err(e) && e@ == error_view(
                    SourceKind::AnubisDb,
                    SourceCause::DecodeFailure,
                    host@,
                ),
                Some(ns) => if ns.len() > 0 {
                    r matches Ok(out) && out.deep_view().to_set() == ns.to_set()
                        && out.deep_view().no_duplicates()
                } else {
                    r matches Err(e) && e@ == error_view(
                        SourceKind::AnubisDb,
                        SourceCause::EmptyResult,
                        host@,
                    )
                },
            },
        },
{
    match resp {
        None => Err(
            SourceError::new(SourceKind::AnubisDb, SourceCause::EmptyResult, host.to_owned()),
        ),
        Some(v) => match json_as_array(&v) {
            None => Err(
                SourceError::new(SourceKind::AnubisDb, SourceCause::DecodeFailure, host.to_owned()),
            ),
            Some(arr) => match string_values(arr) {
                None => Err(
                    SourceError::new(
                        SourceKind::AnubisDb,
                        SourceCause::DecodeFailure,
                        host.to_owned(),
                    ),
                ),
                Some(names) => {
                    let ghost ns = strings_of(arr@);
                    let out = dedup_names(&names);
                    if out.len() > 0 {
                        proof {
                            assert(out.deep_view().contains(out.deep_view()[0]));
                            assert(ns.to_set().contains(out.deep_view()[0]));
                            assert(ns.len() > 0);
                        }
                        Ok(out)
                    } else {
                        proof {
                            if ns.len() > 0 {
                                assert(ns.contains(ns[0]));
                                assert(out.deep_view().to_set().contains(ns[0]));
                                assert(out.deep_view().contains(ns[0]));
                            }
                        }
                        Err(
                            SourceError::new(
                                SourceKind::AnubisDb,
                                SourceCause::EmptyResult,
                                host.to_owned(),
                            ),
                        )
                    }
                },
            },
        },
    }
}

} // verus!
