use vstd::prelude::*;
use crate::outcome::{SourceOutcome, OutcomeView, SourceError, ErrorView, SourceCause, SourceKind, error_view};
use crate::aggregate::{merge, merged};

verus! {

// The run report: the merged subdomain set plus one error entry for each
// source that failed or came back empty.  Assembling it is pure data
// composition; every outcome has been collected by the time it runs.

/// The error entries one outcome contributes: a failure carries its own
/// error through; a successful outcome with an empty set surfaces as an
/// empty-result error, so that a source that found nothing never vanishes
/// silently.
pub open spec fn outcome_errors(o: OutcomeView, host: Seq<char>) -> Seq<ErrorView> {
    match o {
        OutcomeView::Found(kind, names) => if names.len() == 0 {
            seq![error_view(kind, SourceCause::EmptyResult, host)]
        } else {
            Seq::empty()
        },
        OutcomeView::Failed(e) => seq![e],
    }
}

/// The error entries of a whole run, in outcome order.
pub open spec fn errors_of(os: Seq<OutcomeView>, host: Seq<char>) -> Seq<ErrorView>
    decreases os.len(),
{
    if os.len() == 0 {
        Seq::empty()
    } else {
        errors_of(os.drop_last(), host) + outcome_errors(os.last(), host)
    }
}

/// The final artifact of a run: the merged set of subdomains and the list
/// of per-source failures.
pub struct RunReport {
    pub subdomains: Vec<String>,
    pub errors: Vec<SourceError>,
}

/// Assembles the report from every collected outcome: the subdomains are
/// the merged, normalized, deduplicated union of the successful outcomes,
/// and the errors hold one entry per failed or empty outcome.
pub fn run_report(host: &str, outcomes: &Vec<SourceOutcome>) -> (r: RunReport)
    ensures
        r.subdomains.deep_view().no_duplicates(),
        r.subdomains.deep_view().to_set() == merged(outcomes.deep_view(), host@),
        r.errors.deep_view() == errors_of(outcomes.deep_view(), host@),
{
    let ghost osv = outcomes.deep_view();
    let subdomains = merge(outcomes, host);
    let n = outcomes.len();
    let mut errors: Vec<SourceError> = Vec::new();
    let mut i: usize = 0;
    while i < n
        invariant
            n == outcomes@.len(),
            osv == outcomes.deep_view(),
            osv.len() == n,
            i <= n,
            errors.deep_view() == errors_of(osv.take(i as int), host@),
        decreases n - i,
    {
        proof {
            assert(outcomes@[i as int].deep_view() == osv[i as int]);
        }
        let ghost eold = errors.deep_view();
        match &outcomes[i] {
            SourceOutcome::Found(kind, names) => {
                if names.len() == 0 {
                    errors.push(SourceError::new(*kind, SourceCause::EmptyResult, host.to_owned()));
                    proof {
                        assert(errors.deep_view() =~= eold.push(
                            error_view(*kind, SourceCause::EmptyResult, host@),
                        ));
                    }
                } else {
                    proof {
                        assert(osv[i as int] matches OutcomeView::Found(_, ns) && ns.len() > 0);
                    }
                }
            },
            SourceOutcome::Failed(e) => {
                let copy = e.duplicate();
                errors.push(copy);
                proof {
                    assert(errors.deep_view() =~= eold.push(e@));
                }
            },
        }
        i = i + 1;
        proof {
            let w = osv.take(i as int);
            assert(w.drop_last() =~= osv.take(i as int - 1));
            assert(w.last() == osv[i as int - 1]);
            assert(errors.deep_view() =~= errors_of(w, host@));
        }
    }
    proof {
        assert(osv.take(n as int) =~= osv);
    }
    RunReport { subdomains, errors }
}

/// A run where every source failed reports an empty subdomain set and one
/// error entry per source.
pub proof fn lemma_all_failed(os: Seq<OutcomeView>, host: Seq<char>)
    requires
        forall|i: int| 0 <= i < os.len() ==> os[i] is Failed,
    ensures
        merged(os, host) == Set::<Seq<char>>::empty(),
        errors_of(os, host).len() == os.len(),
    decreases os.len(),
{
    assert forall|s: Seq<char>| !merged(os, host).contains(s) by {
        if merged(os, host).contains(s) {
            let i = choose|i: int| 0 <= i < os.len() && crate::aggregate::contributes(
                #[trigger] os[i],
                s,
                host,
            );
        }
    }
    assert(merged(os, host) =~= Set::<Seq<char>>::empty());
    if os.len() > 0 {
        lemma_all_failed(os.drop_last(), host);
        assert(os.last() is Failed);
        assert(outcome_errors(os.last(), host).len() == 1);
    }
}

/// A source abandoned on a timeout is recorded as exactly one transport
/// failure, and contributes that one error entry to the report.
pub fn timeout_outcome(kind: SourceKind, host: String) -> (r: SourceOutcome)
    ensures
        r@ matches OutcomeView::Failed(e) && e == error_view(
            kind,
            SourceCause::TransportFailure,
            host@,
        ),
        outcome_errors(r@, host@) == seq![
            error_view(kind, SourceCause::TransportFailure, host@),
        ],
{
    let ghost hv = host@;
    let r = SourceOutcome::Failed(SourceError::new(kind, SourceCause::TransportFailure, host));
    proof {
        assert(outcome_errors(r@, hv) =~= seq![
            error_view(kind, SourceCause::TransportFailure, hv),
        ]);
    }
    r
}

} // verus!
