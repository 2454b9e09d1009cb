use vstd::prelude::*;

verus! {

// The JSON values that the upstream services answer with are parsed by
// serde_json; this module declares that opaque value type and names what a
// value holds, so that the adapters' extraction logic can be verified
// against it.

#[verifier::external_type_specification]
#[verifier::external_body]
pub struct ExValue(serde_json::Value);

/// The elements of `v`, when `v` is a JSON array.
pub uninterp spec fn json_array_of(v: serde_json::Value) -> Option<Seq<serde_json::Value>>;

/// The text of `v`, when `v` is a JSON string.
pub uninterp spec fn json_str_of(v: serde_json::Value) -> Option<Seq<char>>;

/// Relies on serde_json::Value::as_array: it returns the element vector
/// exactly when the value is a JSON array, and nothing otherwise.
#[verifier::external_body]
pub(crate) fn json_as_array(v: &serde_json::Value) -> (r: Option<&Vec<serde_json::Value>>)
    ensures
        match r {
            Some(a) => json_array_of(*v) == Some(a@),
            None => json_array_of(*v) is None,
        },
{
    v.as_array()
}

/// Relies on serde_json::Value::as_str: it returns the text exactly when
/// the value is a JSON string, and nothing otherwise.
#[verifier::external_body]
pub(crate) fn json_as_str(v: &serde_json::Value) -> (r: Option<String>)
    ensures
        match r {
            Some(s) => json_str_of(*v) == Some(s@),
            None => json_str_of(*v) is None,
        },
{
    v.as_str().map(|s| s.to_string())
}

/// Every element of `a` is a JSON string.
pub open spec fn all_strings(a: Seq<serde_json::Value>) -> bool {
    forall|i: int| 0 <= i < a.len() ==> json_str_of(#[trigger] a[i]) is Some
}

/// The texts of a sequence of JSON strings.
pub open spec fn strings_of(a: Seq<serde_json::Value>) -> Seq<Seq<char>> {
    Seq::new(a.len(), |i: int| json_str_of(a[i]).unwrap())
}

/// Reads a JSON array of strings into a vector of its texts; fails exactly
/// when some element is not a string.
pub fn string_values(arr: &Vec<serde_json::Value>) -> (r: Option<Vec<String>>)
    ensures
        match r {
            Some(out) => all_strings(arr@) && out.deep_view() == strings_of(arr@),
            None => !all_strings(arr@),
        },
{
    let n = arr.len();
    let mut out: Vec<String> = Vec::new();
    let mut i: usize = 0;
    while i < n
        invariant
            n == arr@.len(),
            i <= n,
            forall|k: int| 0 <= k < i ==> json_str_of(#[trigger] arr@[k]) is Some,
            out.deep_view() =~= strings_of(arr@.take(i as int)),
        decreases n - i,
    {
        match json_as_str(&arr[i]) {
            Some(s) => {
                let ghost oldv = out.deep_view();
                out.push(s);
                proof {
                    assert(out.deep_view() =~= oldv.push(json_str_of(arr@[i as int]).unwrap()));
                    assert(out.deep_view() =~= strings_of(arr@.take(i as int + 1)));
                }
            },
            None => {
                return None;
            },
        }
        i = i + 1;
    }
    proof {
        assert(arr@.take(n as int) =~= arr@);
        assert(out.deep_view() =~= strings_of(arr@));
    }
    Some(out)
}

} // verus!
