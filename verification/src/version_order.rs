//! Semantic-version ordering of version texts, as the `semver` crate decides it.

use vstd::prelude::*;

verus! {

/// How `semver` orders two version texts: `Some(-1)`, `Some(0)` or `Some(1)`
/// when both parse as semantic versions, `None` when either does not.
pub uninterp spec fn semver_order(a: Seq<char>, b: Seq<char>) -> Option<i8>;

/// The opposite answer of an ordering.
pub open spec fn reversed_order(x: i8) -> i8 {
    if x < 0 {
        1i8
    } else if x > 0 {
        -1i8
    } else {
        0i8
    }
}

/// Parses both texts with `semver::Version::parse` and, when both parse,
/// compares them with `Ord::cmp` on `semver::Version`.
///
/// The contract claims that the answer depends on the two texts alone, is one
/// of -1, 0, 1, is present exactly when each text parses on its own, and that
/// swapping the texts reverses it (`Ord` requires
/// `b.cmp(a) == a.cmp(b).reverse()`). What the grammar accepts and how
/// pre-release and build parts are ordered is not restated.
#[verifier::external_body]
pub(crate) fn semver_compare(a: &str, b: &str) -> (r: Option<i8>)
    ensures
        r == semver_order(a@, b@),
        r matches Some(x) ==> -1 <= x <= 1,
        r matches Some(x) ==> semver_order(b@, a@) == Some(reversed_order(x)),
        r is None ==> semver_order(b@, a@) is None,
        r is Some <==> (semver_order(a@, a@) is Some && semver_order(b@, b@) is Some),
{
    match (semver::Version::parse(a), semver::Version::parse(b)) {
        (Ok(va), Ok(vb)) => Some(
            match va.cmp(&vb) {
                std::cmp::Ordering::Less => -1,
                std::cmp::Ordering::Equal => 0,
                std::cmp::Ordering::Greater => 1,
            },
        ),
        _ => None,
    }
}

} // verus!
