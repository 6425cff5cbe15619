//! Picking the latest version number, compared by the `version_compare` crate.
use vstd::prelude::*;
use crate::text::{first_index_of, position_of, views};

verus! {

/// What `version_compare::compare_to(a, b, Cmp::Gt)` answers: `None` when
/// either string is not a version, else whether `a` is the greater one.
pub uninterp spec fn version_greater_than(a: Seq<char>, b: Seq<char>) -> Option<bool>;

/// `version_compare::compare_to(a, b, Cmp::Gt)`, its unit error turned into
/// `None`. Claims only that the answer is the one named by `version_greater_than`.
#[verifier::external_body]
fn version_greater(a: &str, b: &str) -> (res: Option<bool>)
    ensures
        res == version_greater_than(a@, b@),
{
    version_compare::compare_to(a, b, version_compare::Cmp::Gt).ok()
}

/// Why no latest version could be picked.
#[derive(Clone, Copy, Debug, PartialEq, Eq)]
pub enum VersionError {
    /// The list is empty.
    NoVersions,
    /// A string of the list is not a version number.
    Unparsable,
    /// No version of the list is greater than the empty version, so the
    /// winner is not one of them.
    NotListed,
}

/// The version kept after walking the first `n` entries, starting from the
/// empty version and keeping an entry whenever it is greater than the one
/// kept so far; `None` as soon as a comparison is refused.
pub open spec fn latest_version_upto(list: Seq<Seq<char>>, n: int) -> Option<Seq<char>>
    decreases n,
{
    if n <= 0 {
        Some(Seq::<char>::empty())
    } else {
        match latest_version_upto(list, n - 1) {
            None => None,
            Some(cur) => match version_greater_than(list[n - 1], cur) {
                None => None,
                Some(true) => Some(list[n - 1]),
                Some(false) => Some(cur),
            },
        }
    }
}

/// Returns the greatest version of the list and the index of its first
/// occurrence.
pub fn biggerst_version_number(version_list: Vec<String>) -> (res: Result<(String, usize), VersionError>)
    ensures
        version_list.len() == 0 ==> res == Err::<(String, usize), VersionError>(VersionError::NoVersions),
        version_list.len() > 0 ==> match latest_version_upto(views(version_list@), version_list.len() as int) {
            None => res == Err::<(String, usize), VersionError>(VersionError::Unparsable),
            Some(v) => match first_index_of(views(version_list@), v) {
                Some(i) => res matches Ok((s, j)) && s@ == v && j == i && version_list@[j as int]@
                    == s@,
                None => res == Err::<(String, usize), VersionError>(VersionError::NotListed),
            },
        },
{
    if version_list.len() == 0 {
        return Err(VersionError::NoVersions);
    }
    let ghost list = views(version_list@);
    let mut version_numer = String::new();
    for i in 0..version_list.len()
        invariant
            list == views(version_list@),
            latest_version_upto(list, i as int) == Some(version_numer@),
    {
        assert(list[i as int] == version_list@[i as int]@);
        match version_greater(version_list[i].as_str(), version_numer.as_str()) {
            None => {
                proof {
                    lemma_latest_none_sticks(list, i as int + 1, version_list.len() as int);
                }
                return Err(VersionError::Unparsable);
            },
            Some(true) => {
                version_numer = version_list[i].clone();
            },
            Some(false) => {},
        }
    }
    match position_of(&version_list, version_numer.as_str()) {
        Some(i) => {
            proof {
                lemma_first_index_of_hit(list, version_numer@);
            }
            Ok((version_numer, i))
        },
        None => Err(VersionError::NotListed),
    }
}

/// Whether `a` is one of the versions the walk compares: an entry of the
/// list, or the empty version it starts from.
pub open spec fn compared_version(list: Seq<Seq<char>>, a: Seq<char>) -> bool {
    a == Seq::<char>::empty() || list.contains(a)
}

/// Whether `version_compare` orders the compared versions as a total
/// preorder: every comparison answers, no version is greater than itself,
/// greater one way means not greater the other way, and "not greater"
/// chains.
pub open spec fn version_order_on(list: Seq<Seq<char>>) -> bool {
    &&& forall|a: Seq<char>, b: Seq<char>|
        compared_version(list, a) && compared_version(list, b)
            ==> (#[trigger] version_greater_than(a, b)) is Some
    &&& forall|a: Seq<char>|
        compared_version(list, a) ==> #[trigger] version_greater_than(a, a) == Some(false)
    &&& forall|a: Seq<char>, b: Seq<char>|
        compared_version(list, a) && compared_version(list, b) && #[trigger] version_greater_than(
            a,
            b,
        ) == Some(true) ==> version_greater_than(b, a) == Some(false)
    &&& forall|a: Seq<char>, b: Seq<char>, c: Seq<char>|
        compared_version(list, a) && compared_version(list, b) && compared_version(list, c)
            && #[trigger] version_greater_than(a, b) == Some(false) && #[trigger] version_greater_than(
            b,
            c,
        ) == Some(false) ==> version_greater_than(a, c) == Some(false)
}

proof fn lemma_latest_greatest_prefix(list: Seq<Seq<char>>, n: int)
    requires
        version_order_on(list),
        0 <= n <= list.len(),
    ensures
        latest_version_upto(list, n) is Some,
        compared_version(list, latest_version_upto(list, n).unwrap()),
        forall|i: int|
            0 <= i < n ==> version_greater_than(list[i], latest_version_upto(list, n).unwrap())
                == Some(false),
    decreases n,
{
    if n > 0 {
        lemma_latest_greatest_prefix(list, n - 1);
        let cur = latest_version_upto(list, n - 1).unwrap();
        let x = list[n - 1];
        assert(list.contains(x));
        assert(compared_version(list, x));
        assert(version_greater_than(x, cur) is Some);
        assert(version_greater_than(x, x) == Some(false));
        if version_greater_than(x, cur) == Some(true) {
            assert(version_greater_than(cur, x) == Some(false));
            assert forall|i: int| 0 <= i < n implies version_greater_than(list[i], x) == Some(false) by {
                if i < n - 1 {
                    assert(version_greater_than(list[i], cur) == Some(false));
                    assert(list.contains(list[i]));
                }
            }
        }
    }
}

/// Whenever `version_compare` orders the compared versions as a total
/// preorder, the version picked is a greatest one: no entry of the list is
/// greater than it.
pub proof fn lemma_latest_is_greatest(list: Seq<Seq<char>>)
    ensures
        version_order_on(list) ==> {
            &&& latest_version_upto(list, list.len() as int) is Some
            &&& forall|i: int|
                0 <= i < list.len() ==> version_greater_than(
                    list[i],
                    latest_version_upto(list, list.len() as int).unwrap(),
                ) == Some(false)
        },
{
    if version_order_on(list) {
        lemma_latest_greatest_prefix(list, list.len() as int);
    }
}

/// The index that `first_index_of` finds holds the element looked for.
proof fn lemma_first_index_of_hit(s: Seq<Seq<char>>, x: Seq<char>)
    ensures
        first_index_of(s, x) matches Some(i) ==> 0 <= i < s.len() && s[i] == x,
    decreases s.len(),
{
    if s.len() > 0 {
        lemma_first_index_of_hit(s.drop_first(), x);
    }
}

/// Once a comparison is refused, the walk stays refused.
proof fn lemma_latest_none_sticks(list: Seq<Seq<char>>, i: int, n: int)
    requires
        1 <= i <= n,
        latest_version_upto(list, i) is None,
    ensures
        latest_version_upto(list, n) is None,
    decreases n - i,
{
    if i < n {
        lemma_latest_none_sticks(list, i + 1, n);
    }
}

} // verus!
