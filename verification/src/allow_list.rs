use vstd::prelude::*;

use crate::text::{contains_seq, contains_str, is_substring_at};

verus! {

/// Unordered set of host substrings used to decide which hosts are in scope.
///
/// An empty list places every host in scope; otherwise a host is in scope
/// exactly when some member occurs as a substring of it.
#[derive(Clone)]
pub struct AllowList {
    domains: Vec<String>,
}

impl AllowList {
    /// The list of substrings, as sequences of characters.
    pub closed spec fn view(&self) -> Seq<Seq<char>> {
        self.domains.deep_view()
    }

    /// What `in_scope` decides: true iff the list is empty or some member
    /// is a substring of `url`.
    pub open spec fn spec_in_scope(domains: Seq<Seq<char>>, url: Seq<char>) -> bool {
        domains.len() == 0 || exists|k: int|
            0 <= k < domains.len() && contains_seq(url, domains[k])
    }

    pub fn new(domains: Vec<String>) -> (r: Self)
        ensures
            r@ == domains.deep_view(),
    {
        Self { domains }
    }

    pub fn in_scope(&self, url: &str) -> (r: bool)
        ensures
            r == Self::spec_in_scope(self@, url@),
    {
        if self.domains.len() == 0 {
            return true;
        }
        let mut k: usize = 0;
        while k < self.domains.len()
            invariant
                0 <= k <= self.domains.len(),
                self@.len() == self.domains.len(),
                forall|m: int| 0 <= m < self@.len() ==> self@[m] == self.domains@[m]@,
                forall|m: int| 0 <= m < k ==> !contains_seq(url@, self@[m]),
            decreases self.domains.len() - k,
        {
            if contains_str(url, self.domains[k].as_str()) {
                assert(contains_seq(url@, self@[k as int]));
                return true;
            }
            k = k + 1;
        }
        false
    }
}

/// The allow-list law: with every member non-empty, `in_scope` holds of
/// every host exactly when the list is empty; a non-empty list always
/// rejects some host. (A list holding the empty string would place every
/// host in scope, which is why the members are required non-empty here.)
pub proof fn lemma_in_scope_iff_empty(domains: Seq<Seq<char>>)
    requires
        forall|k: int| 0 <= k < domains.len() ==> (#[trigger] domains[k]).len() > 0,
    ensures
        (forall|x: Seq<char>| AllowList::spec_in_scope(domains, x)) <==> domains.len() == 0,
{
    if domains.len() > 0 {
        assert(!AllowList::spec_in_scope(domains, Seq::empty())) by {
            if exists|k: int| 0 <= k < domains.len() && contains_seq(
                Seq::empty(),
                #[trigger] domains[k],
            ) {
                let k = choose|k: int| 0 <= k < domains.len() && contains_seq(
                    Seq::empty(),
                    #[trigger] domains[k],
                );
                let i = choose|i: int| is_substring_at(Seq::empty(), domains[k], i);
                assert(i + domains[k].len() <= 0);
            }
        }
    }
}

} // verus!
