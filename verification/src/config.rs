use vstd::prelude::*;

use crate::allow_list::AllowList;
use crate::weburl::{url_parse, url_parse_of};

verus! {

/// The proxy's configuration, as plain values. Argument and environment
/// parsing live with the program around the library; the library receives
/// the finished values.
pub struct Config {
    pub urls: Option<Vec<String>>,
    pub port: String,
    pub output: String,
    pub certs_dir: String,
    pub pretty: bool,
    pub allow_list: Vec<String>,
}

/// The hosts of the URLs that parse and carry a non-empty host, in order.
pub open spec fn spec_domains_of(urls: Seq<Seq<char>>) -> Seq<Seq<char>>
    decreases urls.len(),
{
    if urls.len() == 0 {
        Seq::empty()
    } else {
        let rest = spec_domains_of(urls.take(urls.len() - 1));
        match url_parse_of(urls[urls.len() - 1]) {
            Some(t) => if t.1.len() > 0 {
                rest.push(t.1)
            } else {
                rest
            },
            None => rest,
        }
    }
}

/// The host of every seed URL that parses, for allow-list seeding.
pub fn extract_domains_from_urls(urls: &Vec<String>) -> (r: Vec<String>)
    ensures
        r.deep_view() == spec_domains_of(urls.deep_view()),
{
    let mut out: Vec<String> = Vec::new();
    let mut i: usize = 0;
    proof {
        assert(urls.deep_view().take(0) =~= Seq::<Seq<char>>::empty());
        assert(out.deep_view() =~= Seq::<Seq<char>>::empty());
    }
    while i < urls.len()
        invariant
            0 <= i <= urls.len(),
            urls.deep_view().len() == urls.len(),
            out.deep_view() == spec_domains_of(urls.deep_view().take(i as int)),
        decreases urls.len() - i,
    {
        let ghost pre = out.deep_view();
        proof {
            let dv = urls.deep_view();
            assert(dv.take(i + 1).take(i as int) =~= dv.take(i as int));
            assert(dv.take(i + 1)[i as int] == dv[i as int]);
            assert(dv[i as int] == urls@[i as int]@);
        }
        match url_parse(urls[i].as_str()) {
            Some(u) => {
                if u.host.as_str().unicode_len() > 0 {
                    out.push(u.host);
                    proof {
                        assert(out.deep_view() =~= pre.push(
                            url_parse_of(urls.deep_view()[i as int])->Some_0.1,
                        ));
                    }
                }
            },
            None => {},
        }
        i = i + 1;
    }
    proof {
        assert(urls.deep_view().take(urls.len() as int) =~= urls.deep_view());
    }
    out
}

/// The allow-list merged from the explicit entries and the seed URLs'
/// hosts: the entries first, then each host not already present, in order.
pub open spec fn spec_merged_allow(base: Seq<Seq<char>>, domains: Seq<Seq<char>>) -> Seq<Seq<char>>
    decreases domains.len(),
{
    if domains.len() == 0 {
        base
    } else {
        let rest = spec_merged_allow(base, domains.take(domains.len() - 1));
        if rest.contains(domains[domains.len() - 1]) {
            rest
        } else {
            rest.push(domains[domains.len() - 1])
        }
    }
}

fn vec_contains_string(v: &Vec<String>, s: &str) -> (r: bool)
    ensures
        r == v.deep_view().contains(s@),
{
    let mut i: usize = 0;
    while i < v.len()
        invariant
            0 <= i <= v.len(),
            v.deep_view().len() == v.len(),
            forall|j: int| 0 <= j < i ==> v.deep_view()[j] != s@,
        decreases v.len() - i,
    {
        if crate::text::eq_str(v[i].as_str(), s) {
            proof {
                assert(v.deep_view()[i as int] == v@[i as int]@);
            }
            return true;
        }
        proof {
            assert(v.deep_view()[i as int] == v@[i as int]@);
        }
        i = i + 1;
    }
    proof {
        if v.deep_view().contains(s@) {
            let k = choose|k: int| 0 <= k < v.deep_view().len() && v.deep_view()[k] == s@;
            assert(v.deep_view()[k] != s@);
        }
    }
    false
}

/// Merges the seed URLs' hosts into the explicit allow-list, skipping hosts
/// already present, and builds the allow-list the filter stage shares.
pub fn build_allow_list(explicit: Vec<String>, urls: &Vec<String>) -> (r: AllowList)
    ensures
        r@ == spec_merged_allow(explicit.deep_view(), spec_domains_of(urls.deep_view())),
{
    let ghost base = explicit.deep_view();
    let domains = extract_domains_from_urls(urls);
    let mut merged = explicit;
    let mut i: usize = 0;
    proof {
        assert(domains.deep_view().take(0) =~= Seq::<Seq<char>>::empty());
    }
    while i < domains.len()
        invariant
            0 <= i <= domains.len(),
            domains.deep_view().len() == domains.len(),
            domains.deep_view() == spec_domains_of(urls.deep_view()),
            merged.deep_view() == spec_merged_allow(base, domains.deep_view().take(i as int)),
        decreases domains.len() - i,
    {
        let ghost pre = merged.deep_view();
        proof {
            let dv = domains.deep_view();
            assert(dv.take(i + 1).take(i as int) =~= dv.take(i as int));
            assert(dv.take(i + 1)[i as int] == dv[i as int]);
            assert(dv[i as int] == domains@[i as int]@);
        }
        let d = crate::text::clone_string(&domains[i]);
        if !vec_contains_string(&merged, d.as_str()) {
            merged.push(d);
            proof {
                assert(merged.deep_view() =~= pre.push(domains.deep_view()[i as int]));
            }
        }
        i = i + 1;
    }
    proof {
        assert(domains.deep_view().take(domains.len() as int) =~= domains.deep_view());
    }
    AllowList::new(merged)
}

} // verus!
