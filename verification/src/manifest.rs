//! The remote catalog: a listing of available versions, and the search that
//! narrows it by type tag and an optional id substring.

use vstd::prelude::*;
use crate::text::{contains, contains_sub, str_eq};

verus! {

/// One entry of the remote catalog.
pub struct MinecraftVersion {
    pub id: String,
    pub type_: String,
    pub url: String,
    pub time: String,
    pub release_time: String,
}

/// Whether a catalog entry passes the search: its type tag is exactly the
/// requested one, and, when a filter is given, its id contains the filter.
pub open spec fn entry_selected(
    v: MinecraftVersion,
    filter: Option<Seq<char>>,
    type_tag: Seq<char>,
) -> bool {
    v.type_@ == type_tag && match filter {
        Option::None => true,
        Option::Some(f) => contains_sub(v.id@, f),
    }
}

/// The catalog entries that the search keeps, in catalog order.
pub open spec fn spec_search(
    vs: Seq<MinecraftVersion>,
    filter: Option<Seq<char>>,
    type_tag: Seq<char>,
) -> Seq<MinecraftVersion>
    decreases vs.len(),
{
    if vs.len() == 0 {
        Seq::empty()
    } else {
        let rest = spec_search(vs.drop_last(), filter, type_tag);
        if entry_selected(vs.last(), filter, type_tag) {
            rest.push(vs.last())
        } else {
            rest
        }
    }
}

/// Keep the catalog entries whose type tag equals `version_type` and, when a
/// filter is given, whose id contains it; catalog order is preserved, and no
/// match means an empty result, never an error.
pub fn search_versions(
    versions: Vec<MinecraftVersion>,
    version_filter: Option<String>,
    version_type: String,
) -> (r: Vec<MinecraftVersion>)
    ensures
        r@ == spec_search(versions@, version_filter.deep_view(), version_type@),
{
    let ghost orig = versions@;
    let ghost f = version_filter.deep_view();
    let mut rest = versions;
    let mut out: Vec<MinecraftVersion> = Vec::new();
    while rest.len() > 0
        invariant
            rest@.len() <= orig.len(),
            rest@ == orig.subrange(orig.len() - rest@.len(), orig.len() as int),
            out@ == spec_search(orig.take(orig.len() - rest@.len()), f, version_type@),
            f == version_filter.deep_view(),
        decreases rest.len(),
    {
        let ghost k = orig.len() - rest@.len();
        let v = rest.remove(0);
        proof {
            assert(v == orig[k]);
            assert(rest@ =~= orig.subrange(k + 1, orig.len() as int));
            assert(orig.take(k + 1).drop_last() =~= orig.take(k));
            assert(orig.take(k + 1).last() == orig[k]);
        }
        let type_ok = str_eq(v.type_.as_str(), version_type.as_str());
        let filter_ok = match &version_filter {
            Option::None => true,
            Option::Some(fs) => contains(v.id.as_str(), fs.as_str()),
        };
        if type_ok && filter_ok {
            out.push(v);
        }
    }
    proof {
        assert(orig.take(orig.len() - rest@.len()) =~= orig);
    }
    out
}

/// The first catalog entry with exactly the given id, if any.
pub open spec fn find_entry(vs: Seq<MinecraftVersion>, id: Seq<char>) -> Option<MinecraftVersion>
    decreases vs.len(),
{
    if vs.len() == 0 {
        Option::None
    } else if vs.first().id@ == id {
        Option::Some(vs.first())
    } else {
        find_entry(vs.drop_first(), id)
    }
}

/// Look a version up by its exact id. `None` is the not-found case an
/// acquisition of an unknown id reports.
pub fn find_by_id<'a>(versions: &'a Vec<MinecraftVersion>, id: &str) -> (r: Option<
    &'a MinecraftVersion,
>)
    ensures
        match r {
            Option::Some(v) => find_entry(versions@, id@) == Option::Some(*v),
            Option::None => find_entry(versions@, id@) is None,
        },
{
    let n = versions.len();
    proof {
        assert(versions@.skip(0) =~= versions@);
    }
    let mut i: usize = 0;
    while i < n
        invariant
            n == versions@.len(),
            0 <= i <= n,
            find_entry(versions@, id@) == find_entry(versions@.skip(i as int), id@),
        decreases n - i,
    {
        proof {
            assert(versions@.skip(i as int).first() == versions@[i as int]);
            assert(versions@.skip(i as int).drop_first() =~= versions@.skip(i + 1));
        }
        let v = &versions[i];
        if str_eq(v.id.as_str(), id) {
            return Option::Some(v);
        }
        i = i + 1;
    }
    proof {
        assert(versions@.skip(n as int) =~= Seq::<MinecraftVersion>::empty());
    }
    Option::None
}

} // verus!
