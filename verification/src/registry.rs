//! The collection of registered installation roots. Roots are distinguished
//! by exact path-string equality: no normalization of case, separators or
//! links. Adding a root whose path is already present is a no-op.
//!
//! The caller owns the collection and guards it with whatever lock its
//! process needs; every operation here is a plain method on the value.

use vstd::prelude::*;
use crate::minecraft_path::{MinecraftPath, MinecraftPathData, RootListing, spec_index};
use crate::text::str_eq;

verus! {

/// The registered installation roots, in registration order.
pub struct MinecraftPaths {
    pub paths: Vec<MinecraftPath>,
}

/// Some registered root carries exactly this path string.
pub open spec fn has_root(s: Seq<MinecraftPathData>, root: Seq<char>) -> bool {
    exists|i: int| 0 <= i < s.len() && s[i].root == root
}

/// How many registered roots carry this path string.
pub open spec fn count_root(s: Seq<MinecraftPathData>, root: Seq<char>) -> int
    decreases s.len(),
{
    if s.len() == 0 {
        0
    } else {
        count_root(s.drop_last(), root) + if s.last().root == root {
            1int
        } else {
            0int
        }
    }
}

/// What adding one index does: nothing when its root is already present,
/// an append otherwise.
pub open spec fn spec_add(s: Seq<MinecraftPathData>, idx: MinecraftPathData) -> Seq<
    MinecraftPathData,
> {
    if has_root(s, idx.root) {
        s
    } else {
        s.push(idx)
    }
}

/// The first registered root carrying this path string, if any.
pub open spec fn find_root(s: Seq<MinecraftPathData>, root: Seq<char>) -> Option<
    MinecraftPathData,
>
    decreases s.len(),
{
    if s.len() == 0 {
        Option::None
    } else if s.first().root == root {
        Option::Some(s.first())
    } else {
        find_root(s.drop_first(), root)
    }
}

/// A root count of zero means the root is absent, and conversely.
pub proof fn lemma_count_root_zero(s: Seq<MinecraftPathData>, root: Seq<char>)
    ensures
        (count_root(s, root) == 0) <==> !has_root(s, root),
        count_root(s, root) >= 0,
    decreases s.len(),
{
    if s.len() > 0 {
        lemma_count_root_zero(s.drop_last(), root);
        if has_root(s.drop_last(), root) {
            let i = choose|i: int|
                0 <= i < s.drop_last().len() && s.drop_last()[i].root == root;
            assert(s[i].root == root);
        }
        if s.last().root == root {
            assert(s[s.len() - 1].root == root);
        }
        if has_root(s, root) && s.last().root != root {
            let i = choose|i: int| 0 <= i < s.len() && s[i].root == root;
            assert(s.drop_last()[i].root == root);
        }
    }
}

/// Appending an index adds one to the count of its own root.
proof fn lemma_count_root_push(s: Seq<MinecraftPathData>, idx: MinecraftPathData)
    ensures
        count_root(s.push(idx), idx.root) == count_root(s, idx.root) + 1,
{
    assert(s.push(idx).drop_last() =~= s);
}

/// Registering the same path string twice keeps exactly one stored index:
/// the second add changes nothing, and where the path was absent before,
/// precisely one index with it is stored afterwards. The two adds may carry
/// different snapshots or display names; only the path string decides.
pub proof fn lemma_add_same_path_twice(
    s: Seq<MinecraftPathData>,
    a: MinecraftPathData,
    b: MinecraftPathData,
)
    requires
        a.root == b.root,
    ensures
        spec_add(spec_add(s, a), b) == spec_add(s, a),
        !has_root(s, a.root) ==> count_root(spec_add(s, a), a.root) == 1,
{
    if has_root(s, a.root) {
        assert(spec_add(s, a) == s);
    } else {
        let s1 = s.push(a);
        assert(s1[s.len() as int].root == b.root);
        assert(has_root(s1, b.root));
        lemma_count_root_zero(s, a.root);
        lemma_count_root_push(s, a);
    }
}

impl MinecraftPaths {
    /// An empty registry.
    pub fn new() -> (r: Self)
        ensures
            r.paths.deep_view() =~= Seq::<MinecraftPathData>::empty(),
    {
        MinecraftPaths { paths: Vec::new() }
    }

    /// Whether some registered root carries exactly this path string.
    fn contains_path(&self, root_path: &str) -> (r: bool)
        ensures
            r == has_root(self.paths.deep_view(), root_path@),
    {
        let ghost pv = self.paths.deep_view();
        let n = self.paths.len();
        let mut i: usize = 0;
        while i < n
            invariant
                n == self.paths.len(),
                pv == self.paths.deep_view(),
                0 <= i <= n,
                forall|j: int| 0 <= j < i ==> #[trigger] pv[j].root != root_path@,
            decreases n - i,
        {
            proof {
                assert(pv[i as int] == self.paths@[i as int].deep_view());
            }
            if str_eq(self.paths[i].root.as_str(), root_path) {
                return true;
            }
            i = i + 1;
        }
        false
    }

    /// Register a root by its path string; a path already present is left
    /// as it is, whatever listing or name comes with the call.
    pub fn add(&mut self, root_path: &str, listing: RootListing)
        ensures
            final(self).paths.deep_view() == spec_add(
                old(self).paths.deep_view(),
                spec_index(root_path@, Option::None, listing.deep_view()),
            ),
    {
        if !self.contains_path(root_path) {
            let idx = MinecraftPath::new(root_path, listing);
            let ghost prev = self.paths.deep_view();
            self.paths.push(idx);
            proof {
                assert(self.paths.deep_view() =~= prev.push(
                    spec_index(root_path@, Option::None, listing.deep_view()),
                ));
            }
        }
    }

    /// Register a root with a human display name; duplicates as in `add`.
    pub fn add_with_name(&mut self, root_path: &str, name: &str, listing: RootListing)
        ensures
            final(self).paths.deep_view() == spec_add(
                old(self).paths.deep_view(),
                spec_index(root_path@, Option::Some(name@), listing.deep_view()),
            ),
    {
        if !self.contains_path(root_path) {
            let idx = MinecraftPath::new_with_name(root_path, name, listing);
            let ghost prev = self.paths.deep_view();
            self.paths.push(idx);
            proof {
                assert(self.paths.deep_view() =~= prev.push(
                    spec_index(root_path@, Option::Some(name@), listing.deep_view()),
                ));
            }
        }
    }

    /// The first registered root carrying exactly this path string.
    pub fn by_path(&self, root_path: &str) -> (r: Option<&MinecraftPath>)
        ensures
            match r {
                Option::Some(p) => find_root(self.paths.deep_view(), root_path@)
                    == Option::Some(p.deep_view()),
                Option::None => find_root(self.paths.deep_view(), root_path@) is None,
            },
    {
        let ghost pv = self.paths.deep_view();
        let n = self.paths.len();
        proof {
            assert(pv.skip(0) =~= pv);
        }
        let mut i: usize = 0;
        while i < n
            invariant
                n == self.paths.len(),
                pv == self.paths.deep_view(),
                0 <= i <= n,
                find_root(pv, root_path@) == find_root(pv.skip(i as int), root_path@),
            decreases n - i,
        {
            proof {
                assert(pv[i as int] == self.paths@[i as int].deep_view());
                assert(pv.skip(i as int).first() == pv[i as int]);
                assert(pv.skip(i as int).drop_first() =~= pv.skip(i + 1));
            }
            let p = &self.paths[i];
            if str_eq(p.root.as_str(), root_path) {
                return Option::Some(p);
            }
            i = i + 1;
        }
        proof {
            assert(pv.skip(n as int) =~= Seq::<MinecraftPathData>::empty());
        }
        Option::None
    }

    /// Every registered root, in registration order.
    pub fn all(&self) -> (r: &Vec<MinecraftPath>)
        ensures
            r.deep_view() == self.paths.deep_view(),
    {
        &self.paths
    }
}

} // verus!
