//! A dependency library of a game version: its artifact coordinates and the
//! platform rules that decide whether the running operating system gets it.

use vstd::prelude::*;
use crate::text::{contains, contains_sub, str_eq};

verus! {

/// One downloadable library of a version descriptor.
pub struct Library {
    pub downloads: Download,
    pub name: String,
    pub rules: Option<Vec<Rule>>,
}

/// A platform rule: an action, applying to one operating system.
pub struct Rule {
    pub action: String,
    pub os: Os,
}

/// The operating system a rule speaks about.
pub struct Os {
    pub name: String,
}

/// The download section of a library: its artifact.
pub struct Download {
    pub artifact: Artifact,
}

/// Where a library's file lives remotely and locally.
pub struct Artifact {
    pub path: String,
    pub sha1: String,
    pub size: i32,
    pub url: String,
}

/// Mathematical image of an [`Os`].
pub struct OsData {
    pub name: Seq<char>,
}

/// Mathematical image of a [`Rule`].
pub struct RuleData {
    pub action: Seq<char>,
    pub os: OsData,
}

/// Mathematical image of an [`Artifact`].
pub struct ArtifactData {
    pub path: Seq<char>,
    pub sha1: Seq<char>,
    pub size: i32,
    pub url: Seq<char>,
}

/// Mathematical image of a [`Download`].
pub struct DownloadData {
    pub artifact: ArtifactData,
}

/// Mathematical image of a [`Library`].
pub struct LibraryData {
    pub downloads: DownloadData,
    pub name: Seq<char>,
    pub rules: Option<Seq<RuleData>>,
}

impl DeepView for Os {
    type V = OsData;

    open spec fn deep_view(&self) -> OsData {
        OsData { name: self.name@ }
    }
}

impl DeepView for Rule {
    type V = RuleData;

    open spec fn deep_view(&self) -> RuleData {
        RuleData { action: self.action@, os: self.os.deep_view() }
    }
}

impl DeepView for Artifact {
    type V = ArtifactData;

    open spec fn deep_view(&self) -> ArtifactData {
        ArtifactData { path: self.path@, sha1: self.sha1@, size: self.size, url: self.url@ }
    }
}

impl DeepView for Download {
    type V = DownloadData;

    open spec fn deep_view(&self) -> DownloadData {
        DownloadData { artifact: self.artifact.deep_view() }
    }
}

impl DeepView for Library {
    type V = LibraryData;

    open spec fn deep_view(&self) -> LibraryData {
        LibraryData {
            downloads: self.downloads.deep_view(),
            name: self.name@,
            rules: self.rules.deep_view(),
        }
    }
}

/// A rule speaks about the given operating system.
pub open spec fn rule_matches(r: RuleData, os: Seq<char>) -> bool {
    r.os.name == os
}

/// The verdict of a rule list on one operating system: the action of the
/// last rule that matches it decides; no matching rule denies.
pub open spec fn rules_allow(rules: Seq<RuleData>, os: Seq<char>) -> bool
    decreases rules.len(),
{
    if rules.len() == 0 {
        false
    } else if rule_matches(rules.last(), os) {
        rules.last().action == "allow"@
    } else {
        rules_allow(rules.drop_last(), os)
    }
}

/// Whether a library is taken on the given operating system: a library
/// without rules always is; one with rules goes by [`rules_allow`].
pub open spec fn spec_allowed(lib: LibraryData, os: Seq<char>) -> bool {
    match lib.rules {
        Option::None => true,
        Option::Some(rules) => rules_allow(rules, os),
    }
}

impl Library {
    /// Evaluate this library's platform rules against one operating system.
    pub fn allowed(&self, os_name: &str) -> (r: bool)
        ensures
            r == spec_allowed(self.deep_view(), os_name@),
            self.rules is None ==> r,
    {
        match &self.rules {
            Option::None => true,
            Option::Some(rules) => {
                let ghost rv = rules.deep_view();
                let mut decision: Option<bool> = Option::None;
                let n = rules.len();
                let mut i: usize = 0;
                while i < n
                    invariant
                        n == rules.len(),
                        rv == rules.deep_view(),
                        0 <= i <= n,
                        (decision == Option::Some(true)) == rules_allow(
                            rv.take(i as int),
                            os_name@,
                        ),
                    decreases n - i,
                {
                    let rule = &rules[i];
                    proof {
                        assert(rv.take(i + 1).drop_last() =~= rv.take(i as int));
                        assert(rv.take(i + 1).last() == rv[i as int]);
                    }
                    if str_eq(rule.os.name.as_str(), os_name) {
                        let allow = str_eq(rule.action.as_str(), "allow");
                        decision = Option::Some(allow);
                    }
                    i = i + 1;
                }
                proof {
                    assert(rv.take(n as int) =~= rv);
                }
                match decision {
                    Option::Some(d) => d,
                    Option::None => false,
                }
            },
        }
    }

    /// Whether this library carries a native payload, recognized by the
    /// marker "natives" in its coordinate name.
    pub fn is_native(&self) -> (r: bool)
        ensures
            r == contains_sub(self.name@, "natives"@),
    {
        contains(self.name.as_str(), "natives")
    }
}

} // verus!
