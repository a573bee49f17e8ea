//! Verification policy: the platforms a migration must serve and how strictly
//! dependency edges must match.
use vstd::prelude::*;

use crate::text::{chars_of, str_eq};

verus! {

/// How dependency edge differences count in a lock graph comparison.
#[derive(Debug, Clone, Copy, PartialEq, Eq, Structural)]
pub enum EdgeEquivalencePolicy {
    /// Edge differences are reported but do not fail the comparison.
    Report,
    /// Any edge difference fails the comparison.
    Strict,
}

/// One operating-system / CPU / C-library platform that must be served.
#[derive(Debug, Clone, PartialEq, Eq)]
pub struct TargetPlatform {
    pub os: String,
    pub cpu: String,
    pub libc: Option<String>,
}

/// The `os`, `cpu` and `libc` restrictions a package declares (npm style:
/// plain entries allow, entries starting with `!` exclude).
#[derive(Debug, Clone, PartialEq, Eq)]
pub struct PackagePlatformConstraint {
    pub os: Vec<String>,
    pub cpu: Vec<String>,
    pub libc: Vec<String>,
}

#[derive(Debug, Clone, PartialEq, Eq)]
pub struct VerificationPolicy {
    pub target_platforms: Vec<TargetPlatform>,
    pub edge_equivalence: EdgeEquivalencePolicy,
}

pub open spec fn texts(v: Seq<String>) -> Seq<Seq<char>> {
    v.map_values(|s: String| s@)
}

/// Whether a restriction list admits `value`: an empty list admits
/// everything, an unknown value is admitted, an entry `!value` excludes it,
/// and otherwise a list with plain entries must name it.
pub open spec fn list_allows(list: Seq<Seq<char>>, value: Option<Seq<char>>) -> bool {
    match value {
        None => true,
        Some(v) => {
            &&& !list.contains(seq!['!'] + v)
            &&& (forall|k: int| 0 <= k < list.len() ==> #[trigger] list[k].len() > 0 && list[k][0] == '!')
                || list.contains(v)
        },
    }
}

pub open spec fn allows_spec(c: PackagePlatformConstraint, t: TargetPlatform) -> bool {
    &&& list_allows(texts(c.os@), Some(t.os@))
    &&& list_allows(texts(c.cpu@), Some(t.cpu@))
    &&& list_allows(
        texts(c.libc@),
        match t.libc {
            Some(l) => Some(l@),
            None => None,
        },
    )
}

fn list_allows_exec(list: &Vec<String>, value: &str) -> (r: bool)
    ensures
        r == list_allows(texts(list@), Some(value@)),
{
    let v = chars_of(value);
    let mut negated: Vec<char> = Vec::new();
    negated.push('!');
    crate::text::push_chars(&mut negated, &v);
    let mut all_negative = true;
    let mut found = false;
    let mut excluded = false;
    let mut k: usize = 0;
    while k < list.len()
        invariant
            k <= list.len(),
            v@ == value@,
            negated@ == seq!['!'] + value@,
            all_negative == forall|j: int|
                0 <= j < k ==> #[trigger] texts(list@)[j].len() > 0 && texts(list@)[j][0] == '!',
            found == exists|j: int| 0 <= j < k && #[trigger] texts(list@)[j] == value@,
            excluded == exists|j: int| 0 <= j < k && #[trigger] texts(list@)[j] == seq!['!'] + value@,
        decreases list.len() - k,
    {
        let entry = chars_of(list[k].as_str());
        assert(texts(list@)[k as int] == entry@);
        if !(entry.len() > 0 && entry[0] == '!') {
            all_negative = false;
        }
        if crate::text::chars_eq(&entry, &v) {
            found = true;
        }
        if crate::text::chars_eq(&entry, &negated) {
            excluded = true;
        }
        k = k + 1;
    }
    proof {
        let l = texts(list@);
        if found {
            let j = choose|j: int| 0 <= j < list.len() && #[trigger] l[j] == value@;
            assert(l.contains(value@));
        }
        if l.contains(value@) {
            let j = choose|j: int| 0 <= j < l.len() && l[j] == value@;
            assert(texts(list@)[j] == value@);
        }
        if excluded {
            let j = choose|j: int| 0 <= j < list.len() && #[trigger] l[j] == seq!['!'] + value@;
            assert(l.contains(seq!['!'] + value@));
        }
        if l.contains(seq!['!'] + value@) {
            let j = choose|j: int| 0 <= j < l.len() && l[j] == seq!['!'] + value@;
            assert(texts(list@)[j] == seq!['!'] + value@);
        }
    }
    !excluded && (all_negative || found)
}

impl PackagePlatformConstraint {
    /// The unrestricted constraint.
    pub fn empty() -> (r: Self)
        ensures
            r.os@.len() == 0 && r.cpu@.len() == 0 && r.libc@.len() == 0,
    {
        PackagePlatformConstraint { os: Vec::new(), cpu: Vec::new(), libc: Vec::new() }
    }

    /// Whether the constraint restricts nothing.
    pub fn is_empty(&self) -> (r: bool)
        ensures
            r == (self.os@.len() == 0 && self.cpu@.len() == 0 && self.libc@.len() == 0),
    {
        self.os.len() == 0 && self.cpu.len() == 0 && self.libc.len() == 0
    }

    /// Whether a package with this constraint can be installed on `target`.
    pub fn allows(&self, target: &TargetPlatform) -> (r: bool)
        ensures
            r == allows_spec(*self, *target),
    {
        let os = list_allows_exec(&self.os, target.os.as_str());
        let cpu = list_allows_exec(&self.cpu, target.cpu.as_str());
        let libc = match &target.libc {
            Some(l) => list_allows_exec(&self.libc, l.as_str()),
            None => true,
        };
        os && cpu && libc
    }
}

impl VerificationPolicy {
    /// No required platforms; edge differences are reported only.
    pub fn default_policy() -> (r: Self)
        ensures
            r.target_platforms@.len() == 0,
            r.edge_equivalence == EdgeEquivalencePolicy::Report,
    {
        VerificationPolicy { target_platforms: Vec::new(), edge_equivalence: EdgeEquivalencePolicy::Report }
    }
}

pub open spec fn target_view(t: TargetPlatform) -> (Seq<char>, Seq<char>, Option<Seq<char>>) {
    (t.os@, t.cpu@, match t.libc {
        Some(l) => Some(l@),
        None => None,
    })
}

/// The platforms and edge policy of a verification policy, as plain values.
pub open spec fn policy_view(p: VerificationPolicy) -> (
    Seq<(Seq<char>, Seq<char>, Option<Seq<char>>)>,
    EdgeEquivalencePolicy,
) {
    (p.target_platforms@.map_values(|t: TargetPlatform| target_view(t)), p.edge_equivalence)
}

fn copy_string(s: &String) -> (r: String)
    ensures
        r@ == s@,
{
    s.as_str().to_owned()
}

impl TargetPlatform {
    /// A copy with the same texts.
    pub fn duplicate(&self) -> (r: Self)
        ensures
            target_view(r) == target_view(*self),
    {
        TargetPlatform {
            os: copy_string(&self.os),
            cpu: copy_string(&self.cpu),
            libc: match &self.libc {
                Some(l) => Some(copy_string(l)),
                None => None,
            },
        }
    }
}

impl VerificationPolicy {
    /// A copy with the same platforms and edge policy.
    pub fn duplicate(&self) -> (r: Self)
        ensures
            policy_view(r) == policy_view(*self),
    {
        let mut targets: Vec<TargetPlatform> = Vec::new();
        let mut i: usize = 0;
        while i < self.target_platforms.len()
            invariant
                i <= self.target_platforms.len(),
                targets@.map_values(|t: TargetPlatform| target_view(t))
                    == self.target_platforms@.take(i as int).map_values(|t: TargetPlatform| target_view(t)),
            decreases self.target_platforms.len() - i,
        {
            let t = self.target_platforms[i].duplicate();
            let ghost before = targets@;
            targets.push(t);
            assert(targets@.map_values(|t: TargetPlatform| target_view(t)) =~= before.map_values(
                |t: TargetPlatform| target_view(t),
            ).push(target_view(t)));
            assert(self.target_platforms@.take(i + 1).map_values(|t: TargetPlatform| target_view(t))
                =~= self.target_platforms@.take(i as int).map_values(|t: TargetPlatform| target_view(t)).push(
                target_view(self.target_platforms@[i as int]),
            ));
            i = i + 1;
        }
        assert(self.target_platforms@.take(self.target_platforms.len() as int) =~= self.target_platforms@);
        VerificationPolicy { target_platforms: targets, edge_equivalence: self.edge_equivalence }
    }
}

} // verus!
