//! Runtime-migration data: Deno permissions and inspected runtime files.
use vstd::prelude::*;
use crate::model::{Diagnostic, PlannedOperation};

verus! {

/// A Deno permission a migrated program may need.
#[derive(Debug, Clone, Copy, PartialEq, Eq, Structural, Hash)]
pub enum DenoPermission {
    Read,
    Write,
    Net,
    Env,
    Run,
    Sys,
    Ffi,
    Hrtime,
}

/// Position of a permission in declaration order, which is the order in
/// which a set of permissions is listed.
pub open spec fn permission_index(p: DenoPermission) -> int {
    match p {
        DenoPermission::Read => 0,
        DenoPermission::Write => 1,
        DenoPermission::Net => 2,
        DenoPermission::Env => 3,
        DenoPermission::Run => 4,
        DenoPermission::Sys => 5,
        DenoPermission::Ffi => 6,
        DenoPermission::Hrtime => 7,
    }
}

pub open spec fn permission_at(i: int) -> DenoPermission {
    if i == 0 {
        DenoPermission::Read
    } else if i == 1 {
        DenoPermission::Write
    } else if i == 2 {
        DenoPermission::Net
    } else if i == 3 {
        DenoPermission::Env
    } else if i == 4 {
        DenoPermission::Run
    } else if i == 5 {
        DenoPermission::Sys
    } else if i == 6 {
        DenoPermission::Ffi
    } else {
        DenoPermission::Hrtime
    }
}

pub open spec fn flag_spec(p: DenoPermission) -> Seq<char> {
    match p {
        DenoPermission::Read => "--allow-read"@,
        DenoPermission::Write => "--allow-write"@,
        DenoPermission::Net => "--allow-net"@,
        DenoPermission::Env => "--allow-env"@,
        DenoPermission::Run => "--allow-run"@,
        DenoPermission::Sys => "--allow-sys"@,
        DenoPermission::Ffi => "--allow-ffi"@,
        DenoPermission::Hrtime => "--allow-hrtime"@,
    }
}

pub open spec fn permission_name(p: DenoPermission) -> Seq<char> {
    match p {
        DenoPermission::Read => "read"@,
        DenoPermission::Write => "write"@,
        DenoPermission::Net => "net"@,
        DenoPermission::Env => "env"@,
        DenoPermission::Run => "run"@,
        DenoPermission::Sys => "sys"@,
        DenoPermission::Ffi => "ffi"@,
        DenoPermission::Hrtime => "hrtime"@,
    }
}

impl DenoPermission {
    /// The Deno command-line flag that grants the permission.
    pub fn flag(self) -> (r: &'static str)
        ensures
            r@ == flag_spec(self),
    {
        match self {
            DenoPermission::Read => "--allow-read",
            DenoPermission::Write => "--allow-write",
            DenoPermission::Net => "--allow-net",
            DenoPermission::Env => "--allow-env",
            DenoPermission::Run => "--allow-run",
            DenoPermission::Sys => "--allow-sys",
            DenoPermission::Ffi => "--allow-ffi",
            DenoPermission::Hrtime => "--allow-hrtime",
        }
    }

    /// The permission's lower-case name, as it is written on the command line.
    pub fn name(self) -> (r: &'static str)
        ensures
            r@ == permission_name(self),
    {
        match self {
            DenoPermission::Read => "read",
            DenoPermission::Write => "write",
            DenoPermission::Net => "net",
            DenoPermission::Env => "env",
            DenoPermission::Run => "run",
            DenoPermission::Sys => "sys",
            DenoPermission::Ffi => "ffi",
            DenoPermission::Hrtime => "hrtime",
        }
    }

    fn index(self) -> (r: usize)
        ensures
            r as int == permission_index(self),
            r < 8,
    {
        match self {
            DenoPermission::Read => 0,
            DenoPermission::Write => 1,
            DenoPermission::Net => 2,
            DenoPermission::Env => 3,
            DenoPermission::Run => 4,
            DenoPermission::Sys => 5,
            DenoPermission::Ffi => 6,
            DenoPermission::Hrtime => 7,
        }
    }
}

pub(crate) fn permission_at_exec(i: usize) -> (p: DenoPermission)
    requires
        i < 8,
    ensures
        p == permission_at(i as int),
        permission_index(p) == i,
{
    if i == 0 {
        DenoPermission::Read
    } else if i == 1 {
        DenoPermission::Write
    } else if i == 2 {
        DenoPermission::Net
    } else if i == 3 {
        DenoPermission::Env
    } else if i == 4 {
        DenoPermission::Run
    } else if i == 5 {
        DenoPermission::Sys
    } else if i == 6 {
        DenoPermission::Ffi
    } else {
        DenoPermission::Hrtime
    }
}

/// A set of Deno permissions, iterated in declaration order.
#[derive(Debug, Clone, PartialEq, Eq)]
pub struct PermissionSet {
    members: Vec<bool>,
}

impl View for PermissionSet {
    type V = Set<DenoPermission>;

    closed spec fn view(&self) -> Set<DenoPermission> {
        Set::new(|p: DenoPermission| self.members@.len() == 8 && self.members@[permission_index(p)])
    }
}

impl PermissionSet {
    pub closed spec fn wf(&self) -> bool {
        self.members@.len() == 8
    }

    /// The empty set.
    pub fn new() -> (r: Self)
        ensures
            r.wf(),
            r@ == Set::<DenoPermission>::empty(),
    {
        let mut members: Vec<bool> = Vec::new();
        let mut i: usize = 0;
        while i < 8
            invariant
                i <= 8,
                members@.len() == i,
                forall|k: int| 0 <= k < i ==> !members@[k],
            decreases 8 - i,
        {
            members.push(false);
            i = i + 1;
        }
        let r = PermissionSet { members };
        assert(r@ =~= Set::<DenoPermission>::empty());
        r
    }

    /// The set of the permissions listed in `items`.
    pub fn from_slice(items: &[DenoPermission]) -> (r: Self)
        ensures
            r.wf(),
            r@ == items@.to_set(),
    {
        let mut r = Self::new();
        let mut i: usize = 0;
        while i < items.len()
            invariant
                i <= items.len(),
                r.wf(),
                r@ == items@.take(i as int).to_set(),
            decreases items.len() - i,
        {
            r.insert(items[i]);
            assert(items@.take(i + 1) =~= items@.take(i as int).push(items@[i as int]));
            proof {
                items@.take(i as int).lemma_push_to_set_commute(items@[i as int]);
            }
            i = i + 1;
        }
        assert(items@.take(items.len() as int) =~= items@);
        r
    }

    /// Adds `p`.
    pub fn insert(&mut self, p: DenoPermission)
        requires
            old(self).wf(),
        ensures
            final(self).wf(),
            final(self)@ == old(self)@.insert(p),
    {
        let i = p.index();
        self.members.set(i, true);
        assert(self@ =~= old(self)@.insert(p));
    }

    pub fn contains(&self, p: DenoPermission) -> (r: bool)
        requires
            self.wf(),
        ensures
            r == self@.contains(p),
    {
        self.members[p.index()]
    }

    /// Adds every member of `other`.
    pub fn extend(&mut self, other: &PermissionSet)
        requires
            old(self).wf(),
            other.wf(),
        ensures
            final(self).wf(),
            final(self)@ == old(self)@.union(other@),
    {
        let mut merged: Vec<bool> = Vec::new();
        let mut i: usize = 0;
        while i < 8
            invariant
                i <= 8,
                self.wf(),
                other.wf(),
                merged@.len() == i,
                forall|k: int| 0 <= k < i ==> merged@[k] == (self.members@[k] || other.members@[k]),
            decreases 8 - i,
        {
            merged.push(self.members[i] || other.members[i]);
            i = i + 1;
        }
        self.members = merged;
        assert(self@ =~= old(self)@.union(other@));
    }

    /// The members in declaration order.
    pub fn to_vec(&self) -> (r: Vec<DenoPermission>)
        requires
            self.wf(),
        ensures
            r@ == Seq::new(8, |i: int| permission_at(i)).filter(|p: DenoPermission| self@.contains(p)),
    {
        let ghost all = Seq::new(8, |i: int| permission_at(i));
        let ghost pred = |p: DenoPermission| self@.contains(p);
        let mut r: Vec<DenoPermission> = Vec::new();
        let mut i: usize = 0;
        while i < 8
            invariant
                i <= 8,
                self.wf(),
                all == Seq::new(8, |i: int| permission_at(i)),
                pred == (|p: DenoPermission| self@.contains(p)),
                r@ == all.take(i as int).filter(pred),
            decreases 8 - i,
        {
            let p = permission_at_exec(i);
            proof {
                assert(all.take(i + 1).drop_last() =~= all.take(i as int));
                reveal_with_fuel(Seq::filter, 1);
            }
            if self.members[i] {
                r.push(p);
            }
            i = i + 1;
        }
        assert(all.take(8) =~= all);
        r
    }

    /// The members of `self` that `other` lacks, in declaration order.
    pub fn difference_vec(&self, other: &PermissionSet) -> (r: Vec<DenoPermission>)
        requires
            self.wf(),
            other.wf(),
        ensures
            r@ == Seq::new(8, |i: int| permission_at(i)).filter(
                |p: DenoPermission| self@.contains(p) && !other@.contains(p),
            ),
    {
        let ghost all = Seq::new(8, |i: int| permission_at(i));
        let ghost pred = |p: DenoPermission| self@.contains(p) && !other@.contains(p);
        let mut r: Vec<DenoPermission> = Vec::new();
        let mut i: usize = 0;
        while i < 8
            invariant
                i <= 8,
                self.wf(),
                other.wf(),
                all == Seq::new(8, |i: int| permission_at(i)),
                pred == (|p: DenoPermission| self@.contains(p) && !other@.contains(p)),
                r@ == all.take(i as int).filter(pred),
            decreases 8 - i,
        {
            let p = permission_at_exec(i);
            proof {
                assert(all.take(i + 1).drop_last() =~= all.take(i as int));
                reveal_with_fuel(Seq::filter, 1);
            }
            if self.members[i] && !other.members[i] {
                r.push(p);
            }
            i = i + 1;
        }
        assert(all.take(8) =~= all);
        r
    }

    pub fn is_empty(&self) -> (r: bool)
        requires
            self.wf(),
        ensures
            r == (self@ == Set::<DenoPermission>::empty()),
    {
        let mut i: usize = 0;
        while i < 8
            invariant
                i <= 8,
                self.wf(),
                forall|k: int| 0 <= k < i ==> !self.members@[k],
            decreases 8 - i,
        {
            if self.members[i] {
                assert(self@.contains(permission_at(i as int)));
                return false;
            }
            i = i + 1;
        }
        assert(self@ =~= Set::<DenoPermission>::empty());
        true
    }
}

/// How many replacements one recipe made in one file.
#[derive(Debug, Clone, PartialEq, Eq)]
pub struct RuntimeRecipeApplication {
    pub recipe_id: String,
    pub path: String,
    pub replacements: usize,
}

/// A runtime input file and its text.
#[derive(Debug, Clone, PartialEq, Eq)]
pub struct RuntimeFile {
    pub path: String,
    pub content: String,
}

/// What the runtime inspection read: the repository fingerprint, the input
/// files, the evidence of Bun runtime use, and the inputs it refused.
pub struct RuntimeInspection {
    pub fingerprint: String,
    pub files: Vec<RuntimeFile>,
    pub bun_evidence: Vec<String>,
    pub input_diagnostics: Vec<Diagnostic>,
}

/// A Bun-to-Deno runtime migration plan.
#[derive(Debug, Clone, PartialEq, Eq)]
pub struct RuntimeMigrationPlan {
    pub schema_version: String,
    pub plan_id: String,
    pub executable: bool,
    pub source: String,
    pub target: String,
    pub repository_fingerprint: String,
    pub permissions: Vec<DenoPermission>,
    pub recipes: Vec<RuntimeRecipeApplication>,
    pub operations: Vec<PlannedOperation>,
    pub diagnostics: Vec<Diagnostic>,
    pub verification: Vec<String>,
}

} // verus!
