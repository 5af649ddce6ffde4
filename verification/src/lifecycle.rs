//! The states of a record.

use vstd::prelude::*;

verus! {

/// The state of a record; drafts are kept apart, in change requests.
#[derive(Debug, Clone, Copy, PartialEq, Eq, Structural)]
pub enum LifecycleStatus {
    Published,
    Frozen,
    Archived,
    Merged,
}

/// The name of a state.
pub open spec fn status_name(s: LifecycleStatus) -> Seq<char> {
    match s {
        LifecycleStatus::Published => "published"@,
        LifecycleStatus::Frozen => "frozen"@,
        LifecycleStatus::Archived => "archived"@,
        LifecycleStatus::Merged => "merged"@,
    }
}

impl LifecycleStatus {
    /// The name of the state.
    pub fn as_str(&self) -> (r: &'static str)
        ensures
            r@ == status_name(*self),
    {
        match self {
            LifecycleStatus::Published => "published",
            LifecycleStatus::Frozen => "frozen",
            LifecycleStatus::Archived => "archived",
            LifecycleStatus::Merged => "merged",
        }
    }

    /// The state of a new record.
    pub fn default_for_new() -> (r: LifecycleStatus)
        ensures
            r == LifecycleStatus::Published,
    {
        LifecycleStatus::Published
    }
}

/// No two states share a name.
pub proof fn law_status_names(a: LifecycleStatus, b: LifecycleStatus)
    requires
        status_name(a) == status_name(b),
    ensures
        a == b,
{
    reveal_strlit("published");
    reveal_strlit("frozen");
    reveal_strlit("archived");
    reveal_strlit("merged");
    assert("published"@[0] == 'p' && "frozen"@[0] == 'f' && "archived"@[0] == 'a' && "merged"@[0]
        == 'm');
}

/// What records are asked for.
#[derive(Debug)]
pub struct MdmQuery {
    pub dict_code: Option<String>,
}

impl Default for MdmQuery {
    fn default() -> (r: MdmQuery)
        ensures
            r.dict_code is None,
    {
        MdmQuery { dict_code: None }
    }
}

} // verus!
