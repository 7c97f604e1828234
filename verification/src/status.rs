//! Static status identity and policies shared by content, client and server.

use vstd::prelude::*;

verus! {

/// Identifier of a status definition, such as `"stun"` or `"burn"`.
#[derive(Debug, Clone, PartialEq, Eq, Hash)]
pub struct StatusId(pub String);

impl View for StatusId {
    type V = Seq<char>;

    open spec fn view(&self) -> Seq<char> {
        self.0@
    }
}

impl StatusId {
    /// Builds an id from its text.
    pub fn new(id: &str) -> (r: StatusId)
        ensures
            r@ == id@,
    {
        StatusId(id.to_owned())
    }

    /// Underlying string value.
    pub fn as_str(&self) -> (r: &str)
        ensures
            r@ == self@,
    {
        self.0.as_str()
    }
}

impl From<&'static str> for StatusId {
    /// The id whose text is `value`, as [`StatusId::new`] builds it.
    fn from(value: &'static str) -> (r: StatusId)
        ensures
            r@ == value@,
    {
        StatusId::new(value)
    }
}

/// Two strings with the same text are not provably one value, so the
/// conversion is specified by its view, on `from` above, and not through
/// `from_spec`.
impl vstd::std_specs::convert::FromSpecImpl<&'static str> for StatusId {
    open spec fn obeys_from_spec() -> bool {
        false
    }

    open spec fn from_spec(v: &'static str) -> StatusId {
        choose|id: StatusId| id@ == v@
    }
}

/// Whether a status helps or hurts its bearer.
#[derive(Debug, Clone, Copy, PartialEq, Eq, Structural)]
pub enum StatusCategory {
    Buff,
    Debuff,
}

/// What applying a status that is already present does.
#[derive(Debug, Clone, Copy, PartialEq, Eq, Structural)]
pub enum StackPolicy {
    /// A second application is ignored.
    Ignore,
    Refresh,
    AddStacks,
    Strongest,
    Replace,
    Independent,
}

/// Whether stacks are counted per target or per source.
#[derive(Debug, Clone, Copy, PartialEq, Eq, Structural)]
pub enum StackScope {
    Global,
    PerSource,
}

/// How a re-application touches the running timers.
#[derive(Debug, Clone, Copy, PartialEq, Eq, Structural)]
pub enum RefreshPolicy {
    /// Timers are left as they are.
    Keep,
    RefreshAll,
    RefreshNewStackOnly,
    Extend,
}

/// What a dispel removes.
#[derive(Debug, Clone, Copy, PartialEq, Eq, Structural)]
pub enum DispelPolicy {
    NotDispellable,
    RemoveWholeStatus,
    RemoveStacks,
}

/// Icon and short name a status shows.
#[derive(Debug, Clone, Copy, PartialEq, Eq)]
pub struct StatusPresentation {
    pub icon: &'static str,
    pub short_name: &'static str,
}

impl Default for StatusPresentation {
    fn default() -> (r: StatusPresentation)
        ensures
            r.icon@ == "status_default"@,
            r.short_name@ == "Status"@,
    {
        StatusPresentation { icon: "status_default", short_name: "Status" }
    }
}

} // verus!
