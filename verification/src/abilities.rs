//! Ability-side data carried by items: the chosen abilities and the
//! inscription on a weapon.

use vstd::prelude::*;

use crate::crowd_control::CrowdControlKind;
use crate::status::StatusId;

verus! {

/// Text of the status a hard control applies.
pub open spec fn control_status_text(kind: CrowdControlKind) -> Seq<char> {
    match kind {
        CrowdControlKind::Stun => "stun"@,
        CrowdControlKind::Root => "root"@,
        CrowdControlKind::Silence => "silence"@,
    }
}

/// Status that carries a hard control of `kind`.
pub fn status_id_for_control(kind: CrowdControlKind) -> (r: StatusId)
    ensures
        r@ == control_status_text(kind),
{
    match kind {
        CrowdControlKind::Stun => StatusId::new("stun"),
        CrowdControlKind::Root => StatusId::new("root"),
        CrowdControlKind::Silence => StatusId::new("silence"),
    }
}

/// What a Root Word makes a gesture do.
#[derive(Debug, Clone, Copy, PartialEq, Eq, Structural)]
pub enum ManifestationKind {
    Damage,
    Heal,
}

impl Default for ManifestationKind {
    fn default() -> (r: ManifestationKind)
        ensures
            r == ManifestationKind::Damage,
    {
        ManifestationKind::Damage
    }
}

/// Effect identity carried through preview and authoritative cast: a
/// primary hit plus the statuses applied after it, in order.
#[derive(Debug, Clone, PartialEq)]
pub struct ManifestationPayload {
    pub kind: ManifestationKind,
    pub status_ids: Vec<StatusId>,
}

impl Default for ManifestationPayload {
    fn default() -> (r: ManifestationPayload)
        ensures
            r.kind == ManifestationKind::Damage,
            r.status_ids@.len() == 0,
    {
        ManifestationPayload { kind: ManifestationKind::Damage, status_ids: Vec::new() }
    }
}

fn status_list(names: &[&str]) -> (r: Vec<StatusId>)
    ensures
        r@.len() == names@.len(),
        forall|i: int| 0 <= i < names@.len() ==> #[trigger] r@[i]@ == names@[i]@,
{
    let mut ids: Vec<StatusId> = Vec::new();
    for i in 0..names.len()
        invariant
            ids@.len() == i,
            forall|j: int| 0 <= j < i ==> #[trigger] ids@[j]@ == names@[j]@,
    {
        ids.push(StatusId::new(names[i]));
    }
    ids
}

impl ManifestationPayload {
    /// A damaging payload applying `status_ids` after the hit, in order.
    pub fn damage(status_ids: &[&str]) -> (r: ManifestationPayload)
        ensures
            r.kind == ManifestationKind::Damage,
            r.status_ids@.len() == status_ids@.len(),
            forall|i: int| 0 <= i < status_ids@.len() ==> #[trigger] r.status_ids@[i]@ == status_ids@[i]@,
    {
        ManifestationPayload { kind: ManifestationKind::Damage, status_ids: status_list(status_ids) }
    }

    /// A healing payload applying `status_ids` after the heal, in order.
    pub fn heal(status_ids: &[&str]) -> (r: ManifestationPayload)
        ensures
            r.kind == ManifestationKind::Heal,
            r.status_ids@.len() == status_ids@.len(),
            forall|i: int| 0 <= i < status_ids@.len() ==> #[trigger] r.status_ids@[i]@ == status_ids@[i]@,
    {
        ManifestationPayload { kind: ManifestationKind::Heal, status_ids: status_list(status_ids) }
    }
}

/// Identifier of a base ability, such as `"cleave"`.
#[derive(Debug, Clone, PartialEq, Eq, Hash)]
pub struct AbilityId(pub String);

impl View for AbilityId {
    type V = Seq<char>;

    open spec fn view(&self) -> Seq<char> {
        self.0@
    }
}

impl AbilityId {
    /// Builds an id from its text.
    pub fn new(id: &str) -> (r: AbilityId)
        ensures
            r@ == id@,
    {
        AbilityId(id.to_owned())
    }

    /// Underlying string value.
    pub fn as_str(&self) -> (r: &str)
        ensures
            r@ == self@,
    {
        self.0.as_str()
    }

    /// A copy carrying the same text.
    pub fn duplicate(&self) -> (r: AbilityId)
        ensures
            r == *self,
    {
        AbilityId(self.0.clone())
    }
}

/// Identifier of a Root Word, such as `"flame"`.
#[derive(Debug, Clone, PartialEq, Eq, Hash)]
pub struct RootWordId(pub String);

impl View for RootWordId {
    type V = Seq<char>;

    open spec fn view(&self) -> Seq<char> {
        self.0@
    }
}

impl RootWordId {
    /// Builds an id from its text.
    pub fn new(id: &str) -> (r: RootWordId)
        ensures
            r@ == id@,
    {
        RootWordId(id.to_owned())
    }

    /// Underlying string value.
    pub fn as_str(&self) -> (r: &str)
        ensures
            r@ == self@,
    {
        self.0.as_str()
    }

    /// A copy carrying the same text.
    pub fn duplicate(&self) -> (r: RootWordId)
        ensures
            r == *self,
    {
        RootWordId(self.0.clone())
    }
}

fn duplicate_ability(a: &Option<AbilityId>) -> (r: Option<AbilityId>)
    ensures
        r == *a,
{
    match a {
        Some(id) => Some(id.duplicate()),
        None => None,
    }
}

/// The ability picked for each slot of a weapon copy.
#[derive(Debug, Clone, PartialEq, Eq)]
pub struct AbilitySelection {
    pub primary: Option<AbilityId>,
    pub secondary: Option<AbilityId>,
    pub ultimate: Option<AbilityId>,
}

impl AbilitySelection {
    /// No slot has a pick.
    pub open spec fn is_empty_spec(self) -> bool {
        &&& self.primary is None
        &&& self.secondary is None
        &&& self.ultimate is None
    }

    /// No slot has a pick.
    pub fn is_empty(&self) -> (r: bool)
        ensures
            r == self.is_empty_spec(),
    {
        self.primary.is_none() && self.secondary.is_none() && self.ultimate.is_none()
    }

    /// A copy with the same picks.
    pub fn duplicate(&self) -> (r: AbilitySelection)
        ensures
            r == *self,
    {
        AbilitySelection {
            primary: duplicate_ability(&self.primary),
            secondary: duplicate_ability(&self.secondary),
            ultimate: duplicate_ability(&self.ultimate),
        }
    }
}

impl Default for AbilitySelection {
    fn default() -> (r: AbilitySelection)
        ensures
            r.is_empty_spec(),
    {
        AbilitySelection { primary: None, secondary: None, ultimate: None }
    }
}

/// Inscription engraved on a weapon copy.
#[derive(Debug, Clone, PartialEq, Eq)]
pub struct WeaponInscription {
    pub root_word: Option<RootWordId>,
}

impl WeaponInscription {
    /// A copy with the same engraving.
    pub fn duplicate(&self) -> (r: WeaponInscription)
        ensures
            r == *self,
    {
        WeaponInscription {
            root_word: match &self.root_word {
                Some(word) => Some(word.duplicate()),
                None => None,
            },
        }
    }
}

impl Default for WeaponInscription {
    fn default() -> (r: WeaponInscription)
        ensures
            r.root_word is None,
    {
        WeaponInscription { root_word: None }
    }
}

} // verus!
