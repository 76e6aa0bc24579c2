//! Domain action registry and action definitions.

use vstd::prelude::*;

verus! {

/// Identifier of an operator action.
#[derive(Debug, Clone, Copy, PartialEq, Eq, Hash, Structural)]
pub enum ActionId {
    Validate,
    Reconcile,
    Rotate,
    Nuke,
    Debug,
}

/// The stable lower-case name of an action identifier.
pub open spec fn action_id_name(id: ActionId) -> Seq<char> {
    match id {
        ActionId::Validate => "validate"@,
        ActionId::Reconcile => "reconcile"@,
        ActionId::Rotate => "rotate"@,
        ActionId::Nuke => "nuke"@,
        ActionId::Debug => "debug"@,
    }
}

impl ActionId {
    pub fn as_str(self) -> (s: &'static str)
        ensures
            s@ == action_id_name(self),
    {
        match self {
            ActionId::Validate => "validate",
            ActionId::Reconcile => "reconcile",
            ActionId::Rotate => "rotate",
            ActionId::Nuke => "nuke",
            ActionId::Debug => "debug",
        }
    }
}

/// How dangerous an action is to run.
#[derive(Debug, Clone, Copy, PartialEq, Eq, Structural)]
pub enum ActionSafety {
    Safe,
    Guarded,
    Destructive,
}

/// The stable lower-case name of a safety level.
pub open spec fn action_safety_name(safety: ActionSafety) -> Seq<char> {
    match safety {
        ActionSafety::Safe => "safe"@,
        ActionSafety::Guarded => "guarded"@,
        ActionSafety::Destructive => "destructive"@,
    }
}

impl ActionSafety {
    pub fn as_str(self) -> (s: &'static str)
        ensures
            s@ == action_safety_name(self),
    {
        match self {
            ActionSafety::Safe => "safe",
            ActionSafety::Guarded => "guarded",
            ActionSafety::Destructive => "destructive",
        }
    }
}

/// Static description of an action offered to the operator.
#[derive(Debug, Clone)]
pub struct ActionDefinition {
    pub id: ActionId,
    pub label: &'static str,
    pub description: &'static str,
    pub requires_confirmation: bool,
    pub safety: ActionSafety,
}

impl ActionDefinition {
    pub fn new(
        id: ActionId,
        label: &'static str,
        description: &'static str,
        requires_confirmation: bool,
        safety: ActionSafety,
    ) -> (d: Self)
        ensures
            d.id == id,
            d.label == label,
            d.description == description,
            d.requires_confirmation == requires_confirmation,
            d.safety == safety,
    {
        ActionDefinition { id, label, description, requires_confirmation, safety }
    }
}

/// The ordered list of actions a backend offers.
#[derive(Debug, Clone)]
pub struct ActionRegistry {
    actions: Vec<ActionDefinition>,
}

/// Index of the first definition in `defs` whose id is `id`, if any.
pub open spec fn first_with_id(defs: Seq<ActionDefinition>, id: ActionId) -> Option<int>
    decreases defs.len(),
{
    if defs.len() == 0 {
        None
    } else if defs[0].id == id {
        Some(0)
    } else {
        match first_with_id(defs.drop_first(), id) {
            Some(i) => Some(i + 1),
            None => None,
        }
    }
}

/// The ids of the default bootstrappo registry, in presentation order.
pub open spec fn default_action_ids() -> Seq<ActionId> {
    seq![ActionId::Validate, ActionId::Reconcile, ActionId::Rotate, ActionId::Debug, ActionId::Nuke]
}

/// `r` is the default bootstrappo registry: validate, reconcile, rotate,
/// debug and nuke, with their labels, descriptions, confirmation and safety.
pub open spec fn is_default_registry(r: Seq<ActionDefinition>) -> bool {
    &&& r.len() == 5
    &&& forall|i: int| 0 <= i < 5 ==> #[trigger] r[i].id == default_action_ids()[i]
    &&& r[0].label@ == "Action Validate"@
    &&& r[0].description@ == "Validate desired state without mutating infrastructure."@
    &&& !r[0].requires_confirmation
    &&& r[0].safety == ActionSafety::Safe
    &&& r[1].label@ == "Reconcile"@
    &&& r[1].description@ == "Apply desired state to the cluster with full drift repair."@
    &&& r[1].requires_confirmation
    &&& r[1].safety == ActionSafety::Guarded
    &&& r[2].label@ == "Rotate Secrets"@
    &&& r[2].description@ == "Rotate managed credentials and reconcile dependent services."@
    &&& r[2].requires_confirmation
    &&& r[2].safety == ActionSafety::Guarded
    &&& r[3].label@ == "Debug Snapshot"@
    &&& r[3].description@ == "Collect diagnostics for action drift and action failures."@
    &&& !r[3].requires_confirmation
    &&& r[3].safety == ActionSafety::Safe
    &&& r[4].label@ == "Nuke"@
    &&& r[4].description@ == "Destroy all managed resources in the target workspace."@
    &&& r[4].requires_confirmation
    &&& r[4].safety == ActionSafety::Destructive
}

impl View for ActionRegistry {
    type V = Seq<ActionDefinition>;

    closed spec fn view(&self) -> Seq<ActionDefinition> {
        self.actions@
    }
}

impl ActionRegistry {

    pub fn bootstrappo_default() -> (r: Self)
        ensures
            is_default_registry(r@),
    {
        let mut actions: Vec<ActionDefinition> = Vec::new();
        actions.push(ActionDefinition::new(
            ActionId::Validate,
            "Action Validate",
            "Validate desired state without mutating infrastructure.",
            false,
            ActionSafety::Safe,
        ));
        actions.push(ActionDefinition::new(
            ActionId::Reconcile,
            "Reconcile",
            "Apply desired state to the cluster with full drift repair.",
            true,
            ActionSafety::Guarded,
        ));
        actions.push(ActionDefinition::new(
            ActionId::Rotate,
            "Rotate Secrets",
            "Rotate managed credentials and reconcile dependent services.",
            true,
            ActionSafety::Guarded,
        ));
        actions.push(ActionDefinition::new(
            ActionId::Debug,
            "Debug Snapshot",
            "Collect diagnostics for action drift and action failures.",
            false,
            ActionSafety::Safe,
        ));
        actions.push(ActionDefinition::new(
            ActionId::Nuke,
            "Nuke",
            "Destroy all managed resources in the target workspace.",
            true,
            ActionSafety::Destructive,
        ));
        ActionRegistry { actions }
    }

    pub fn actions(&self) -> (s: &[ActionDefinition])
        ensures
            s@ == self@,
    {
        self.actions.as_slice()
    }

    pub fn get(&self, id: ActionId) -> (r: Option<&ActionDefinition>)
        ensures
            match first_with_id(self@, id) {
                Some(i) => r == Some(&self@[i]),
                None => r.is_none(),
            },
    {
        let mut i: usize = 0;
        while i < self.actions.len()
            invariant
                0 <= i <= self.actions.len(),
                forall|k: int| 0 <= k < i ==> self.actions@[k].id != id,
            decreases self.actions.len() - i,
        {
            if self.actions[i].id == id {
                proof { lemma_first_with_id_at(self@, id, i as int); }
                return Some(&self.actions[i]);
            }
            i = i + 1;
        }
        proof { lemma_first_with_id_none(self@, id); }
        None
    }
}

proof fn lemma_first_with_id_at(defs: Seq<ActionDefinition>, id: ActionId, i: int)
    requires
        0 <= i < defs.len(),
        defs[i].id == id,
        forall|k: int| 0 <= k < i ==> defs[k].id != id,
    ensures
        first_with_id(defs, id) == Some(i),
    decreases defs.len(),
{
    if i > 0 {
        lemma_first_with_id_at(defs.drop_first(), id, i - 1);
    }
}

proof fn lemma_first_with_id_none(defs: Seq<ActionDefinition>, id: ActionId)
    requires
        forall|k: int| 0 <= k < defs.len() ==> defs[k].id != id,
    ensures
        first_with_id(defs, id).is_none(),
    decreases defs.len(),
{
    if defs.len() > 0 {
        lemma_first_with_id_none(defs.drop_first(), id);
    }
}

impl Default for ActionRegistry {
    fn default() -> (r: Self)
        ensures
            is_default_registry(r@),
    {
        Self::bootstrappo_default()
    }
}

/// In the default registry every action id occurs exactly once, and an
/// action asks for confirmation exactly when it is not safe.
pub proof fn lemma_default_registry_shape(r: Seq<ActionDefinition>)
    requires
        is_default_registry(r),
    ensures
        forall|id: ActionId| first_with_id(r, id).is_some(),
        forall|i: int, j: int| 0 <= i < r.len() && 0 <= j < r.len() && i != j ==> r[i].id != r[j].id,
        forall|i: int| 0 <= i < r.len() ==> #[trigger] r[i].requires_confirmation == (r[i].safety != ActionSafety::Safe),
{
    assert(r[0].id == ActionId::Validate);
    assert(r[1].id == ActionId::Reconcile);
    assert(r[2].id == ActionId::Rotate);
    assert(r[3].id == ActionId::Debug);
    assert(r[4].id == ActionId::Nuke);
    assert forall|id: ActionId| first_with_id(r, id).is_some() by {
        let k: int = match id {
            ActionId::Validate => 0,
            ActionId::Reconcile => 1,
            ActionId::Rotate => 2,
            ActionId::Debug => 3,
            ActionId::Nuke => 4,
        };
        assert forall|m: int| 0 <= m < k implies r[m].id != id by {}
        lemma_first_with_id_at(r, id, k);
    }
}

} // verus!
