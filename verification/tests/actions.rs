use rotappo::actions::{ActionDefinition, ActionId, ActionRegistry, ActionSafety};

#[test]
fn action_names_are_stable() {
    assert_eq!(ActionId::Validate.as_str(), "validate");
    assert_eq!(ActionId::Reconcile.as_str(), "reconcile");
    assert_eq!(ActionId::Rotate.as_str(), "rotate");
    assert_eq!(ActionId::Nuke.as_str(), "nuke");
    assert_eq!(ActionId::Debug.as_str(), "debug");
    assert_eq!(ActionSafety::Safe.as_str(), "safe");
    assert_eq!(ActionSafety::Guarded.as_str(), "guarded");
    assert_eq!(ActionSafety::Destructive.as_str(), "destructive");
}

#[test]
fn default_registry_lists_the_five_actions_in_order() {
    let r = ActionRegistry::bootstrappo_default();
    let ids: Vec<ActionId> = r.actions().iter().map(|a| a.id).collect();
    assert_eq!(
        ids,
        vec![ActionId::Validate, ActionId::Reconcile, ActionId::Rotate, ActionId::Debug, ActionId::Nuke]
    );
    let nuke = r.get(ActionId::Nuke).unwrap();
    assert_eq!(nuke.label, "Nuke");
    assert!(nuke.requires_confirmation);
    assert_eq!(nuke.safety, ActionSafety::Destructive);
    let validate = r.get(ActionId::Validate).unwrap();
    assert_eq!(validate.label, "Action Validate");
    assert!(!validate.requires_confirmation);
}

#[test]
fn registry_default_is_the_bootstrappo_set() {
    let r = ActionRegistry::default();
    assert_eq!(r.actions().len(), 5);
    assert_eq!(r.get(ActionId::Rotate).unwrap().label, "Rotate Secrets");
}

#[test]
fn definition_keeps_its_fields() {
    let d = ActionDefinition::new(ActionId::Debug, "L", "D", true, ActionSafety::Guarded);
    assert_eq!(d.id, ActionId::Debug);
    assert_eq!(d.label, "L");
    assert_eq!(d.description, "D");
    assert!(d.requires_confirmation);
    assert_eq!(d.safety, ActionSafety::Guarded);
}
