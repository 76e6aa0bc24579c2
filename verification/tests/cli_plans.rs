use rotappo::cli::{backend_paths, deletion_order, nuke_confirmed, purge_confirmed, rotate_run, RotateRun};
use rotappo::cli::{
    check_uninstalled, init_choice, plan_reconcile, rotation_hooks, InitChoice, ReconcileArgs,
    ReconcileOptions, ReconcilePlan, RotationHook,
};

fn args() -> ReconcileArgs {
    ReconcileArgs {
        assembly_path: "assembly.yaml".to_string(),
        watch: false,
        overlay: None,
        timing: false,
        timing_output: None,
        cache: false,
        parallel: false,
        concurrency: 4,
        force: false,
        bootstrap_tui: false,
    }
}

#[test]
fn bootstrap_ui_overrides_watch() {
    let mut a = args();
    a.bootstrap_tui = true;
    a.watch = true;
    a.timing_output = Some("t.json".to_string());
    a.parallel = true;
    match plan_reconcile(&a) {
        ReconcilePlan::BootstrapTui { options, overlay, ignored_watch } => {
            assert_eq!(options, ReconcileOptions { timing: true, caching: false, parallel: Some(4) });
            assert!(overlay.is_none());
            assert!(ignored_watch);
        }
        _ => panic!("expected the bootstrap UI plan"),
    }
}

#[test]
fn watch_mode_carries_overlay() {
    let mut a = args();
    a.watch = true;
    a.cache = true;
    a.overlay = Some("prod".to_string());
    match plan_reconcile(&a) {
        ReconcilePlan::Watch { options, overlay } => {
            assert_eq!(options, ReconcileOptions { timing: false, caching: true, parallel: None });
            assert_eq!(overlay.as_deref(), Some("prod"));
        }
        _ => panic!("expected the watch plan"),
    }
}

#[test]
fn converge_notes_ignored_parallelism() {
    let mut a = args();
    a.parallel = true;
    a.force = true;
    match plan_reconcile(&a) {
        ReconcilePlan::Converge { overlay, force, cache, timing, timing_output, ignored_parallel } => {
            assert!(overlay.is_none());
            assert!(force && !cache && !timing && timing_output.is_none() && ignored_parallel);
        }
        _ => panic!("expected the converge plan"),
    }
    a.timing = true;
    match plan_reconcile(&a) {
        ReconcilePlan::Converge { timing, ignored_parallel, .. } => assert!(timing && !ignored_parallel),
        _ => panic!("expected the converge plan"),
    }
}

#[test]
fn rotation_kinds() {
    assert_eq!(rotation_hooks("tls"), Ok(vec![RotationHook::Tls]));
    assert_eq!(
        rotation_hooks("all"),
        Ok(vec![RotationHook::Ingress, RotationHook::Tls, RotationHook::Dns])
    );
    assert_eq!(
        rotation_hooks("mtls"),
        Err("Rotation 'mtls' not yet implemented. Available: ingress, tls, dns, all".to_string())
    );
}

#[test]
fn init_decisions() {
    assert_eq!(init_choice(true, true), InitChoice::UseExisting);
    assert_eq!(init_choice(true, false), InitChoice::Install);
    assert_eq!(init_choice(false, true), InitChoice::Install);
    assert!(check_uninstalled(false).is_ok());
    assert_eq!(
        check_uninstalled(true),
        Err("Cluster still detected after uninstall. Verify K3s removal before retrying.".to_string())
    );
}

#[test]
fn nuke_prompt_accepts_yes_in_any_case() {
    assert!(nuke_confirmed("yes\n"));
    assert!(nuke_confirmed("  YeS \t"));
    assert!(nuke_confirmed("\u{3000}yes"));
    assert!(!nuke_confirmed("y"));
    assert!(!nuke_confirmed("yes please"));
    assert!(!nuke_confirmed(""));
}

#[test]
fn purge_prompt_accepts_y() {
    assert!(purge_confirmed("y\n"));
    assert!(purge_confirmed(" Y "));
    assert!(!purge_confirmed("yes"));
    assert!(!purge_confirmed("\n"));
}

#[test]
fn nuke_deletes_in_reverse_order() {
    let order = deletion_order(vec!["crds".to_string(), "operator".to_string(), "app".to_string()]);
    assert_eq!(order, vec!["app".to_string(), "operator".to_string(), "crds".to_string()]);
    assert!(deletion_order(vec![]).is_empty());
}

#[test]
fn backend_paths_default_to_the_bundled_config() {
    let (c, a) = backend_paths(None, None);
    assert_eq!(c, "../bootstrappo/data/configs/bootstrap-config.yaml");
    assert_eq!(a, c);
    let (c, a) = backend_paths(Some("x.yaml".to_string()), None);
    assert_eq!((c.as_str(), a.as_str()), ("x.yaml", "x.yaml"));
    let (c, a) = backend_paths(Some("x.yaml".to_string()), Some("asm.yaml".to_string()));
    assert_eq!((c.as_str(), a.as_str()), ("x.yaml", "asm.yaml"));
}

#[test]
fn converge_applies_the_overlay() {
    let mut a = args();
    a.overlay = Some("staging".to_string());
    match plan_reconcile(&a) {
        ReconcilePlan::Converge { overlay, .. } => assert_eq!(overlay.as_deref(), Some("staging")),
        _ => panic!("expected the converge plan"),
    }
}

#[test]
fn rotate_dry_run_previews_any_kind() {
    assert_eq!(rotate_run("anything", true), Ok(RotateRun::Preview));
    assert_eq!(rotate_run("dns", false), Ok(RotateRun::Hooks(vec![RotationHook::Dns])));
    assert!(rotate_run("bogus", false).is_err());
}
