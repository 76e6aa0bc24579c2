//! Command arguments of the operator CLI and the plan a reconcile run follows.

use crate::domain::clone_opt;
use crate::domain::opt_view;
use crate::codec::str_eq;
use crate::text::{chars_of, views};
use vstd::prelude::*;

verus! {

/// Arguments of `reconcile`.
#[derive(Debug, Clone)]
pub struct ReconcileArgs {
    pub assembly_path: String,
    pub watch: bool,
    pub overlay: Option<String>,
    pub timing: bool,
    pub timing_output: Option<String>,
    pub cache: bool,
    pub parallel: bool,
    pub concurrency: usize,
    pub force: bool,
    pub bootstrap_tui: bool,
}

/// Arguments of `generate storage`: the smallest device size to report.
#[derive(Debug, Clone, Copy)]
pub struct StorageArgs {
    pub min_size: Option<u64>,
}

/// Engine options of an event-driven reconcile.
#[derive(Debug, Clone, Copy, PartialEq, Eq, Structural)]
pub struct ReconcileOptions {
    pub timing: bool,
    pub caching: bool,
    pub parallel: Option<usize>,
}

/// How a reconcile run proceeds.
pub enum ReconcilePlan {
    /// One converge pass driven by the bootstrap terminal UI; `ignored_watch`
    /// records that a requested watch mode is overridden.
    BootstrapTui { options: ReconcileOptions, overlay: Option<String>, ignored_watch: bool },
    /// The event-driven reconciler in watch mode.
    Watch { options: ReconcileOptions, overlay: Option<String> },
    /// One converge pass of the lifecycle manager; `ignored_parallel`
    /// records that a parallel request has no effect in this mode.
    Converge {
        overlay: Option<String>,
        force: bool,
        cache: bool,
        timing: bool,
        timing_output: Option<String>,
        ignored_parallel: bool,
    },
}

/// Timing is collected when asked for or when a timing file is given.
pub open spec fn timing_enabled(args: ReconcileArgs) -> bool {
    args.timing || args.timing_output.is_some()
}

/// The engine options the arguments select.
pub open spec fn options_for(args: ReconcileArgs) -> ReconcileOptions {
    ReconcileOptions {
        timing: timing_enabled(args),
        caching: args.cache,
        parallel: if args.parallel {
            Some(args.concurrency)
        } else {
            None
        },
    }
}

/// The plan of a reconcile run with `args`: the bootstrap UI takes
/// precedence over watch mode, and watch mode over a converge pass; every
/// mode applies the requested overlay.
pub open spec fn plan_matches(plan: ReconcilePlan, args: ReconcileArgs) -> bool {
    if args.bootstrap_tui {
        plan matches ReconcilePlan::BootstrapTui { options, overlay, ignored_watch } && options
            == options_for(args) && opt_view(overlay) == opt_view(args.overlay) && ignored_watch
            == args.watch
    } else if args.watch {
        plan matches ReconcilePlan::Watch { options, overlay } && options == options_for(args)
            && opt_view(overlay) == opt_view(args.overlay)
    } else {
        plan matches ReconcilePlan::Converge { overlay, force, cache, timing, timing_output, ignored_parallel }
            && opt_view(overlay) == opt_view(args.overlay) && force == args.force && cache == args.cache && timing == timing_enabled(args)
            && opt_view(timing_output) == opt_view(args.timing_output) && ignored_parallel == (
        !timing_enabled(args) && args.parallel)
    }
}

/// Decides how a reconcile run with `args` proceeds.
pub fn plan_reconcile(args: &ReconcileArgs) -> (plan: ReconcilePlan)
    ensures
        plan_matches(plan, *args),
{
    let timing = args.timing || args.timing_output.is_some();
    let options = ReconcileOptions {
        timing,
        caching: args.cache,
        parallel: if args.parallel {
            Some(args.concurrency)
        } else {
            None
        },
    };
    if args.bootstrap_tui {
        ReconcilePlan::BootstrapTui {
            options,
            overlay: clone_opt(&args.overlay),
            ignored_watch: args.watch,
        }
    } else if args.watch {
        ReconcilePlan::Watch { options, overlay: clone_opt(&args.overlay) }
    } else {
        ReconcilePlan::Converge {
            overlay: clone_opt(&args.overlay),
            force: args.force,
            cache: args.cache,
            timing,
            timing_output: clone_opt(&args.timing_output),
            ignored_parallel: !timing && args.parallel,
        }
    }
}

/// A hook that `rotate` runs.
#[derive(Debug, Clone, Copy, PartialEq, Eq, Structural)]
pub enum RotationHook {
    Ingress,
    Tls,
    Dns,
}

/// The message for a rotation kind that does not exist.
pub open spec fn unknown_rotation_message(rotation: Seq<char>) -> Seq<char> {
    "Rotation '"@ + rotation + "' not yet implemented. Available: ingress, tls, dns, all"@
}

/// The hooks a rotation of kind `rotation` runs, in order; any other kind
/// is refused with a message naming it.
pub open spec fn rotation_plan(rotation: Seq<char>) -> Result<Seq<RotationHook>, Seq<char>> {
    if rotation == "ingress"@ {
        Ok(seq![RotationHook::Ingress])
    } else if rotation == "tls"@ {
        Ok(seq![RotationHook::Tls])
    } else if rotation == "dns"@ {
        Ok(seq![RotationHook::Dns])
    } else if rotation == "all"@ {
        Ok(seq![RotationHook::Ingress, RotationHook::Tls, RotationHook::Dns])
    } else {
        Err(unknown_rotation_message(rotation))
    }
}

/// The hooks that `rotate` runs for the rotation kind `rotation`.
pub fn rotation_hooks(rotation: &str) -> (r: Result<Vec<RotationHook>, String>)
    ensures
        match (r, rotation_plan(rotation@)) {
            (Ok(h), Ok(p)) => h@ == p,
            (Err(m), Err(p)) => m@ == p,
            _ => false,
        },
{
    if str_eq(rotation, "ingress") {
        Ok(vec![RotationHook::Ingress])
    } else if str_eq(rotation, "tls") {
        Ok(vec![RotationHook::Tls])
    } else if str_eq(rotation, "dns") {
        Ok(vec![RotationHook::Dns])
    } else if str_eq(rotation, "all") {
        Ok(vec![RotationHook::Ingress, RotationHook::Tls, RotationHook::Dns])
    } else {
        let mut m = "Rotation '".to_owned();
        m.append(rotation);
        m.append("' not yet implemented. Available: ingress, tls, dns, all");
        Err(m)
    }
}

/// What `rotate` does.
#[derive(Debug, Clone, PartialEq, Eq)]
pub enum RotateRun {
    /// A dry run: the request is only shown, nothing is loaded or run.
    Preview,
    /// The hooks to run, in order.
    Hooks(Vec<RotationHook>),
}

/// What `rotate` does for rotation kind `rotation`: a dry run previews any
/// request without checking its kind; otherwise the kind's hooks run, and
/// an unknown kind is refused as `rotation_hooks` refuses it.
pub fn rotate_run(rotation: &str, dry_run: bool) -> (r: Result<RotateRun, String>)
    ensures
        dry_run ==> r == Ok::<RotateRun, String>(RotateRun::Preview),
        !dry_run ==> match (r, rotation_plan(rotation@)) {
            (Ok(RotateRun::Hooks(h)), Ok(p)) => h@ == p,
            (Err(m), Err(p)) => m@ == p,
            _ => false,
        },
{
    if dry_run {
        return Ok(RotateRun::Preview);
    }
    match rotation_hooks(rotation) {
        Ok(h) => Ok(RotateRun::Hooks(h)),
        Err(m) => Err(m),
    }
}

/// How `init` obtains a cluster.
#[derive(Debug, Clone, Copy, PartialEq, Eq, Structural)]
pub enum InitChoice {
    /// Keep the cluster that is already installed.
    UseExisting,
    /// Install (or upgrade) the cluster.
    Install,
}

/// With `skip_upgrade`, an installed cluster is kept; otherwise the
/// cluster is installed, which upgrades one that exists.
pub fn init_choice(skip_upgrade: bool, existing: bool) -> (c: InitChoice)
    ensures
        c == (if skip_upgrade && existing {
            InitChoice::UseExisting
        } else {
            InitChoice::Install
        }),
{
    if skip_upgrade && existing {
        InitChoice::UseExisting
    } else {
        InitChoice::Install
    }
}

/// After a forced uninstall, `init` goes on only when no cluster is
/// detected any more.
pub fn check_uninstalled(still_detected: bool) -> (r: Result<(), String>)
    ensures
        r is Ok <==> !still_detected,
        r matches Err(m) ==> m@
            == "Cluster still detected after uninstall. Verify K3s removal before retrying."@,
{
    if still_detected {
        Err("Cluster still detected after uninstall. Verify K3s removal before retrying.".to_owned())
    } else {
        Ok(())
    }
}

/// Characters with the Unicode `White_Space` property, which `str::trim`
/// removes.
pub open spec fn is_whitespace(c: char) -> bool {
    ||| ('\u{9}' <= c && c <= '\u{d}')
    ||| c == ' '
    ||| c == '\u{85}'
    ||| c == '\u{a0}'
    ||| c == '\u{1680}'
    ||| ('\u{2000}' <= c && c <= '\u{200a}')
    ||| c == '\u{2028}'
    ||| c == '\u{2029}'
    ||| c == '\u{202f}'
    ||| c == '\u{205f}'
    ||| c == '\u{3000}'
}

/// `s` without leading whitespace.
pub open spec fn trim_start(s: Seq<char>) -> Seq<char>
    decreases s.len(),
{
    if s.len() > 0 && is_whitespace(s[0]) {
        trim_start(s.drop_first())
    } else {
        s
    }
}

/// `s` without trailing whitespace.
pub open spec fn trim_end(s: Seq<char>) -> Seq<char>
    decreases s.len(),
{
    if s.len() > 0 && is_whitespace(s.last()) {
        trim_end(s.drop_last())
    } else {
        s
    }
}

/// `s` without leading and trailing whitespace.
pub open spec fn trimmed(s: Seq<char>) -> Seq<char> {
    trim_end(trim_start(s))
}

fn is_whitespace_char(c: char) -> (b: bool)
    ensures
        b == is_whitespace(c),
{
    ('\u{9}' <= c && c <= '\u{d}') || c == ' ' || c == '\u{85}' || c == '\u{a0}' || c
        == '\u{1680}' || ('\u{2000}' <= c && c <= '\u{200a}') || c == '\u{2028}' || c
        == '\u{2029}' || c == '\u{202f}' || c == '\u{205f}' || c == '\u{3000}'
}

proof fn lemma_trim_start_from(s: Seq<char>, i: int)
    requires
        0 <= i <= s.len(),
        forall|k: int| 0 <= k < i ==> is_whitespace(s[k]),
        i == s.len() || !is_whitespace(s[i]),
    ensures
        trim_start(s) == s.skip(i),
    decreases i,
{
    if i > 0 {
        assert(s.drop_first().skip(i - 1) =~= s.skip(i));
        lemma_trim_start_from(s.drop_first(), i - 1);
    } else {
        assert(s.skip(0) =~= s);
    }
}

proof fn lemma_trim_end_to(s: Seq<char>, j: int)
    requires
        0 <= j <= s.len(),
        forall|k: int| j <= k < s.len() ==> is_whitespace(s[k]),
        j == 0 || !is_whitespace(s[j - 1]),
    ensures
        trim_end(s) == s.take(j),
    decreases s.len() - j,
{
    if j < s.len() {
        assert(s.drop_last().take(j) =~= s.take(j));
        lemma_trim_end_to(s.drop_last(), j);
    } else {
        assert(s.take(j) =~= s);
    }
}

/// The characters of `input` without leading and trailing whitespace.
fn trimmed_chars(input: &str) -> (t: Vec<char>)
    ensures
        t@ == trimmed(input@),
{
    let cs = chars_of(input);
    let mut i: usize = 0;
    while i < cs.len() && is_whitespace_char(cs[i])
        invariant
            0 <= i <= cs.len(),
            forall|k: int| 0 <= k < i ==> is_whitespace(cs@[k]),
        decreases cs.len() - i,
    {
        i = i + 1;
    }
    let mut j: usize = cs.len();
    while j > i && is_whitespace_char(cs[j - 1])
        invariant
            i <= j <= cs.len(),
            forall|k: int| j <= k < cs.len() ==> is_whitespace(cs@[k]),
        decreases j,
    {
        j = j - 1;
    }
    proof {
        lemma_trim_start_from(cs@, i as int);
        let rest = cs@.skip(i as int);
        assert forall|k: int| j - i <= k < rest.len() implies is_whitespace(rest[k]) by {
            assert(rest[k] == cs@[k + i]);
        }
        if j > i {
            assert(rest[j - i - 1] == cs@[j - 1]);
        }
        lemma_trim_end_to(rest, j - i);
        assert(rest.take(j - i) =~= cs@.subrange(i as int, j as int));
    }
    let mut t: Vec<char> = Vec::new();
    let mut k: usize = i;
    while k < j
        invariant
            i <= k <= j,
            j <= cs.len(),
            t@ == cs@.subrange(i as int, k as int),
        decreases j - k,
    {
        t.push(cs[k]);
        proof {
            assert(t@ =~= cs@.subrange(i as int, k + 1));
        }
        k = k + 1;
    }
    t
}

/// Whether the answer to the nuke prompt confirms it: `yes` in any letter
/// case, surrounding whitespace ignored. (No character outside `Y`, `E`,
/// `S` lower-cases to `y`, `e` or `s`.)
pub open spec fn confirms_nuke(input: Seq<char>) -> bool {
    let t = trimmed(input);
    t.len() == 3 && (t[0] == 'y' || t[0] == 'Y') && (t[1] == 'e' || t[1] == 'E') && (t[2] == 's'
        || t[2] == 'S')
}

/// Reads the answer to the nuke prompt.
pub fn nuke_confirmed(input: &str) -> (ok: bool)
    ensures
        ok == confirms_nuke(input@),
{
    let t = trimmed_chars(input);
    t.len() == 3 && (t[0] == 'y' || t[0] == 'Y') && (t[1] == 'e' || t[1] == 'E') && (t[2] == 's'
        || t[2] == 'S')
}

/// Whether the answer to the cache purge prompt confirms it: `y` or `Y`,
/// surrounding whitespace ignored.
pub open spec fn confirms_purge(input: Seq<char>) -> bool {
    let t = trimmed(input);
    t.len() == 1 && (t[0] == 'y' || t[0] == 'Y')
}

/// Reads the answer to the cache purge prompt.
pub fn purge_confirmed(input: &str) -> (ok: bool)
    ensures
        ok == confirms_purge(input@),
{
    let t = trimmed_chars(input);
    t.len() == 1 && (t[0] == 'y' || t[0] == 'Y')
}

/// The order in which `nuke` deletes the steps of an assembly: the reverse
/// of the order in which they were applied.
pub fn deletion_order(execution_order: Vec<String>) -> (r: Vec<String>)
    ensures
        views(r@) == views(execution_order@).reverse(),
{
    let ghost inp = execution_order@;
    let mut rest = execution_order;
    let mut r: Vec<String> = Vec::new();
    while rest.len() > 0
        invariant
            inp.len() == rest@.len() + r@.len(),
            rest@ == inp.take(rest@.len() as int),
            views(r@) == views(inp).reverse().take(r@.len() as int),
        decreases rest.len(),
    {
        let ghost n = rest@.len();
        let x = rest.pop().unwrap();
        proof {
            assert(x == inp[n - 1]);
            assert(rest@ =~= inp.take(n - 1));
            assert(views(inp).reverse()[r@.len() as int] == x@);
        }
        let ghost before = r@;
        r.push(x);
        proof {
            assert(views(r@) =~= views(inp).reverse().take(r@.len() as int)) by {
                assert(views(r@) =~= views(before).push(x@));
            }
        }
    }
    proof {
        assert(views(inp).reverse().take(inp.len() as int) =~= views(inp).reverse());
    }
    r
}

/// The configuration file the operator backend reads by default.
pub open spec fn default_config_path() -> Seq<char> {
    "../bootstrappo/data/configs/bootstrap-config.yaml"@
}

/// The configuration and assembly paths of the operator backend: the
/// configuration defaults to the bundled bootstrap configuration, and the
/// assembly to the configuration file.
pub fn backend_paths(config_path: Option<String>, assembly_path: Option<String>) -> (r: (String, String))
    ensures
        r.0@ == match config_path {
            Some(p) => p@,
            None => default_config_path(),
        },
        r.1@ == match assembly_path {
            Some(p) => p@,
            None => r.0@,
        },
{
    let config = match config_path {
        Some(p) => p,
        None => "../bootstrappo/data/configs/bootstrap-config.yaml".to_owned(),
    };
    let assembly = match assembly_path {
        Some(p) => p,
        None => config.clone(),
    };
    (config, assembly)
}

/// What a reconcile plan follows from its arguments. The bootstrap UI wins
/// over watch mode and watch mode over a converge pass. The engine options
/// of the UI and watch modes cache artifacts exactly when `--cache` is
/// given, collect timing exactly when timing or a timing file is asked for,
/// and run in parallel, with the requested concurrency, exactly when
/// `--parallel` is given. A converge pass caches exactly when `--cache` is
/// given, forces exactly when `--force` is, collects timing as above into
/// the requested file, and records a parallel request as ignored exactly
/// when parallel was asked for without timing. Every mode keeps the
/// requested overlay.
pub proof fn lemma_reconcile_plan(plan: ReconcilePlan, args: ReconcileArgs)
    requires
        plan_matches(plan, args),
    ensures
        args.bootstrap_tui ==> plan is BootstrapTui,
        !args.bootstrap_tui && args.watch ==> plan is Watch,
        !args.bootstrap_tui && !args.watch ==> plan is Converge,
        plan matches ReconcilePlan::Converge { overlay, force, cache, timing, timing_output, ignored_parallel }
            ==> cache == args.cache && force == args.force && timing == (args.timing || args.timing_output is Some)
            && opt_view(overlay) == opt_view(args.overlay) && opt_view(timing_output) == opt_view(
            args.timing_output,
        ) && ignored_parallel == (args.parallel && !args.timing && args.timing_output is None),
        plan matches ReconcilePlan::BootstrapTui { options, overlay, ignored_watch } ==> options.caching
            == args.cache && options.timing == (args.timing || args.timing_output is Some) && options.parallel == (
        if args.parallel {
            Some(args.concurrency)
        } else {
            None
        }) && opt_view(overlay) == opt_view(args.overlay) && ignored_watch == args.watch,
        plan matches ReconcilePlan::Watch { options, overlay } ==> options.caching == args.cache && options.timing
            == (args.timing || args.timing_output is Some) && options.parallel == (if args.parallel {
            Some(args.concurrency)
        } else {
            None
        }) && opt_view(overlay) == opt_view(args.overlay),
{
}

/// The rotation kinds: `ingress`, `tls` and `dns` each run their own single
/// hook, three different hooks; `all` runs exactly those three, in that
/// order; every other kind is refused, with a message that names it.
pub proof fn lemma_rotation_kinds(rotation: Seq<char>)
    ensures
        rotation_plan("ingress"@) matches Ok(h) && h.len() == 1,
        rotation_plan("tls"@) matches Ok(h) && h.len() == 1,
        rotation_plan("dns"@) matches Ok(h) && h.len() == 1,
        rotation_plan("ingress"@)->Ok_0[0] != rotation_plan("tls"@)->Ok_0[0],
        rotation_plan("ingress"@)->Ok_0[0] != rotation_plan("dns"@)->Ok_0[0],
        rotation_plan("tls"@)->Ok_0[0] != rotation_plan("dns"@)->Ok_0[0],
        rotation_plan("all"@) == Ok::<Seq<RotationHook>, Seq<char>>(
            rotation_plan("ingress"@)->Ok_0 + rotation_plan("tls"@)->Ok_0 + rotation_plan("dns"@)->Ok_0,
        ),
        rotation != "ingress"@ && rotation != "tls"@ && rotation != "dns"@ && rotation != "all"@ ==> (
        rotation_plan(rotation) matches Err(m) && m == "Rotation '"@ + rotation
            + "' not yet implemented. Available: ingress, tls, dns, all"@),
{
    reveal_strlit("ingress");
    reveal_strlit("tls");
    reveal_strlit("dns");
    reveal_strlit("all");
    assert("tls"@ != "ingress"@) by { assert("tls"@.len() != "ingress"@.len()); }
    assert("dns"@ != "ingress"@) by { assert("dns"@.len() != "ingress"@.len()); }
    assert("dns"@ != "tls"@) by { assert("dns"@[0] != "tls"@[0]); }
    assert("all"@ != "ingress"@) by { assert("all"@.len() != "ingress"@.len()); }
    assert("all"@ != "tls"@) by { assert("all"@[0] != "tls"@[0]); }
    assert("all"@ != "dns"@) by { assert("all"@[0] != "dns"@[0]); }
    assert(seq![RotationHook::Ingress] + seq![RotationHook::Tls] + seq![RotationHook::Dns] =~= seq![
        RotationHook::Ingress,
        RotationHook::Tls,
        RotationHook::Dns,
    ]);
}

} // verus!
