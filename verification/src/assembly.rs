//! Assembly steps as the operator UI shows them: where each step runs,
//! whether it has readiness gates, and whether those gates are met.

use crate::domain::{clone_opt, opt_view};
use crate::health::{entry_position, find_module, module_table_view, upsert};
use crate::text::views;
use vstd::prelude::*;

verus! {

/// A readiness gate of an assembly step.
#[derive(Debug, Clone)]
pub enum Check {
    DaemonsetReady { namespace: String, name: String },
    DeploymentReady { namespace: String, name: String },
    StatefulsetReady { namespace: String, name: String },
    CrdEstablished { name: String },
    SecretExists { namespace: String, name: String },
    JobReady { namespace: String, name: String },
    ServiceReady { namespace: String, name: String },
    OidcValid,
}

/// One step of an assembly.
#[derive(Debug, Clone)]
pub struct Step {
    pub id: String,
    pub kind: String,
    /// Steps this one depends on.
    pub required: Vec<String>,
    /// Signals this step provides.
    pub provides: Vec<String>,
    pub checks: Vec<Check>,
}

/// `namespace/name`.
pub open spec fn qualified(namespace: Seq<char>, name: Seq<char>) -> Seq<char> {
    namespace + "/"@ + name
}

/// The workload a gate names, as `namespace/name`; CRD and OIDC gates name
/// none.
pub open spec fn check_label(c: Check) -> Option<Seq<char>> {
    match c {
        Check::DaemonsetReady { namespace, name } => Some(qualified(namespace@, name@)),
        Check::DeploymentReady { namespace, name } => Some(qualified(namespace@, name@)),
        Check::StatefulsetReady { namespace, name } => Some(qualified(namespace@, name@)),
        Check::SecretExists { namespace, name } => Some(qualified(namespace@, name@)),
        Check::JobReady { namespace, name } => Some(qualified(namespace@, name@)),
        Check::ServiceReady { namespace, name } => Some(qualified(namespace@, name@)),
        Check::CrdEstablished { .. } => None,
        Check::OidcValid => None,
    }
}

/// The workload named by the first gate that names one.
pub open spec fn first_label(checks: Seq<Check>) -> Option<Seq<char>>
    decreases checks.len(),
{
    if checks.len() == 0 {
        None
    } else {
        match check_label(checks[0]) {
            Some(l) => Some(l),
            None => first_label(checks.drop_first()),
        }
    }
}

/// The pod a step is shown against: the workload of its first gate that
/// names one, else `namespace/id` when the step's module has a namespace.
pub open spec fn pod_value(step: Step, namespace: Option<Seq<char>>) -> Option<Seq<char>> {
    match first_label(step.checks@) {
        Some(l) => Some(l),
        None => match namespace {
            Some(ns) => Some(qualified(ns, step.id@)),
            None => None,
        },
    }
}

fn qualify(namespace: &str, name: &str) -> (r: String)
    ensures
        r@ == qualified(namespace@, name@),
{
    let mut r = namespace.to_owned();
    r.append("/");
    r.append(name);
    r
}

fn label_of(c: &Check) -> (r: Option<String>)
    ensures
        opt_view(r) == check_label(*c),
{
    match c {
        Check::DaemonsetReady { namespace, name } => Some(qualify(namespace, name)),
        Check::DeploymentReady { namespace, name } => Some(qualify(namespace, name)),
        Check::StatefulsetReady { namespace, name } => Some(qualify(namespace, name)),
        Check::SecretExists { namespace, name } => Some(qualify(namespace, name)),
        Check::JobReady { namespace, name } => Some(qualify(namespace, name)),
        Check::ServiceReady { namespace, name } => Some(qualify(namespace, name)),
        Check::CrdEstablished { .. } => None,
        Check::OidcValid => None,
    }
}

/// The pod value of `step` whose module lives in `namespace`.
pub fn derive_pod_value(step: &Step, namespace: Option<&str>) -> (r: Option<String>)
    ensures
        opt_view(r) == pod_value(*step, match namespace {
            Some(ns) => Some(ns@),
            None => None,
        }),
{
    let ghost cs = step.checks@;
    let mut i: usize = 0;
    proof {
        assert(cs.skip(0) =~= cs);
    }
    while i < step.checks.len()
        invariant
            0 <= i <= step.checks.len(),
            cs == step.checks@,
            first_label(cs) == first_label(cs.skip(i as int)),
        decreases step.checks.len() - i,
    {
        proof {
            assert(cs.skip(i as int).drop_first() =~= cs.skip(i + 1));
            assert(cs.skip(i as int)[0] == cs[i as int]);
        }
        let l = label_of(&step.checks[i]);
        if l.is_some() {
            return l;
        }
        i = i + 1;
    }
    proof {
        assert(cs.skip(i as int).len() == 0);
    }
    match namespace {
        Some(ns) => Some(qualify(ns, step.id.as_str())),
        None => None,
    }
}

/// Which readiness question the cluster cache answers for a gate.
#[derive(Debug, Clone, Copy, PartialEq, Eq, Structural)]
pub enum GateKind {
    /// `is_daemonset_ready(namespace, name)`.
    DaemonsetReady,
    /// `is_deployment_ready(namespace, name)`.
    DeploymentReady,
    /// `is_statefulset_ready(namespace, name)`.
    StatefulsetReady,
    /// `is_crd_established(name)`.
    CrdEstablished,
    /// `is_secret_ready(namespace, name)`.
    SecretReady,
    /// `is_job_ready(namespace, name)`.
    JobReady,
    /// `is_service_ready(namespace, name)`.
    ServiceReady,
}

/// The question asked of the cluster cache for one gate.
#[derive(Debug, Clone)]
pub struct GateQuery {
    pub kind: GateKind,
    /// The namespace, for namespaced workloads.
    pub namespace: Option<String>,
    pub name: String,
}

/// The cluster question a gate asks (kind, namespace, name); the OIDC gate
/// asks none, it reads the configuration.
pub open spec fn gate_question(c: Check) -> Option<(GateKind, Option<Seq<char>>, Seq<char>)> {
    match c {
        Check::DaemonsetReady { namespace, name } => Some((GateKind::DaemonsetReady, Some(namespace@), name@)),
        Check::DeploymentReady { namespace, name } => Some((GateKind::DeploymentReady, Some(namespace@), name@)),
        Check::StatefulsetReady { namespace, name } => Some((GateKind::StatefulsetReady, Some(namespace@), name@)),
        Check::CrdEstablished { name } => Some((GateKind::CrdEstablished, None, name@)),
        Check::SecretExists { namespace, name } => Some((GateKind::SecretReady, Some(namespace@), name@)),
        Check::JobReady { namespace, name } => Some((GateKind::JobReady, Some(namespace@), name@)),
        Check::ServiceReady { namespace, name } => Some((GateKind::ServiceReady, Some(namespace@), name@)),
        Check::OidcValid => None,
    }
}

/// The question to ask the cluster cache for gate `c`; its answer is the
/// flag `checks_ready` takes for that gate.
pub fn gate_query(c: &Check) -> (q: Option<GateQuery>)
    ensures
        match q {
            Some(x) => gate_question(*c) == Some((x.kind, opt_view(x.namespace), x.name@)),
            None => gate_question(*c).is_none(),
        },
{
    match c {
        Check::DaemonsetReady { namespace, name } => Some(
            GateQuery { kind: GateKind::DaemonsetReady, namespace: Some(namespace.clone()), name: name.clone() },
        ),
        Check::DeploymentReady { namespace, name } => Some(
            GateQuery { kind: GateKind::DeploymentReady, namespace: Some(namespace.clone()), name: name.clone() },
        ),
        Check::StatefulsetReady { namespace, name } => Some(
            GateQuery { kind: GateKind::StatefulsetReady, namespace: Some(namespace.clone()), name: name.clone() },
        ),
        Check::CrdEstablished { name } => Some(
            GateQuery { kind: GateKind::CrdEstablished, namespace: None, name: name.clone() },
        ),
        Check::SecretExists { namespace, name } => Some(
            GateQuery { kind: GateKind::SecretReady, namespace: Some(namespace.clone()), name: name.clone() },
        ),
        Check::JobReady { namespace, name } => Some(
            GateQuery { kind: GateKind::JobReady, namespace: Some(namespace.clone()), name: name.clone() },
        ),
        Check::ServiceReady { namespace, name } => Some(
            GateQuery { kind: GateKind::ServiceReady, namespace: Some(namespace.clone()), name: name.clone() },
        ),
        Check::OidcValid => None,
    }
}

/// What the configuration says of single sign-on, for the OIDC gate.
#[derive(Debug, Clone, Copy, PartialEq, Eq, Structural)]
pub struct OidcSettings {
    /// OIDC is switched on.
    pub enabled: bool,
    /// The authentication settings pass their validation.
    pub valid: bool,
}

/// Whether one gate is met: a workload gate when the cluster reports it
/// ready; the OIDC gate when there is a configuration, OIDC is on and the
/// settings are valid.
pub open spec fn check_passes(c: Check, cluster_ready: bool, config: Option<OidcSettings>) -> bool {
    match c {
        Check::OidcValid => config matches Some(o) && o.enabled && o.valid,
        _ => cluster_ready,
    }
}

/// Whether every gate of a step is met.
pub open spec fn gates_met(checks: Seq<Check>, cluster_ready: Seq<bool>, config: Option<OidcSettings>) -> bool {
    forall|i: int| 0 <= i < checks.len() ==> check_passes(checks[i], cluster_ready[i], config)
}

/// Whether `step` is ready: every gate is met (a step without gates is).
/// `cluster_ready[i]` is the cluster cache's answer to the question
/// `gate_query` gives for the `i`-th gate (unused for the OIDC gate).
pub fn checks_ready(step: &Step, cluster_ready: &Vec<bool>, config: Option<OidcSettings>) -> (r: bool)
    requires
        cluster_ready@.len() == step.checks@.len(),
    ensures
        r == gates_met(step.checks@, cluster_ready@, config),
        r ==> forall|i: int|
            #![trigger step.checks@[i]]
            0 <= i < step.checks@.len() && step.checks@[i] is OidcValid ==> (config matches Some(o) && o.enabled
                && o.valid),
        r ==> forall|i: int|
            #![trigger step.checks@[i]]
            0 <= i < step.checks@.len() && !(step.checks@[i] is OidcValid) ==> cluster_ready@[i],
{
    proof { lemma_gates_met(step.checks@, cluster_ready@, config); }
    if step.checks.len() == 0 {
        return true;
    }
    let mut i: usize = 0;
    while i < step.checks.len()
        invariant
            0 <= i <= step.checks.len(),
            cluster_ready@.len() == step.checks@.len(),
            forall|k: int|
                0 <= k < i ==> check_passes(step.checks@[k], cluster_ready@[k], config),
        decreases step.checks.len() - i,
    {
        let ok = match &step.checks[i] {
            Check::OidcValid => match config {
                Some(o) => o.enabled && o.valid,
                None => false,
            },
            _ => cluster_ready[i],
        };
        if !ok {
            return false;
        }
        i = i + 1;
    }
    true
}

/// Readiness of the steps of an assembly: for each step id, whether the
/// step is ready. Without an assembly the table is empty; without a cluster
/// cache only steps without gates count as ready. A later step of the same
/// id replaces an earlier one.
pub open spec fn readiness_table(
    steps: Seq<Step>,
    cluster: Option<Seq<Seq<bool>>>,
    config: Option<OidcSettings>,
) -> Seq<(Seq<char>, bool)>
    decreases steps.len(),
{
    if steps.len() == 0 {
        Seq::empty()
    } else {
        let s = steps.last();
        let ready = match cluster {
            Some(c) => gates_met(s.checks@, c[steps.len() - 1], config),
            None => s.checks@.len() == 0,
        };
        upsert(readiness_table(steps.drop_last(), cluster, config), s.id@, ready)
    }
}

/// The abstract content of a readiness table.
pub open spec fn readiness_view(v: Seq<(String, bool)>) -> Seq<(Seq<char>, bool)> {
    v.map_values(|e: (String, bool)| (e.0@, e.1))
}

fn find_step(table: &Vec<(String, bool)>, id: &String) -> (r: Option<usize>)
    ensures
        match r {
            Some(k) => k < table@.len() && entry_position(readiness_view(table@), id@) == Some(
                k as int,
            ),
            None => entry_position(readiness_view(table@), id@) is None,
        },
{
    let ghost s = readiness_view(table@);
    let mut i: usize = 0;
    while i < table.len()
        invariant
            0 <= i <= table.len(),
            s == readiness_view(table@),
            forall|k: int| 0 <= k < i ==> s[k].0 != id@,
        decreases table.len() - i,
    {
        if table[i].0.as_str().to_owned() == id.as_str().to_owned() {
            proof {
                crate::health::lemma_entry_position_of(s, id@, i as int);
            }
            return Some(i);
        }
        i = i + 1;
    }
    proof {
        crate::health::lemma_entry_position_spec(s, id@);
        if let Some(j) = entry_position(s, id@) {
            assert(s[j].0 != id@);
        }
    }
    None
}

/// The per-step readiness of an assembly. `cluster`, when the cluster
/// cache is available, holds for each step what the cache reports for the
/// workloads of its gates, in gate order.
pub fn step_readiness(
    steps: Option<&Vec<Step>>,
    cluster: Option<&Vec<Vec<bool>>>,
    config: Option<OidcSettings>,
) -> (table: Vec<(String, bool)>)
    requires
        steps matches Some(st) ==> (cluster matches Some(c) ==> c@.len() == st@.len() && forall|
            i: int,
        | 0 <= i < st@.len() ==> #[trigger] c@[i]@.len() == st@[i].checks@.len()),
    ensures
        match steps {
            None => table@.len() == 0,
            Some(st) => readiness_view(table@) == readiness_table(
                st@,
                match cluster {
                    Some(c) => Some(c@.map_values(|v: Vec<bool>| v@)),
                    None => None,
                },
                config,
            ),
        },
{
    let mut table: Vec<(String, bool)> = Vec::new();
    match steps {
        None => table,
        Some(st) => {
            let ghost cl = match cluster {
                Some(c) => Some(c@.map_values(|v: Vec<bool>| v@)),
                None => None,
            };
            let mut i: usize = 0;
            proof {
                assert(readiness_view(table@) =~= readiness_table(st@.take(0), cl, config));
            }
            while i < st.len()
                invariant
                    0 <= i <= st.len(),
                    cl == (match cluster {
                        Some(c) => Some(c@.map_values(|v: Vec<bool>| v@)),
                        None => None,
                    }),
                    cluster matches Some(c) ==> c@.len() == st@.len() && forall|j: int|
                        0 <= j < st@.len() ==> #[trigger] c@[j]@.len() == st@[j].checks@.len(),
                    readiness_view(table@) == readiness_table(st@.take(i as int), cl, config),
                decreases st.len() - i,
            {
                let step = &st[i];
                let ready = match cluster {
                    Some(c) => checks_ready(step, &c[i], config),
                    None => step.checks.len() == 0,
                };
                proof {
                    let t = st@.take(i + 1);
                    assert(t.drop_last() =~= st@.take(i as int));
                    assert(t.last() == st@[i as int]);
                    if let Some(c) = cluster {
                        assert(cl == Some(c@.map_values(|v: Vec<bool>| v@)));
                        assert(cl.unwrap()[t.len() - 1] == c@[i as int]@);
                    }
                }
                let id = step.id.clone();
                let ghost before = readiness_view(table@);
                match find_step(&table, &id) {
                    Some(k) => {
                        table.set(k, (id, ready));
                        proof {
                            assert(readiness_view(table@) =~= before.update(k as int, (id@, ready)));
                        }
                    },
                    None => {
                        table.push((id, ready));
                        proof {
                            assert(readiness_view(table@) =~= before.push((id@, ready)));
                        }
                    },
                }
                i = i + 1;
            }
            proof {
                assert(st@.take(st@.len() as int) =~= st@);
            }
            table
        },
    }
}

/// A step as the operator UI shows it.
#[derive(Debug, Clone)]
pub struct AssemblyStepDef {
    pub id: String,
    pub kind: String,
    pub depends_on: Vec<String>,
    pub provides: Vec<String>,
    /// Domain of the step's module, `unknown` when the module is not registered.
    pub domain: String,
    pub pod: Option<String>,
    /// The step has readiness gates.
    pub has_gates: bool,
}

/// The assembly as the operator UI shows it.
#[derive(Debug, Clone)]
pub struct Assembly {
    pub steps: Vec<AssemblyStepDef>,
}

/// The domain and namespace the module table gives for `id`, or `unknown`
/// and no namespace when it has no entry for it.
pub open spec fn module_of(
    table: Seq<(Seq<char>, (Seq<char>, Option<Seq<char>>))>,
    id: Seq<char>,
) -> (Seq<char>, Option<Seq<char>>) {
    match entry_position(table, id) {
        Some(i) => table[i].1,
        None => ("unknown"@, None),
    }
}

/// `d` shows `step` given the module table.
pub open spec fn shows_step(
    d: AssemblyStepDef,
    step: Step,
    table: Seq<(Seq<char>, (Seq<char>, Option<Seq<char>>))>,
) -> bool {
    let (domain, namespace) = module_of(table, step.id@);
    &&& d.id@ == step.id@
    &&& d.kind@ == step.kind@
    &&& views(d.depends_on@) == views(step.required@)
    &&& views(d.provides@) == views(step.provides@)
    &&& d.domain@ == domain
    &&& opt_view(d.pod) == pod_value(step, namespace)
    &&& d.has_gates == (step.checks@.len() > 0)
}

fn copy_strings(v: &Vec<String>) -> (r: Vec<String>)
    ensures
        views(r@) == views(v@),
{
    let r = v.clone();
    proof {
        assert forall|i: int| 0 <= i < v@.len() implies r@[i] == v@[i] by {
            assert(cloned::<String>(v[i], r[i]));
        }
        assert(views(r@) =~= views(v@));
    }
    r
}

/// The UI view of the assembly `steps`, given the module table `specs`
/// (as `module_specs` builds it).
pub fn map_assembly(steps: &Vec<Step>, specs: &Vec<(String, (String, Option<String>))>) -> (a: Assembly)
    ensures
        a.steps@.len() == steps@.len(),
        forall|i: int|
            0 <= i < steps@.len() ==> shows_step(
                #[trigger] a.steps@[i],
                steps@[i],
                module_table_view(specs@),
            ),
{
    let mut out: Vec<AssemblyStepDef> = Vec::new();
    let mut i: usize = 0;
    while i < steps.len()
        invariant
            0 <= i <= steps.len(),
            out@.len() == i,
            forall|k: int|
                0 <= k < i ==> shows_step(#[trigger] out@[k], steps@[k], module_table_view(specs@)),
        decreases steps.len() - i,
    {
        let step = &steps[i];
        let (domain, namespace) = match find_module(specs, &step.id) {
            Some(k) => (specs[k].1.0.clone(), clone_opt(&specs[k].1.1)),
            None => {
                proof {
                    reveal_strlit("unknown");
                }
                ("unknown".to_owned(), None)
            },
        };
        let pod = match &namespace {
            Some(ns) => derive_pod_value(step, Some(ns.as_str())),
            None => derive_pod_value(step, None),
        };
        let d = AssemblyStepDef {
            id: step.id.clone(),
            kind: step.kind.clone(),
            depends_on: copy_strings(&step.required),
            provides: copy_strings(&step.provides),
            domain,
            pod,
            has_gates: step.checks.len() > 0,
        };
        out.push(d);
        i = i + 1;
    }
    Assembly { steps: out }
}

/// `a` is the UI view of the assembly `steps` given the module table.
pub open spec fn shows_assembly(
    a: Assembly,
    steps: Seq<Step>,
    table: Seq<(Seq<char>, (Seq<char>, Option<Seq<char>>))>,
) -> bool {
    &&& a.steps@.len() == steps.len()
    &&& forall|i: int| 0 <= i < steps.len() ==> shows_step(#[trigger] a.steps@[i], steps[i], table)
}

/// The assembly as loaded for the operator UI: the built assembly and its
/// UI view, or the error that building it ran into.
pub struct BootstrappoAssemblyPort {
    assembly: Option<Assembly>,
    raw_assembly: Option<Vec<Step>>,
    assembly_error: Option<String>,
}

impl BootstrappoAssemblyPort {
    /// The built assembly, if building succeeded.
    pub closed spec fn raw(&self) -> Option<Seq<Step>> {
        match self.raw_assembly {
            Some(v) => Some(v@),
            None => None,
        }
    }

    /// The UI view of the assembly, if building succeeded.
    pub closed spec fn view_of_assembly(&self) -> Option<Assembly> {
        self.assembly
    }

    /// The error building the assembly ran into, if it failed.
    pub closed spec fn error(&self) -> Option<Seq<char>> {
        opt_view(self.assembly_error)
    }

    /// Loads the port from the outcome of building the assembly: the steps,
    /// or the text of the error; `specs` is the module table.
    pub fn load(built: Result<Vec<Step>, String>, specs: &Vec<(String, (String, Option<String>))>) -> (p: Self)
        ensures
            match built {
                Ok(steps) => p.raw() == Some(steps@) && p.error().is_none() && (p.view_of_assembly() matches Some(a)
                    && shows_assembly(a, steps@, module_table_view(specs@))),
                Err(e) => p.raw().is_none() && p.view_of_assembly().is_none() && p.error() == Some(e@),
            },
    {
        match built {
            Ok(steps) => {
                let assembly = map_assembly(&steps, specs);
                BootstrappoAssemblyPort {
                    assembly: Some(assembly),
                    raw_assembly: Some(steps),
                    assembly_error: None,
                }
            },
            Err(e) => BootstrappoAssemblyPort { assembly: None, raw_assembly: None, assembly_error: Some(e) },
        }
    }

    /// The UI view of the assembly.
    pub fn assembly(&self) -> (a: Option<&Assembly>)
        ensures
            match a {
                Some(x) => self.view_of_assembly() == Some(*x),
                None => self.view_of_assembly().is_none(),
            },
    {
        self.assembly.as_ref()
    }

    /// The error building the assembly ran into.
    pub fn assembly_error(&self) -> (e: Option<String>)
        ensures
            opt_view(e) == self.error(),
    {
        clone_opt(&self.assembly_error)
    }

    /// The built assembly.
    pub fn bootstrappo_assembly(&self) -> (s: Option<&Vec<Step>>)
        ensures
            match s {
                Some(v) => self.raw() == Some(v@),
                None => self.raw().is_none(),
            },
    {
        self.raw_assembly.as_ref()
    }
}

/// When a step's gates are met: every OIDC gate needs a configuration with
/// OIDC switched on and valid settings (without a configuration, or with
/// OIDC off or invalid, it is never met), and every workload gate needs the
/// cluster to report it ready. A step with both is met only when all hold.
pub proof fn lemma_gates_met(checks: Seq<Check>, cluster_ready: Seq<bool>, config: Option<OidcSettings>)
    ensures
        gates_met(checks, cluster_ready, config) <==> forall|i: int|
            #![trigger checks[i]]
            0 <= i < checks.len() ==> (checks[i] is OidcValid ==> (config matches Some(o) && o.enabled && o.valid))
                && (!(checks[i] is OidcValid) ==> cluster_ready[i]),
        (exists|i: int| 0 <= i < checks.len() && #[trigger] checks[i] is OidcValid) && (config matches Some(o)
            ==> !o.enabled || !o.valid) ==> !gates_met(checks, cluster_ready, config),
{
    if gates_met(checks, cluster_ready, config) {
        assert forall|i: int| #![trigger checks[i]] 0 <= i < checks.len() implies (checks[i] is OidcValid ==> (
        config matches Some(o) && o.enabled && o.valid)) && (!(checks[i] is OidcValid) ==> cluster_ready[i]) by {
            assert(check_passes(checks[i], cluster_ready[i], config));
        }
    }
    if forall|i: int|
        #![trigger checks[i]]
        0 <= i < checks.len() ==> (checks[i] is OidcValid ==> (config matches Some(o) && o.enabled && o.valid))
            && (!(checks[i] is OidcValid) ==> cluster_ready[i]) {
        assert forall|i: int| 0 <= i < checks.len() implies check_passes(checks[i], cluster_ready[i], config) by {
            assert(checks[i] is OidcValid ==> (config matches Some(o) && o.enabled && o.valid));
        }
    }
}

} // verus!
