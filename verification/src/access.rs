//! Access URLs of the services exposed through ingresses.

use vstd::prelude::*;

verus! {

/// Whether a service behind an ingress can be reached.
#[derive(Debug, Clone, Copy, PartialEq, Eq, Structural)]
pub enum AccessStatus {
    /// The load balancer has assigned an address.
    Ready,
    /// The load balancer has not assigned an address yet.
    Pending,
    /// The ingress reports no load balancer.
    Unknown,
}

/// One URL under which a service is exposed.
#[derive(Debug, Clone)]
pub struct AccessUrlInfo {
    pub service: String,
    pub url: String,
    pub status: AccessStatus,
}

/// What the URL discovery reads of an ingress.
#[derive(Debug, Clone)]
pub struct IngressInfo {
    /// The ingress name.
    pub name: Option<String>,
    /// The load balancer of the ingress status: `None` when the ingress has
    /// no status or its status no load balancer; otherwise the number of
    /// addresses it lists, `None` when it lists none at all.
    pub load_balancer: Option<Option<usize>>,
    /// The ingress has a spec.
    pub has_spec: bool,
    /// The host of each rule of the spec, `None` when the spec has no rules.
    pub rule_hosts: Option<Vec<Option<String>>>,
}

/// The status of the services behind an ingress with load balancer `lb`.
pub open spec fn access_status(lb: Option<Option<usize>>) -> AccessStatus {
    match lb {
        None => AccessStatus::Unknown,
        Some(Some(n)) => if n > 0 {
            AccessStatus::Ready
        } else {
            AccessStatus::Pending
        },
        Some(None) => AccessStatus::Pending,
    }
}

/// The URL of a host: `https://host`.
pub open spec fn host_url(host: Seq<char>) -> Seq<char> {
    "https://"@ + host
}

/// The entries for the rule hosts `hosts`: one per rule that names a host.
pub open spec fn host_entries(hosts: Seq<Option<String>>, service: Seq<char>, status: AccessStatus) -> Seq<
    (Seq<char>, Seq<char>, AccessStatus),
>
    decreases hosts.len(),
{
    if hosts.len() == 0 {
        Seq::empty()
    } else {
        let prev = host_entries(hosts.drop_last(), service, status);
        match hosts.last() {
            Some(h) => prev.push((service, host_url(h@), status)),
            None => prev,
        }
    }
}

/// The name of an ingress, empty when it has none.
pub open spec fn service_name(name: Option<String>) -> Seq<char> {
    match name {
        Some(n) => n@,
        None => Seq::empty(),
    }
}

/// The entries for one ingress: none without a spec or rules.
pub open spec fn ingress_entries(ing: IngressInfo) -> Seq<(Seq<char>, Seq<char>, AccessStatus)> {
    if !ing.has_spec {
        Seq::empty()
    } else {
        match ing.rule_hosts {
            None => Seq::empty(),
            Some(hosts) => host_entries(
                hosts@,
                service_name(ing.name),
                access_status(ing.load_balancer),
            ),
        }
    }
}

/// The entries for all ingresses, in order.
pub open spec fn url_entries(ings: Seq<IngressInfo>) -> Seq<(Seq<char>, Seq<char>, AccessStatus)>
    decreases ings.len(),
{
    if ings.len() == 0 {
        Seq::empty()
    } else {
        url_entries(ings.drop_last()) + ingress_entries(ings.last())
    }
}

/// The abstract content of a list of access URLs.
pub open spec fn urls_view(v: Seq<AccessUrlInfo>) -> Seq<(Seq<char>, Seq<char>, AccessStatus)> {
    v.map_values(|u: AccessUrlInfo| (u.service@, u.url@, u.status))
}

fn status_of(lb: Option<Option<usize>>) -> (s: AccessStatus)
    ensures
        s == access_status(lb),
{
    match lb {
        None => AccessStatus::Unknown,
        Some(Some(n)) => if n > 0 {
            AccessStatus::Ready
        } else {
            AccessStatus::Pending
        },
        Some(None) => AccessStatus::Pending,
    }
}

/// The access URLs of the ingresses: for every rule host of every ingress
/// with a spec, `https://host` under the ingress name, with the status of
/// the ingress load balancer.
pub fn access_urls_of(ingresses: &Vec<IngressInfo>) -> (urls: Vec<AccessUrlInfo>)
    ensures
        urls_view(urls@) == url_entries(ingresses@),
{
    let mut urls: Vec<AccessUrlInfo> = Vec::new();
    let mut i: usize = 0;
    proof {
        assert(urls_view(urls@) =~= url_entries(ingresses@.take(0)));
    }
    while i < ingresses.len()
        invariant
            0 <= i <= ingresses.len(),
            urls_view(urls@) == url_entries(ingresses@.take(i as int)),
        decreases ingresses.len() - i,
    {
        let ing = &ingresses[i];
        proof {
            assert(ingresses@.take(i + 1).drop_last() =~= ingresses@.take(i as int));
            assert(ingresses@.take(i + 1).last() == ingresses@[i as int]);
        }
        let ghost base = urls_view(urls@);
        if ing.has_spec {
            match &ing.rule_hosts {
                None => {
                    proof {
                        assert(urls_view(urls@) =~= base + ingress_entries(*ing));
                    }
                },
                Some(hosts) => {
                    let service = match &ing.name {
                        Some(n) => n.clone(),
                        None => String::new(),
                    };
                    let status = status_of(ing.load_balancer);
                    let mut j: usize = 0;
                    proof {
                        assert(urls_view(urls@) =~= base + host_entries(
                            hosts@.take(0),
                            service@,
                            status,
                        ));
                    }
                    while j < hosts.len()
                        invariant
                            0 <= j <= hosts.len(),
                            service@ == service_name(ing.name),
                            status == access_status(ing.load_balancer),
                            urls_view(urls@) == base + host_entries(
                                hosts@.take(j as int),
                                service@,
                                status,
                            ),
                        decreases hosts.len() - j,
                    {
                        proof {
                            assert(hosts@.take(j + 1).drop_last() =~= hosts@.take(j as int));
                            assert(hosts@.take(j + 1).last() == hosts@[j as int]);
                        }
                        match &hosts[j] {
                            Some(h) => {
                                let mut url = "https://".to_owned();
                                url.append(h.as_str());
                                let ghost before = urls@;
                                urls.push(
                                    AccessUrlInfo { service: service.clone(), url, status },
                                );
                                proof {
                                    assert(urls_view(urls@) =~= urls_view(before).push(
                                        (service@, host_url(h@), status),
                                    ));
                                }
                            },
                            None => {},
                        }
                        j = j + 1;
                    }
                    proof {
                        assert(hosts@.take(hosts.len() as int) =~= hosts@);
                    }
                },
            }
        } else {
            proof {
                assert(urls_view(urls@) =~= base + ingress_entries(*ing));
            }
        }
        i = i + 1;
    }
    proof {
        assert(ingresses@.take(ingresses.len() as int) =~= ingresses@);
    }
    urls
}

/// A service is ready once its load balancer lists an address, pending
/// while it lists none, and of unknown state without a load balancer.
pub proof fn lemma_access_status(lb: Option<Option<usize>>)
    ensures
        access_status(lb) == AccessStatus::Ready <==> (lb matches Some(Some(n)) && n > 0),
        access_status(lb) == AccessStatus::Unknown <==> lb is None,
        access_status(lb) == AccessStatus::Pending <==> (lb == Some(None::<usize>) || lb == Some(Some(0usize))),
{
}

/// The entries of an ingress's rules: one per rule that names a host, in
/// rule order, each for the ingress's service with the ingress's status and
/// the URL `https://` followed by that host.
pub proof fn lemma_host_entries(hosts: Seq<Option<String>>, service: Seq<char>, status: AccessStatus)
    ensures
        host_entries(hosts, service, status).len() <= hosts.len(),
        forall|i: int|
            #![trigger host_entries(hosts, service, status)[i]]
            0 <= i < host_entries(hosts, service, status).len() ==> host_entries(hosts, service, status)[i].0
                == service && host_entries(hosts, service, status)[i].2 == status && exists|j: int|
                0 <= j < hosts.len() && #[trigger] hosts[j] is Some && host_entries(hosts, service, status)[i].1
                    == "https://"@ + hosts[j]->Some_0@,
        forall|j: int|
            0 <= j < hosts.len() && #[trigger] hosts[j] is Some ==> host_entries(hosts, service, status).contains(
                (service, "https://"@ + hosts[j]->Some_0@, status),
            ),
    decreases hosts.len(),
{
    if hosts.len() > 0 {
        let prev_h = hosts.drop_last();
        lemma_host_entries(prev_h, service, status);
        let prev = host_entries(prev_h, service, status);
        let cur = host_entries(hosts, service, status);
        assert forall|i: int|
            #![trigger cur[i]]
            0 <= i < cur.len() implies cur[i].0 == service && cur[i].2 == status && exists|j: int|
                0 <= j < hosts.len() && #[trigger] hosts[j] is Some && cur[i].1 == "https://"@ + hosts[j]->Some_0@ by {
            if i < prev.len() {
                assert(cur[i] == prev[i]);
                let j = choose|j: int|
                    0 <= j < prev_h.len() && #[trigger] prev_h[j] is Some && prev[i].1 == "https://"@ + prev_h[j]->Some_0@;
                assert(hosts[j] == prev_h[j]);
            } else {
                assert(hosts[hosts.len() - 1] is Some);
            }
        }
        assert forall|j: int|
            0 <= j < hosts.len() && #[trigger] hosts[j] is Some implies cur.contains(
                (service, "https://"@ + hosts[j]->Some_0@, status),
            ) by {
            if j < prev_h.len() {
                assert(hosts[j] == prev_h[j]);
                assert(prev_h[j] is Some);
                let k = choose|k: int| 0 <= k < prev.len() && prev[k] == (service, "https://"@ + prev_h[j]->Some_0@, status);
                assert(cur[k] == prev[k]);
            } else {
                assert(cur[cur.len() - 1] == (service, "https://"@ + hosts[j]->Some_0@, status));
            }
        }
    }
}

} // verus!
