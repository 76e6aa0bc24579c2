//! Summary of the bootstrap configuration shown by the operator UI.

use vstd::prelude::*;

verus! {

/// One MetalLB address pool.
#[derive(Debug, Clone)]
pub struct MetallbPoolSummary {
    pub name: String,
    pub ip_range: String,
}

/// What the UI shows of the bootstrap configuration.
#[derive(Debug, Clone)]
pub struct BootstrappoConfigSummary {
    pub host_domain: String,
    pub metallb_pools: Vec<MetallbPoolSummary>,
    pub load_error: Option<String>,
}

/// The summary of a configuration load: the host domain and pools of a
/// loaded configuration, or, when loading failed, the host domain
/// `unknown`, no pools and the error text.
pub fn load_config_summary(
    loaded: Result<(String, Vec<MetallbPoolSummary>), String>,
) -> (s: BootstrappoConfigSummary)
    ensures
        match loaded {
            Ok((host, pools)) => s.host_domain@ == host@ && s.metallb_pools@ == pools@
                && s.load_error.is_none(),
            Err(e) => s.host_domain@ == "unknown"@ && s.metallb_pools@.len() == 0
                && s.load_error == Some(e),
        },
{
    match loaded {
        Ok((host_domain, metallb_pools)) => BootstrappoConfigSummary {
            host_domain,
            metallb_pools,
            load_error: None,
        },
        Err(err) => {
            let host_domain = "unknown".to_owned();
            proof {
                reveal_strlit("unknown");
            }
            BootstrappoConfigSummary {
            host_domain,
            metallb_pools: Vec::new(),
            load_error: Some(err),
            }
        },
    }
}

} // verus!
