//! IPCI chain services.

use crate::role::Configuration;
use crate::service::{full_outcome, light_outcome, ChainFamily, Collaborators, ServiceError, ServicePlan};
use vstd::prelude::*;

verus! {

/// Plans an IPCI service for a full node.
pub fn new_full(config: Configuration, available: Collaborators) -> (r: Result<ServicePlan, ServiceError>)
    ensures
        full_outcome(config, available, ChainFamily::Ipci, r),
{
    crate::service::new_full(config, available, ChainFamily::Ipci)
}

/// Plans an IPCI service for a light client.
pub fn new_light(config: Configuration, available: Collaborators) -> (r: Result<ServicePlan, ServiceError>)
    ensures
        light_outcome(available, ChainFamily::Ipci, r),
{
    crate::service::new_light(config, available, ChainFamily::Ipci)
}

} // verus!
