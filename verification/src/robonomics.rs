//! Robonomics chain services.

use crate::role::Configuration;
use crate::service::{full_outcome, light_outcome, ChainFamily, Collaborators, ServiceError, ServicePlan};
use vstd::prelude::*;

verus! {

/// Plans a Robonomics service for a full node.
pub fn new_full(config: Configuration, available: Collaborators) -> (r: Result<ServicePlan, ServiceError>)
    ensures
        full_outcome(config, available, ChainFamily::Robonomics, r),
{
    crate::service::new_full(config, available, ChainFamily::Robonomics)
}

/// Plans a Robonomics service for a light client.
pub fn new_light(config: Configuration, available: Collaborators) -> (r: Result<ServicePlan, ServiceError>)
    ensures
        light_outcome(available, ChainFamily::Robonomics, r),
{
    crate::service::new_light(config, available, ChainFamily::Robonomics)
}

} // verus!
