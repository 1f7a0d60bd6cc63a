//! A runtime that does nothing and answers every health check alike.
use vstd::prelude::*;
use crate::models::HealthCheckStatus;
use crate::text::{copy_opt, opt_str};

verus! {

/// A runtime that answers every health check alike.
#[derive(Debug)]
pub struct MockRuntime {
    pub health_check_result: (HealthCheckStatus, Option<String>),
}

impl MockRuntime {
    /// A runtime whose health checks succeed.
    pub fn healthy() -> (r: Self)
        ensures
            r.health_check_result == (HealthCheckStatus::Success, None::<String>),
    {
        MockRuntime { health_check_result: (HealthCheckStatus::Success, None) }
    }

    /// A runtime whose health checks fail with this message.
    pub fn unhealthy(message: &str) -> (r: Self)
        ensures
            r.health_check_result.0 == HealthCheckStatus::Failed,
            opt_str(r.health_check_result.1) == Some(message@),
    {
        MockRuntime { health_check_result: (HealthCheckStatus::Failed, Some(message.to_owned())) }
    }

    /// The result of a health check, whichever it is.
    pub fn execute_health_check(&self) -> (r: (HealthCheckStatus, Option<String>))
        ensures
            r.0 == self.health_check_result.0,
            opt_str(r.1) == opt_str(self.health_check_result.1),
    {
        (self.health_check_result.0, copy_opt(&self.health_check_result.1))
    }
}

/// A runtime answers as it was made to: one that is healthy with success and
/// nothing to say, one that is not with failure and its message.
pub proof fn law_answer_is_the_one_it_was_made_with(
    message: &str,
    healthy: MockRuntime,
    sick: MockRuntime,
    good: (HealthCheckStatus, Option<String>),
    bad: (HealthCheckStatus, Option<String>),
)
    requires
        call_ensures(MockRuntime::healthy, (), healthy),
        call_ensures(MockRuntime::unhealthy, (message,), sick),
        call_ensures(MockRuntime::execute_health_check, (&healthy,), good),
        call_ensures(MockRuntime::execute_health_check, (&sick,), bad),
    ensures
        good.0 == HealthCheckStatus::Success && good.1 is None,
        bad.0 == HealthCheckStatus::Failed,
        bad.1 matches Some(m) && m@ == message@,
{
    assert(opt_str(good.1) is None);
    assert(opt_str(bad.1) == Some(message@));
}

} // verus!
