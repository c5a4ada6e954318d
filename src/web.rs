//! Outside web endpoints: what one probe records, and how its outcome is rated.
use crate::models::{opt_view, WebService};
use vstd::prelude::*;

verus! {

/// A named endpoint to probe.
#[derive(Debug, Clone)]
pub struct WebServiceConfig {
    pub name: String,
    pub url: String,
}

/// How an endpoint's probe is rated.
#[derive(Debug, Clone, Copy, PartialEq, Eq, Structural)]
pub enum Health {
    /// A status code from 200 to 299.
    Healthy,
    /// A status code from 300 to 399.
    Degraded,
    /// Any other status code, or a failed request.
    Critical,
    /// Neither a status code nor an error was recorded.
    Unknown,
}

pub open spec fn health_of(status: Option<u16>, failed: bool) -> Health {
    match status {
        Some(c) => if 200 <= c < 300 {
            Health::Healthy
        } else if 300 <= c < 400 {
            Health::Degraded
        } else {
            Health::Critical
        },
        None => if failed {
            Health::Critical
        } else {
            Health::Unknown
        },
    }
}

impl WebService {
    /// The record of one probe of `config`, which took `elapsed_micros` and
    /// ended with a status code or with the request's error text. The
    /// response time is recorded either way.
    pub fn from_probe(
        config: &WebServiceConfig,
        elapsed_micros: u64,
        outcome: Result<u16, String>,
    ) -> (r: WebService)
        ensures
            r.name@ == config.name@,
            r.url@ == config.url@,
            r.response_time_micros == Some(elapsed_micros),
            match outcome {
                Ok(code) => r.http_status == Some(code) && r.error is None,
                Err(e) => r.http_status is None && opt_view(r.error) == Some(e@),
            },
    {
        match outcome {
            Ok(code) => WebService {
                name: config.name.clone(),
                url: config.url.clone(),
                http_status: Some(code),
                response_time_micros: Some(elapsed_micros),
                error: None,
            },
            Err(e) => WebService {
                name: config.name.clone(),
                url: config.url.clone(),
                http_status: None,
                response_time_micros: Some(elapsed_micros),
                error: Some(e),
            },
        }
    }

    /// The rating of this probe.
    pub fn health(&self) -> (r: Health)
        ensures
            r == health_of(self.http_status, self.error is Some),
    {
        match self.http_status {
            Some(c) => if 200 <= c && c < 300 {
                Health::Healthy
            } else if 300 <= c && c < 400 {
                Health::Degraded
            } else {
                Health::Critical
            },
            None => if self.error.is_some() {
                Health::Critical
            } else {
                Health::Unknown
            },
        }
    }
}

} // verus!
