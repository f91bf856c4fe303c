//! Startup configuration of the worker: master address and optional
//! grader-compile cache backend.

use vstd::prelude::*;

verus! {

/// Master host settings: socket address and plaintext password.
pub struct Host {
    pub master: String,
    pub master_pass: String,
}

impl Host {
    /// A host section is always well formed; nothing is checked beyond its shape.
    pub open spec fn wf(&self) -> bool {
        true
    }

    pub fn validate(&self)
        requires
            self.wf(),
    {
    }
}

/// Cache backend settings. When the cache is enabled an address must be given.
pub struct Redis {
    pub enabled: bool,
    pub redis: Option<String>,
}

impl Redis {
    /// An enabled cache section must carry an address.
    pub open spec fn wf(&self) -> bool {
        self.enabled ==> self.redis is Some
    }

    pub fn validate(&self)
        requires
            self.wf(),
    {
        if self.enabled {
            if self.redis.is_none() {
                proof {
                    assert(false);
                }
            }
        }
    }
}

/// Whole worker configuration as loaded at startup.
pub struct Config {
    pub host: Host,
    pub redis: Redis,
}

impl Config {
    /// A configuration is well formed when each of its sections is.
    pub open spec fn wf(&self) -> bool {
        self.host.wf() && self.redis.wf()
    }

    pub fn validate(&self)
        requires
            self.wf(),
    {
        self.host.validate();
        self.redis.validate();
    }
}

} // verus!
