//! The messages by which a supervisor hands a configuration to an actor.

use crate::message::LocalTypeId;
use crate::message::Message;
use vstd::prelude::*;
use vstd::std_specs::convert::FromSpecImpl;

verus! {

/// A configuration as it was read, before any actor has looked into it.
pub struct AnyConfig {
    raw: String,
}

impl View for AnyConfig {
    type V = Seq<char>;

    closed spec fn view(&self) -> Seq<char> {
        self.raw@
    }
}

impl AnyConfig {
    pub fn new(raw: String) -> (config: AnyConfig)
        ensures
            config@ == raw@,
    {
        AnyConfig { raw }
    }

    pub fn raw(&self) -> (raw: &String)
        ensures
            raw@ == self@,
    {
        &self.raw
    }
}

/// Asks an actor whether it accepts the configuration. Answered with nothing,
/// or with `ConfigRejected`.
#[non_exhaustive]
pub struct ValidateConfig {
    pub config: AnyConfig,
}

impl ValidateConfig {
    pub fn new(config: AnyConfig) -> (message: ValidateConfig)
        ensures
            message.config == config,
    {
        ValidateConfig { config }
    }
}

/// Tells an actor to take the configuration. Answered with `ConfigUpdated`, or
/// with `ConfigRejected`.
#[non_exhaustive]
pub struct UpdateConfig {
    pub config: AnyConfig,
}

impl UpdateConfig {
    pub fn new(config: AnyConfig) -> (message: UpdateConfig)
        ensures
            message.config == config,
    {
        UpdateConfig { config }
    }
}

/// The actor does not accept the configuration, for the reason given.
#[non_exhaustive]
pub struct ConfigRejected {
    pub reason: String,
}

impl From<String> for ConfigRejected {
    fn from(reason: String) -> (rejected: ConfigRejected) {
        ConfigRejected { reason }
    }
}

impl FromSpecImpl<String> for ConfigRejected {
    open spec fn obeys_from_spec() -> bool {
        true
    }

    open spec fn from_spec(reason: String) -> ConfigRejected {
        ConfigRejected { reason }
    }
}

/// The actor has taken the configuration.
#[non_exhaustive]
pub struct ConfigUpdated {}

impl ConfigUpdated {
    pub fn new() -> (message: ConfigUpdated) {
        ConfigUpdated {  }
    }
}

impl Message for ValidateConfig {
    const _LTID: LocalTypeId = 1;
}

impl Message for UpdateConfig {
    const _LTID: LocalTypeId = 2;
}

impl Message for ConfigRejected {
    const _LTID: LocalTypeId = 3;
}

impl Message for ConfigUpdated {
    const _LTID: LocalTypeId = 4;
}

} // verus!
