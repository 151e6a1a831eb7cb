//! The versioned configuration protocol: commands, responses, and their
//! dispatch.
//!
//! A `ProtocolManager` turns each parsed command into a plan. Commands that
//! need nothing persisted carry their response at once; `SetConfig` and
//! `ResetConfig` hand the caller the configuration to persist, and a second
//! step turns the persistence outcome into the response and commits the
//! in-memory state — so a failed save never changes what the device serves.
//! Every response echoes the request's correlation id unchanged.

use vstd::prelude::*;
use crate::config::{
    default_device_config, is_default_config, spec_config_wf, spec_merged, spec_updated_flags,
    ConfigUpdatedFor, Configurator, DeviceConfig, DeviceConfigV, WifiSettings,
};
use crate::mapper::{mapping_view, MappingConfiguration};

verus! {

/// The protocol version this firmware speaks: major one, minor zero,
/// packed as major << 16 | minor.
pub const PROTOCOL_VERSION: u32 = 0x00010000;

/// The versioned envelope of every request and response; a correlation id,
/// when present on a request, is echoed unchanged on the response.
#[derive(Debug, Clone, Copy, PartialEq)]
pub struct ProtocolHeader {
    pub version: u32,
    pub correlation_id: Option<u64>,
}

#[derive(Debug, PartialEq)]
pub struct GetConfigCommand {
    pub header: ProtocolHeader,
}

#[derive(Debug, PartialEq)]
pub struct SetConfigCommand {
    pub header: ProtocolHeader,
    pub config: DeviceConfig,
}

#[derive(Debug, PartialEq)]
pub struct ResetConfigCommand {
    pub header: ProtocolHeader,
}

#[derive(Debug, PartialEq)]
pub struct RebootCommand {
    pub header: ProtocolHeader,
}

/// A request from the host.
#[derive(Debug, PartialEq)]
pub enum Command {
    GetConfig(GetConfigCommand),
    SetConfig(SetConfigCommand),
    ResetConfig(ResetConfigCommand),
    Reboot(RebootCommand),
}

/// The mathematical value of a `Command`.
pub enum CommandV {
    GetConfig { header: ProtocolHeader },
    SetConfig { header: ProtocolHeader, config: DeviceConfigV },
    ResetConfig { header: ProtocolHeader },
    Reboot { header: ProtocolHeader },
}

impl View for Command {
    type V = CommandV;

    open spec fn view(&self) -> CommandV {
        match self {
            Command::GetConfig(c) => CommandV::GetConfig { header: c.header },
            Command::SetConfig(c) => CommandV::SetConfig { header: c.header, config: c.config@ },
            Command::ResetConfig(c) => CommandV::ResetConfig { header: c.header },
            Command::Reboot(c) => CommandV::Reboot { header: c.header },
        }
    }
}

#[derive(Debug, PartialEq)]
pub struct GetConfigResponse {
    pub header: ProtocolHeader,
    pub config: DeviceConfig,
}

#[derive(Debug, PartialEq)]
pub struct ErrorResponse {
    pub header: ProtocolHeader,
    pub message: String,
    pub error_code: u32,
}

#[derive(Debug, PartialEq)]
pub struct AckResponse {
    pub header: ProtocolHeader,
    pub message: String,
    pub success: bool,
}

/// A reply to the host.
#[derive(Debug, PartialEq)]
pub enum Response {
    Config(GetConfigResponse),
    Error(ErrorResponse),
    Ack(AckResponse),
}

/// The mathematical value of a `Response`.
pub enum ResponseV {
    Config { header: ProtocolHeader, config: DeviceConfigV },
    Error { header: ProtocolHeader, message: Seq<char>, error_code: u32 },
    Ack { header: ProtocolHeader, message: Seq<char>, success: bool },
}

impl View for Response {
    type V = ResponseV;

    open spec fn view(&self) -> ResponseV {
        match self {
            Response::Config(r) => ResponseV::Config { header: r.header, config: r.config@ },
            Response::Error(r) => ResponseV::Error {
                header: r.header,
                message: r.message@,
                error_code: r.error_code,
            },
            Response::Ack(r) => ResponseV::Ack {
                header: r.header,
                message: r.message@,
                success: r.success,
            },
        }
    }
}

/// The response header for a request: this firmware's version, the
/// request's correlation id echoed.
pub open spec fn spec_response_header(request: ProtocolHeader) -> ProtocolHeader {
    ProtocolHeader { version: PROTOCOL_VERSION, correlation_id: request.correlation_id }
}

/// What a command asks for: a response that can go out at once, a merged or
/// default configuration to persist first, or a response followed by a
/// restart.
pub enum CommandPlan {
    /// The response to send; nothing else to do.
    Respond(Response),
    /// Persist `merged`, then finish the save with the outcome.
    PersistSet { merged: DeviceConfig, updated: ConfigUpdatedFor, header: ProtocolHeader },
    /// Persist the default configuration, then finish the reset with the
    /// outcome.
    PersistReset { merged: DeviceConfig, header: ProtocolHeader },
    /// Send the response, then restart the device; nothing runs after.
    RebootAfter(Response),
}

/// Dispatches parsed commands against the owned configuration.
pub struct ProtocolManager {
    config: Configurator,
}

impl View for ProtocolManager {
    type V = DeviceConfigV;

    closed spec fn view(&self) -> DeviceConfigV {
        self.config@
    }
}

impl ProtocolManager {
    pub fn new(config: Configurator) -> (r: Self)
        ensures
            r@ == config@,
    {
        ProtocolManager { config }
    }

    /// What to do for `cmd`: `GetConfig` is answered from the current
    /// configuration at once; `SetConfig` yields the merged configuration
    /// to persist; `ResetConfig` yields the default configuration to
    /// persist; `Reboot` yields its acknowledgement, to send before the
    /// restart. Every planned header echoes the request's correlation id.
    pub fn plan_command(&self, cmd: &Command) -> (p: CommandPlan)
        requires
            cmd@ matches CommandV::SetConfig { config, .. } ==> spec_config_wf(config),
        ensures
            match cmd@ {
                CommandV::GetConfig { header } => p matches CommandPlan::Respond(resp)
                    && resp@ == (ResponseV::Config {
                        header: spec_response_header(header),
                        config: self@,
                    }),
                CommandV::SetConfig { header, config } => p matches CommandPlan::PersistSet { merged, updated, header: h }
                    && spec_merged(self@, config, merged@)
                    && updated == spec_updated_flags(config)
                    && h == spec_response_header(header),
                CommandV::ResetConfig { header } => p matches CommandPlan::PersistReset { merged, header: h }
                    && is_default_config(merged@)
                    && h == spec_response_header(header),
                CommandV::Reboot { header } => p matches CommandPlan::RebootAfter(resp)
                    && resp@ == (ResponseV::Ack {
                        header: spec_response_header(header),
                        message: "Device will reboot"@,
                        success: true,
                    }),
            },
    {
        match cmd {
            Command::GetConfig(c) => {
                let header = response_header(&c.header);
                CommandPlan::Respond(Response::Config(GetConfigResponse {
                    header,
                    config: self.config.get_config(),
                }))
            },
            Command::SetConfig(c) => {
                let header = response_header(&c.header);
                let (merged, updated) = self.config.plan_save(&c.config);
                CommandPlan::PersistSet { merged, updated, header }
            },
            Command::ResetConfig(c) => {
                let header = response_header(&c.header);
                CommandPlan::PersistReset { merged: default_device_config(), header }
            },
            Command::Reboot(c) => {
                let header = response_header(&c.header);
                CommandPlan::RebootAfter(Response::Ack(AckResponse {
                    header,
                    message: String::from_str("Device will reboot"),
                    success: true,
                }))
            },
        }
    }

    /// Finishes a `SetConfig` after the caller tried to persist `merged`.
    /// On success the merged configuration becomes current, the reply is an
    /// acknowledgement, the new mapping table goes out to the actor, and
    /// the new wireless settings go out when the save touched them. On
    /// failure nothing changes and the reply is the error, code one.
    pub fn finish_set_config(
        &mut self,
        merged: DeviceConfig,
        updated: ConfigUpdatedFor,
        header: ProtocolHeader,
        persisted: bool,
        error_message: String,
    ) -> (r: (Response, Option<MappingConfiguration>, Option<Option<WifiSettings>>))
        ensures
            persisted ==> {
                &&& final(self)@ == merged@
                &&& r.0@ == (ResponseV::Ack {
                    header,
                    message: "Config set successfully"@,
                    success: true,
                })
                &&& r.1 matches Some(mc) && mapping_view(mc@) == merged@.mappings
                &&& (updated.wifi ==> (r.2 matches Some(w) && (match w {
                    Some(x) => Some(x@),
                    None => None,
                }) == merged@.settings.wifi))
                &&& (!updated.wifi ==> r.2 is None)
            },
            !persisted ==> {
                &&& final(self)@ == old(self)@
                &&& r.0@ == (ResponseV::Error { header, message: error_message@, error_code: 1 })
                &&& r.1 is None
                &&& r.2 is None
            },
    {
        if persisted {
            let mapping_update = crate::config::clone_mappings(&merged.mappings);
            let wifi_signal = if updated.wifi {
                Some(match &merged.settings.wifi {
                    Some(w) => Some(w.clone()),
                    None => None,
                })
            } else {
                None
            };
            self.config.commit(merged);
            (
                Response::Ack(AckResponse {
                    header,
                    message: String::from_str("Config set successfully"),
                    success: true,
                }),
                Some(mapping_update),
                wifi_signal,
            )
        } else {
            (
                Response::Error(ErrorResponse { header, message: error_message, error_code: 1 }),
                None,
                None,
            )
        }
    }

    /// Finishes a `ResetConfig` after the caller tried to persist the
    /// default configuration. On success it becomes current and the reply
    /// acknowledges; on failure nothing changes and the reply carries the
    /// error with the success flag cleared.
    pub fn finish_reset_config(
        &mut self,
        merged: DeviceConfig,
        header: ProtocolHeader,
        persisted: bool,
        error_message: String,
    ) -> (r: Response)
        ensures
            persisted ==> final(self)@ == merged@ && r@ == (ResponseV::Ack {
                header,
                message: "Config reset successfully"@,
                success: true,
            }),
            !persisted ==> final(self)@ == old(self)@ && r@ == (ResponseV::Ack {
                header,
                message: error_message@,
                success: false,
            }),
    {
        if persisted {
            self.config.commit(merged);
            Response::Ack(AckResponse {
                header,
                message: String::from_str("Config reset successfully"),
                success: true,
            })
        } else {
            Response::Ack(AckResponse { header, message: error_message, success: false })
        }
    }
}

/// The header every response carries: this firmware's protocol version and
/// the request's correlation id, echoed unchanged.
pub fn response_header(request: &ProtocolHeader) -> (r: ProtocolHeader)
    ensures
        r == spec_response_header(*request),
{
    ProtocolHeader { version: PROTOCOL_VERSION, correlation_id: request.correlation_id }
}

} // verus!
