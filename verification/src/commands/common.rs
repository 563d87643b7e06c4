//! Checking the engine of a project.
use vstd::prelude::*;

use crate::engine::{default_state, engines_of, engines_readable, find_engine, DefaultState, EngineHandler, EngineInfo};
use crate::errors::EngineError;
use crate::types::version::{is_linux_system, ErrorModel, GodotVersion, SystemVersion};

verus! {

/// What checking the engine of a project came to.
#[derive(Debug)]
pub enum CheckEngineResponse {
    /// The engine is registered.
    Found(EngineInfo),
    /// The default engine is to be used instead.
    UseDefault(EngineInfo),
    /// The engine is to be downloaded.
    Download(GodotVersion),
    /// Nothing is to be run.
    Abort,
}

/// The next step of checking the engine of a project: a response, or a
/// question for the user.
#[derive(Debug)]
pub enum CheckEngineStep {
    /// The check is over.
    Respond(CheckEngineResponse),
    /// Ask whether to download the engine.
    AskDownload,
    /// Ask whether to use the default engine, of this version, instead.
    AskUseDefault(GodotVersion),
}

/// Checks the engine of a project, given the answers so far: when it is not
/// registered, the user is asked whether to download it, and then, when a
/// default engine is named, whether to use it instead.
pub fn check_engine_version(
    handler: &EngineHandler,
    version: &GodotVersion,
    download: Option<bool>,
    use_default: Option<bool>,
) -> (res: Result<CheckEngineStep, EngineError>)
    requires
        engines_readable(handler.model(), handler.host()),
    ensures
        match find_engine(engines_of(handler.model(), handler.host()), version@) {
            Some(e) => res matches Ok(CheckEngineStep::Respond(CheckEngineResponse::Found(x))) && x@ == e,
            None => match download {
                None => res matches Ok(CheckEngineStep::AskDownload),
                Some(true) => res matches Ok(CheckEngineStep::Respond(CheckEngineResponse::Download(v))) && v@
                    == version@,
                Some(false) => match default_state(handler.model(), handler.host()) {
                    DefaultState::Unset => res matches Ok(CheckEngineStep::Respond(CheckEngineResponse::Abort)),
                    DefaultState::Registered(d) => match use_default {
                        None => res matches Ok(CheckEngineStep::AskUseDefault(x)) && x@ == d,
                        Some(true) => res matches Ok(CheckEngineStep::Respond(CheckEngineResponse::UseDefault(x)))
                            && find_engine(engines_of(handler.model(), handler.host()), d) == Some(x@),
                        Some(false) => res matches Ok(CheckEngineStep::Respond(CheckEngineResponse::Abort)),
                    },
                    DefaultState::Unreadable(s) => res matches Err(EngineError::VersionError(e)) && e@
                        == ErrorModel::WrongVersion(s),
                    DefaultState::Unregistered(d) => res matches Err(EngineError::EngineNotFound(x)) && x@ == d,
                },
            },
        },
{
    match handler.get_version(version) {
        Ok(v) => {
            return Ok(CheckEngineStep::Respond(CheckEngineResponse::Found(v)));
        },
        Err(_) => {},
    }
    match download {
        None => {
            return Ok(CheckEngineStep::AskDownload);
        },
        Some(true) => {
            return Ok(CheckEngineStep::Respond(CheckEngineResponse::Download(version.clone())));
        },
        Some(false) => {},
    }
    match handler.get_default() {
        Err(e) => Err(e),
        Ok(None) => Ok(CheckEngineStep::Respond(CheckEngineResponse::Abort)),
        Ok(Some(d)) => match use_default {
            None => Ok(CheckEngineStep::AskUseDefault(d)),
            Some(false) => Ok(CheckEngineStep::Respond(CheckEngineResponse::Abort)),
            Some(true) => match handler.get_version(&d) {
                Ok(e) => Ok(CheckEngineStep::Respond(CheckEngineResponse::UseDefault(e))),
                Err(e) => Err(e),
            },
        },
    }
}

/// Why the arguments of an engine version are refused.
#[derive(Debug, PartialEq, Eq, Structural)]
pub enum VersionArgsError {
    /// A headless version was asked for on a system that is not Linux.
    HeadlessNotLinux,
    /// A server version was asked for on a system that is not Linux.
    ServerNotLinux,
}

/// The version and system an engine command is about: headless and server
/// versions exist for Linux only.
pub fn parse_godot_version_args(
    version: &GodotVersion,
    headless: bool,
    server: bool,
    system: SystemVersion,
) -> (res: Result<(GodotVersion, SystemVersion), VersionArgsError>)
    ensures
        !is_linux_system(system) && headless ==> res == Err::<(GodotVersion, SystemVersion), VersionArgsError>(
            VersionArgsError::HeadlessNotLinux,
        ),
        !is_linux_system(system) && !headless && server ==> res == Err::<(GodotVersion, SystemVersion), VersionArgsError>(
            VersionArgsError::ServerNotLinux,
        ),
        is_linux_system(system) || (!headless && !server) ==> (res matches Ok((v, s)) && v@ == version@ && s == system),
{
    if !system.is_linux() && headless {
        Err(VersionArgsError::HeadlessNotLinux)
    } else if !system.is_linux() && server {
        Err(VersionArgsError::ServerNotLinux)
    } else {
        Ok((version.clone(), system))
    }
}

} // verus!
