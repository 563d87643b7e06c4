//! The engine commands.
use vstd::prelude::*;

use crate::engine::{default_state, engines_of, engines_readable, find_engine, DefaultState, EngineHandler};
use crate::errors::EngineError;
use crate::text::strings_view;
use crate::types::version::{ErrorModel, GodotVersion, SystemVersion};

verus! {

/// Run a command on an engine.
pub struct Run {
    /// Engine version.
    pub engine: Option<GodotVersion>,
    /// Arguments.
    pub args: Vec<String>,
}

/// What running a command on an engine comes to.
#[derive(Debug)]
pub enum RunPlan {
    /// Open the editor of this engine on the current directory.
    Run(GodotVersion),
    /// Run this engine on the current directory, with these arguments.
    Exec(GodotVersion, Vec<String>),
    /// The engine named is not registered.
    UnknownEngine(GodotVersion),
    /// No engine named, and no default engine.
    NoDefault,
}

impl Run {
    /// What the command comes to: with an engine named, its editor when no
    /// arguments are given and a run with the arguments otherwise; with
    /// none, the default engine is run when no arguments are given and its
    /// editor is opened otherwise.
    pub fn plan(self, handler: &EngineHandler) -> (res: Result<RunPlan, EngineError>)
        requires
            engines_readable(handler.model(), handler.host()),
        ensures
            match self.engine {
                Some(v) => if find_engine(engines_of(handler.model(), handler.host()), v@) is None {
                    res matches Ok(RunPlan::UnknownEngine(x)) && x@ == v@
                } else if self.args@.len() == 0 {
                    res matches Ok(RunPlan::Run(x)) && x@ == v@
                } else {
                    res matches Ok(RunPlan::Exec(x, a)) && x@ == v@ && strings_view(a@) == strings_view(self.args@)
                },
                None => match default_state(handler.model(), handler.host()) {
                    DefaultState::Unset => res matches Ok(RunPlan::NoDefault),
                    DefaultState::Registered(d) => if self.args@.len() == 0 {
                        res matches Ok(RunPlan::Exec(x, a)) && x@ == d && a@.len() == 0
                    } else {
                        res matches Ok(RunPlan::Run(x)) && x@ == d
                    },
                    DefaultState::Unreadable(s) => res matches Err(EngineError::VersionError(e)) && e@
                        == ErrorModel::WrongVersion(s),
                    DefaultState::Unregistered(d) => res matches Err(EngineError::EngineNotFound(x)) && x@ == d,
                },
            },
    {
        let no_args = self.args.len() == 0;
        match self.engine {
            Some(v) => {
                if handler.get_version(&v).is_err() {
                    Ok(RunPlan::UnknownEngine(v))
                } else if no_args {
                    Ok(RunPlan::Run(v))
                } else {
                    Ok(RunPlan::Exec(v, self.args))
                }
            },
            None => match handler.get_default() {
                Err(e) => Err(e),
                Ok(None) => Ok(RunPlan::NoDefault),
                Ok(Some(d)) => if no_args {
                    Ok(RunPlan::Exec(d, self.args))
                } else {
                    Ok(RunPlan::Run(d))
                },
            },
        }
    }
}

/// Download and install an engine, or register one on disk.
pub struct Add {
    /// Engine version.
    pub engine: GodotVersion,
    /// System version.
    pub system_version: Option<SystemVersion>,
    /// Target URL.
    pub target_url: Option<String>,
    /// Target path.
    pub target_path: Option<String>,
    /// Allow overwrite.
    pub overwrite: bool,
}

/// What adding an engine comes to.
#[derive(Debug)]
pub enum AddPlan {
    /// The engine is registered already, and overwriting was not asked for.
    AlreadyInstalled(GodotVersion),
    /// Register the editor executable at this path.
    Register(GodotVersion, String),
    /// Download the editor archive at this URL, for this system.
    DownloadFrom(GodotVersion, SystemVersion, String),
    /// Download the editor and export templates from the official mirror,
    /// for this system.
    DownloadOfficial(GodotVersion, SystemVersion),
}

impl Add {
    /// What the command comes to; the system is the one named, or this
    /// machine's.  A registered engine is replaced only when overwriting is
    /// asked for; a target path comes before a target URL.
    pub fn plan(self, handler: &EngineHandler) -> (res: AddPlan)
        requires
            engines_readable(handler.model(), handler.host()),
        ensures
            ({
                let system = match self.system_version {
                    Some(s) => s,
                    None => handler.host(),
                };
                if find_engine(engines_of(handler.model(), handler.host()), self.engine@) is Some && !self.overwrite {
                    res matches AddPlan::AlreadyInstalled(v) && v@ == self.engine@
                } else {
                    match self.target_path {
                        Some(p) => res matches AddPlan::Register(v, q) && v@ == self.engine@ && q@ == p@,
                        None => match self.target_url {
                            Some(u) => res matches AddPlan::DownloadFrom(v, s, w) && v@ == self.engine@ && s == system
                                && w@ == u@,
                            None => res matches AddPlan::DownloadOfficial(v, s) && v@ == self.engine@ && s == system,
                        },
                    }
                }
            }),
    {
        let system = match self.system_version {
            Some(s) => s,
            None => handler.host_system(),
        };
        if handler.has_version(&self.engine).is_some() && !self.overwrite {
            return AddPlan::AlreadyInstalled(self.engine);
        }
        match self.target_path {
            Some(p) => AddPlan::Register(self.engine, p),
            None => match self.target_url {
                Some(u) => AddPlan::DownloadFrom(self.engine, system, u),
                None => AddPlan::DownloadOfficial(self.engine, system),
            },
        }
    }
}

} // verus!
