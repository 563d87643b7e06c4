//! The project commands.
use vstd::prelude::*;

use crate::engine::{default_state, engines_of, engines_readable, find_engine, DefaultState, EngineHandler};
use crate::errors::EngineError;
use crate::types::version::{ErrorModel, GodotVersion};

verus! {

/// Edit a project with its engine.
pub struct Edit {
    /// Project path.
    pub path: String,
    /// Engine version.
    pub engine: Option<GodotVersion>,
}

/// What editing a project comes to.
#[derive(Debug)]
pub enum EditPlan {
    /// Open the editor of this engine, named on the command line.
    RunEngine(GodotVersion),
    /// The engine named on the command line is not registered.
    UnknownEngine(GodotVersion),
    /// Check the engine of the project (asking the user when it is not
    /// registered), then open its editor.
    CheckProjectEngine(GodotVersion),
    /// The project names no engine: offer to associate the default engine
    /// with it, then open the editor of the default engine.
    OfferDefault(GodotVersion),
    /// No engine named, none for the project, and no default engine.
    NoEngine,
}

impl Edit {
    /// What the command comes to: the engine named, else the project's,
    /// else the default engine.
    pub fn plan(&self, project_engine: Option<&GodotVersion>, handler: &EngineHandler) -> (res: Result<EditPlan, EngineError>)
        requires
            engines_readable(handler.model(), handler.host()),
        ensures
            match self.engine {
                Some(v) => if find_engine(engines_of(handler.model(), handler.host()), v@) is Some {
                    res matches Ok(EditPlan::RunEngine(x)) && x@ == v@
                } else {
                    res matches Ok(EditPlan::UnknownEngine(x)) && x@ == v@
                },
                None => match project_engine {
                    Some(p) => res matches Ok(EditPlan::CheckProjectEngine(x)) && x@ == p@,
                    None => match default_state(handler.model(), handler.host()) {
                        DefaultState::Unset => res matches Ok(EditPlan::NoEngine),
                        DefaultState::Registered(d) => res matches Ok(EditPlan::OfferDefault(x)) && x@ == d,
                        DefaultState::Unreadable(s) => res matches Err(EngineError::VersionError(e)) && e@
                            == ErrorModel::WrongVersion(s),
                        DefaultState::Unregistered(d) => res matches Err(EngineError::EngineNotFound(x)) && x@ == d,
                    },
                },
            },
    {
        match &self.engine {
            Some(v) => {
                if handler.get_version(v).is_ok() {
                    Ok(EditPlan::RunEngine(v.clone()))
                } else {
                    Ok(EditPlan::UnknownEngine(v.clone()))
                }
            },
            None => match project_engine {
                Some(p) => Ok(EditPlan::CheckProjectEngine(p.clone())),
                None => match handler.get_default() {
                    Err(e) => Err(e),
                    Ok(None) => Ok(EditPlan::NoEngine),
                    Ok(Some(d)) => Ok(EditPlan::OfferDefault(d)),
                },
            },
        }
    }
}

} // verus!
