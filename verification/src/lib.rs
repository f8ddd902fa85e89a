//! Resolves short typed commands (a name plus free-form argument text) into
//! fully qualified URLs, using a registry of named commands, each backed by an
//! ordered list of pattern rules and URL templates.

use vstd::prelude::*;

pub mod command_handler;
pub mod config;
pub mod regexes;
pub mod templates;
pub mod text;

use command_handler::CommandHandler;
use config::Config;

verus! {

/// Builds the command handler that the process entry point serves requests
/// with: dispatch state constructed once from the validated configuration.
pub fn rocket(config: &Config) -> (handler: CommandHandler)
    requires
        config@.wf(),
    ensures
        handler.wf(),
        handler@ == command_handler::spec_handler(config@),
{
    CommandHandler::new(config)
}

} // verus!
