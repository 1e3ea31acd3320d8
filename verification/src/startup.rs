//! How the runtime boots from what the config file gave.
use vstd::prelude::*;
use crate::config::{error_text, Config, ConfigError};
use crate::configfile::default_config_view;
use crate::text::push_str;
use vstd::string::StringExecFns;

verus! {

/// How the runtime must boot: which config, paused or live, and what to tell
/// the owner.
pub struct StartupPlan {
    pub config: Config,
    pub start_paused: bool,
    pub notice: Option<String>,
}

/// What the owner is told when a config file is refused.
pub open spec fn refusal_notice(path: Seq<char>, e: crate::config::ConfigErrorView) -> Seq<char> {
    "Config "@ + path + " ignored: "@ + error_text(e)
        + ". Running paused on defaults; the file was left untouched."@
}

/// Resolves the boot configuration from the file's outcome, shown with its
/// path: no file boots the defaults live; a loaded file boots live; a file
/// that failed to load boots the defaults paused with a notice naming the
/// fault, and the file itself is never touched.
pub fn resolve_startup(loaded: Option<(String, Result<Config, ConfigError>)>) -> (plan: StartupPlan)
    ensures
        match loaded {
            None => plan.config@ == default_config_view() && !plan.start_paused && plan.notice is None,
            Some((_, Ok(c))) => plan.config@ == c@ && !plan.start_paused && plan.notice is None,
            Some((path, Err(e))) => plan.config@ == default_config_view() && plan.start_paused
                && (plan.notice matches Some(n) && n@ == refusal_notice(path@, e@)),
        },
{
    match loaded {
        None => {
            let config = Config::default();
            proof {
                crate::configfile::lemma_default_view(config);
            }
            StartupPlan { config, start_paused: false, notice: None }
        }
        Some((_, Ok(config))) => StartupPlan { config, start_paused: false, notice: None },
        Some((path, Err(e))) => {
            let config = Config::default();
            proof {
                crate::configfile::lemma_default_view(config);
            }
            let mut n = String::from_str("Config ");
            push_str(&mut n, path.as_str());
            push_str(&mut n, " ignored: ");
            let m = e.message();
            push_str(&mut n, m.as_str());
            push_str(&mut n, ". Running paused on defaults; the file was left untouched.");
            proof {
                assert(n@ =~= refusal_notice(path@, e@));
            }
            StartupPlan { config, start_paused: true, notice: Some(n) }
        }
    }
}

} // verus!
