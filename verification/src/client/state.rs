//! The state that is kept between runs: the whole configuration is always
//! persisted to a local file. The first run of an installation is told by
//! the file's absence.

use vstd::prelude::*;

use crate::domain::config::{persisted_config, persisted_text, Config, ConfigView};
use crate::domain::server_id::{is_random_version, is_standard_variant, ServerId};
use crate::text::{equal_ignoring_case, lowered, opt_str, trim, trimmed};

verus! {

/// The environment variable that names the directory of the state file.
pub const STATE_DIR_ENV: &'static str = "FASTSTATS_STATE_DIR";

/// The name of the state file.
pub const STATE_FILE_NAME: &'static str = "config.properties";

/// The directory of the state file, unless another one is named.
pub const DEFAULT_STATE_DIR: &'static str = "faststats";

/// The environment variable that starts submission on the first run already,
/// if it is `true`.
pub const FORCE_ENABLED_ENV: &'static str = "FASTSTATS_ENABLED";

/// Whether a client of this process has been through its first run. A
/// process has one of these.
#[derive(Debug)]
pub struct FirstRunGate {
    handled: bool,
}

impl FirstRunGate {
    /// Whether some client has been through its first run.
    pub closed spec fn is_handled(self) -> bool {
        self.handled
    }

    /// A process in which no client has started.
    pub fn new() -> (r: Self)
        ensures
            !r.is_handled(),
    {
        FirstRunGate { handled: false }
    }

    /// Claims the first run, and says whether nobody had claimed it before.
    fn claim(&mut self) -> (first: bool)
        ensures
            first == !old(self).is_handled(),
            final(self).is_handled(),
    {
        let first = !self.handled;
        self.handled = true;
        first
    }
}

impl Default for FirstRunGate {
    fn default() -> (r: Self)
        ensures
            !r.is_handled(),
    {
        FirstRunGate::new()
    }
}

/// The state at the start of a client: the configuration, as it was read
/// from the state file or is to be written there, and whether this run is
/// one that submits nothing.
#[derive(Debug)]
pub struct State {
    pub config: Config,
    pub is_first_boot: bool,
    /// What the state file has to hold from now on.
    pub persisted: String,
}

/// Whether the variable asks for submission on the first run already.
pub open spec fn is_forced(value: Option<Seq<char>>) -> bool {
    value is Some && lowered(trimmed(value->0)) == lowered("true"@)
}

/// The configuration of a run: what the state file holds, or the default one
/// with a new server id, if there is no file.
pub open spec fn run_config(
    default_config: ConfigView,
    contents: Option<Seq<char>>,
    new_id: ServerId,
) -> ConfigView {
    match contents {
        Some(s) => persisted_config(s, new_id),
        None => ConfigView { server_id: new_id, ..default_config },
    }
}

/// Whether a run is a first one: there was no state file, no client of this
/// process has been through its first run, and submission is not asked for.
pub open spec fn first_boot(file_existed: bool, handled: bool, forced: bool) -> bool {
    !file_existed && !handled && !forced
}

/// Whether some client has been through its first run, after a run.
pub open spec fn handled_after(file_existed: bool, handled: bool) -> bool {
    handled || !file_existed
}

/// Whether `FASTSTATS_ENABLED` is explicitly set to `true`.
pub fn force_enabled_override(value: Option<&str>) -> (r: bool)
    ensures
        r == is_forced(opt_str(value)),
{
    match value {
        Some(s) => equal_ignoring_case(trim(s).as_str(), "true"),
        None => false,
    }
}

/// Applies the first-run gate: a run is no first one if some earlier client
/// of this process has been through its own, or if submission is asked for.
pub fn resolve_first_boot(gate: &mut FirstRunGate, force_enabled: Option<&str>) -> (r: bool)
    ensures
        r == first_boot(false, old(gate).is_handled(), is_forced(opt_str(force_enabled))),
        final(gate).is_handled(),
{
    if !gate.claim() {
        return false;
    }
    !force_enabled_override(force_enabled)
}

/// The state at the start of a client. `contents` is what the state file
/// holds, if there is one; `new_id` is the server id where none is persisted;
/// `force_enabled` is the value of [`FORCE_ENABLED_ENV`].
pub fn resolve_state(
    default_config: &Config,
    contents: Option<&str>,
    new_id: ServerId,
    gate: &mut FirstRunGate,
    force_enabled: Option<&str>,
) -> (r: State)
    ensures
        r.config@ == run_config(default_config@, opt_str(contents), new_id),
        r.is_first_boot == first_boot(
            contents is Some,
            old(gate).is_handled(),
            is_forced(opt_str(force_enabled)),
        ),
        r.persisted@ == persisted_text(r.config@),
        forall|id: ServerId| #[trigger] persisted_config(r.persisted@, id) == r.config@,
        final(gate).is_handled() == handled_after(contents is Some, old(gate).is_handled()),
{
    let (config, is_first_boot) = match contents {
        Some(s) => (Config::from_persisted_str(s, new_id), false),
        None => (
            default_config.clone_with_server_id(new_id),
            resolve_first_boot(gate, force_enabled),
        ),
    };
    let persisted = config.to_persisted_string();
    State { config, is_first_boot, persisted }
}

/// Loads the persisted configuration if there is a state file, else takes
/// `default_config` with a fresh server id. The file is to be written in
/// either case.
pub fn load_or_init(
    default_config: &Config,
    contents: Option<&str>,
    gate: &mut FirstRunGate,
    force_enabled: Option<&str>,
) -> (r: State)
    ensures
        exists|new_id: ServerId|
            is_random_version(new_id.0) && is_standard_variant(new_id.0) && r.config@
                == #[trigger] run_config(default_config@, opt_str(contents), new_id),
        r.is_first_boot == first_boot(
            contents is Some,
            old(gate).is_handled(),
            is_forced(opt_str(force_enabled)),
        ),
        r.persisted@ == persisted_text(r.config@),
        forall|id: ServerId| #[trigger] persisted_config(r.persisted@, id) == r.config@,
        final(gate).is_handled() == handled_after(contents is Some, old(gate).is_handled()),
{
    let new_id = ServerId::random();
    resolve_state(default_config, contents, new_id, gate, force_enabled)
}

/// At most one run of a process is a first one: after one, no other is,
/// whatever files there are. A run with a state file never is one, nor is
/// one for which submission is asked for.
pub proof fn law_first_boot_happens_once(
    handled: bool,
    forced: bool,
    later_file_existed: bool,
    later_forced: bool,
)
    ensures
        first_boot(false, handled, forced) ==> !first_boot(
            later_file_existed,
            handled_after(false, handled),
            later_forced,
        ),
        !first_boot(true, handled, forced),
        !first_boot(false, handled, true),
        first_boot(false, false, false),
{
}

/// The server id of an installation never changes: a run that reads what an
/// earlier one persisted has the same configuration, whatever the defaults
/// and the fresh id.
pub proof fn law_state_survives_runs(
    config: ConfigView,
    persisted: Seq<char>,
    default_config: ConfigView,
    new_id: ServerId,
)
    requires
        forall|id: ServerId| #[trigger] persisted_config(persisted, id) == config,
    ensures
        run_config(default_config, Some(persisted), new_id) == config,
{
}

} // verus!
