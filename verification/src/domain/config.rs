//! FastStats configuration: toggles that the end user controls.

use vstd::prelude::*;

use crate::domain::server_id::{hyphenated, lemma_hyphenated, uuid_parse, ServerId};
use crate::text::{
    equal, lemma_first_line, lemma_position_is, lemma_trimmed_keeps, lines, lowered, opt_text,
    split_at_first, split_once, text_lines, texts, to_lower, trim, trimmed,
};

verus! {

/// What a [`Config`] holds.
pub struct ConfigView {
    pub server_id: ServerId,
    pub enabled: bool,
    pub submit_metrics: bool,
    pub error_tracking: bool,
    pub additional_metrics: bool,
    pub debug: bool,
}

/// FastStats configuration, controlled by the end user. All toggles default
/// to `true` and can be overridden by environment variables.
#[derive(Clone, Copy, Debug, PartialEq, Eq, Structural)]
pub struct Config {
    server_id: ServerId,
    enabled: bool,
    submit_metrics: bool,
    error_tracking: bool,
    additional_metrics: bool,
    debug: bool,
}

impl View for Config {
    type V = ConfigView;

    closed spec fn view(&self) -> ConfigView {
        ConfigView {
            server_id: self.server_id,
            enabled: self.enabled,
            submit_metrics: self.submit_metrics,
            error_tracking: self.error_tracking,
            additional_metrics: self.additional_metrics,
            debug: self.debug,
        }
    }
}

/// The values of the environment variables that override the toggles; a
/// variable that is not set has none.
#[derive(Debug)]
pub struct EnvOverrides {
    /// `FASTSTATS_ENABLED`
    pub enabled: Option<String>,
    /// `FASTSTATS_SUBMIT_METRICS`
    pub submit_metrics: Option<String>,
    /// `FASTSTATS_ERROR_TRACKING`
    pub error_tracking: Option<String>,
    /// `FASTSTATS_ADDITIONAL_METRICS`
    pub additional_metrics: Option<String>,
    /// `FASTSTATS_DEBUG`
    pub debug: Option<String>,
}

/// The configuration with every toggle on.
pub open spec fn all_on(server_id: ServerId) -> ConfigView {
    ConfigView {
        server_id,
        enabled: true,
        submit_metrics: true,
        error_tracking: true,
        additional_metrics: true,
        debug: true,
    }
}

/// The configuration whose toggles are on where both have them on.
pub open spec fn both(a: ConfigView, b: ConfigView) -> ConfigView {
    ConfigView {
        server_id: a.server_id,
        enabled: a.enabled && b.enabled,
        submit_metrics: a.submit_metrics && b.submit_metrics,
        error_tracking: a.error_tracking && b.error_tracking,
        additional_metrics: a.additional_metrics && b.additional_metrics,
        debug: a.debug && b.debug,
    }
}

/// The toggle that the value of an environment variable stands for: `true`
/// or `false`, in any letter case and with white space around it.
pub open spec fn env_toggle(value: Option<Seq<char>>) -> Option<bool> {
    match value {
        Some(s) => if lowered(trimmed(s)) == "true"@ {
            Some(true)
        } else if lowered(trimmed(s)) == "false"@ {
            Some(false)
        } else {
            None
        },
        None => None,
    }
}

/// The toggle, where there is a new value for it that one.
pub open spec fn overridden(toggle: bool, value: Option<bool>) -> bool {
    match value {
        Some(v) => v,
        None => toggle,
    }
}

/// The configuration after the environment variables.
pub open spec fn with_env(config: ConfigView, env: EnvOverrides) -> ConfigView {
    ConfigView {
        server_id: config.server_id,
        enabled: overridden(config.enabled, env_toggle(opt_text(env.enabled))),
        submit_metrics: overridden(
            config.submit_metrics,
            env_toggle(opt_text(env.submit_metrics)),
        ),
        error_tracking: overridden(
            config.error_tracking,
            env_toggle(opt_text(env.error_tracking)),
        ),
        additional_metrics: overridden(
            config.additional_metrics,
            env_toggle(opt_text(env.additional_metrics)),
        ),
        debug: overridden(config.debug, env_toggle(opt_text(env.debug))),
    }
}

/// The text of a toggle.
pub open spec fn toggle_text(toggle: bool) -> Seq<char> {
    if toggle {
        "true"@
    } else {
        "false"@
    }
}

/// The toggle that a persisted value stands for.
pub open spec fn toggle_of(value: Seq<char>) -> Option<bool> {
    if value == "true"@ {
        Some(true)
    } else if value == "false"@ {
        Some(false)
    } else {
        None
    }
}

/// The configuration after one persisted setting. A key that is not known,
/// or a value that cannot be read, changes nothing.
pub open spec fn with_setting(config: ConfigView, key: Seq<char>, value: Seq<char>) -> ConfigView {
    if key == "server_id"@ {
        ConfigView {
            server_id: match uuid_parse(value) {
                Some(id) => ServerId(id),
                None => config.server_id,
            },
            ..config
        }
    } else if key == "enabled"@ {
        ConfigView { enabled: overridden(config.enabled, toggle_of(value)), ..config }
    } else if key == "submit_metrics"@ {
        ConfigView { submit_metrics: overridden(config.submit_metrics, toggle_of(value)), ..config }
    } else if key == "error_tracking"@ {
        ConfigView { error_tracking: overridden(config.error_tracking, toggle_of(value)), ..config }
    } else if key == "additional_metrics"@ {
        ConfigView {
            additional_metrics: overridden(config.additional_metrics, toggle_of(value)),
            ..config
        }
    } else if key == "debug"@ {
        ConfigView { debug: overridden(config.debug, toggle_of(value)), ..config }
    } else {
        config
    }
}

/// The configuration after one persisted line; a line without `=` changes
/// nothing.
pub open spec fn with_line(config: ConfigView, line: Seq<char>) -> ConfigView {
    match split_at_first(line, '=') {
        Some((key, value)) => with_setting(config, trimmed(key), trimmed(value)),
        None => config,
    }
}

/// The configuration after persisted lines, one after another.
pub open spec fn with_lines(config: ConfigView, lines: Seq<Seq<char>>) -> ConfigView
    decreases lines.len(),
{
    if lines.len() == 0 {
        config
    } else {
        with_lines(with_line(config, lines[0]), lines.drop_first())
    }
}

/// The configuration that a persisted text stands for. What the text leaves
/// out has its default.
pub open spec fn persisted_config(contents: Seq<char>, default_server_id: ServerId) -> ConfigView {
    with_lines(all_on(default_server_id), text_lines(contents))
}

/// One persisted line.
pub open spec fn setting_line(key: Seq<char>, value: Seq<char>) -> Seq<char> {
    key + seq!['='] + value + seq!['\n']
}

/// The text that a configuration is persisted as: one line for each field.
pub open spec fn persisted_text(config: ConfigView) -> Seq<char> {
    setting_line("server_id"@, hyphenated(config.server_id.0)) + (setting_line(
        "enabled"@,
        toggle_text(config.enabled),
    ) + (setting_line("submit_metrics"@, toggle_text(config.submit_metrics)) + (setting_line(
        "error_tracking"@,
        toggle_text(config.error_tracking),
    ) + (setting_line("additional_metrics"@, toggle_text(config.additional_metrics))
        + setting_line("debug"@, toggle_text(config.debug))))))
}

impl Config {
    /// Creates a new [`Config`] with all toggles set to `true`.
    pub fn new(server_id: ServerId) -> (r: Self)
        ensures
            r@ == all_on(server_id),
    {
        Config {
            server_id,
            enabled: true,
            submit_metrics: true,
            error_tracking: true,
            additional_metrics: true,
            debug: true,
        }
    }

    /// Applies the overrides of the environment on top of this config.
    pub fn with_env_overrides(self, env: &EnvOverrides) -> (r: Self)
        ensures
            r@ == with_env(self@, *env),
    {
        Config {
            server_id: self.server_id,
            enabled: override_with(self.enabled, &env.enabled),
            submit_metrics: override_with(self.submit_metrics, &env.submit_metrics),
            error_tracking: override_with(self.error_tracking, &env.error_tracking),
            additional_metrics: override_with(self.additional_metrics, &env.additional_metrics),
            debug: override_with(self.debug, &env.debug),
        }
    }

    /// Shorthand for [`Config::new`] followed by
    /// [`Config::with_env_overrides`].
    pub fn from_env(server_id: ServerId, env: &EnvOverrides) -> (r: Self)
        ensures
            r@ == with_env(all_on(server_id), *env),
    {
        Config::new(server_id).with_env_overrides(env)
    }

    /// The server id.
    pub fn server_id(&self) -> (r: ServerId)
        ensures
            r == self@.server_id,
    {
        self.server_id
    }

    /// Returns a copy of this config with `server_id` replaced, all other
    /// fields unchanged.
    pub fn clone_with_server_id(&self, server_id: ServerId) -> (r: Self)
        ensures
            r@ == (ConfigView { server_id, ..self@ }),
    {
        Config { server_id, ..*self }
    }

    /// Whether all FastStats features are enabled.
    pub fn enabled(&self) -> (r: bool)
        ensures
            r == self@.enabled,
    {
        self.enabled
    }

    /// Whether metrics submission is enabled.
    pub fn submit_metrics(&self) -> (r: bool)
        ensures
            r == self@.submit_metrics,
    {
        self.submit_metrics
    }

    /// Whether error tracking is enabled.
    pub fn error_tracking(&self) -> (r: bool)
        ensures
            r == self@.error_tracking,
    {
        self.error_tracking
    }

    /// Whether additional (custom) metrics are enabled.
    pub fn additional_metrics(&self) -> (r: bool)
        ensures
            r == self@.additional_metrics,
    {
        self.additional_metrics
    }

    /// Whether debug logging is enabled.
    pub fn debug(&self) -> (r: bool)
        ensures
            r == self@.debug,
    {
        self.debug
    }

    /// Builder-style setter for `enabled`.
    pub fn set_enabled(self, value: bool) -> (r: Self)
        ensures
            r@ == (ConfigView { enabled: value, ..self@ }),
    {
        Config { enabled: value, ..self }
    }

    /// Builder-style setter for `submit_metrics`.
    pub fn set_submit_metrics(self, value: bool) -> (r: Self)
        ensures
            r@ == (ConfigView { submit_metrics: value, ..self@ }),
    {
        Config { submit_metrics: value, ..self }
    }

    /// Builder-style setter for `error_tracking`.
    pub fn set_error_tracking(self, value: bool) -> (r: Self)
        ensures
            r@ == (ConfigView { error_tracking: value, ..self@ }),
    {
        Config { error_tracking: value, ..self }
    }

    /// Builder-style setter for `additional_metrics`.
    pub fn set_additional_metrics(self, value: bool) -> (r: Self)
        ensures
            r@ == (ConfigView { additional_metrics: value, ..self@ }),
    {
        Config { additional_metrics: value, ..self }
    }

    /// Builder-style setter for `debug`.
    pub fn set_debug(self, value: bool) -> (r: Self)
        ensures
            r@ == (ConfigView { debug: value, ..self@ }),
    {
        Config { debug: value, ..self }
    }

    /// Combines this config with another: a toggle is on only if both have
    /// it on. The server id is that of `self`.
    pub fn and(&self, other: &Config) -> (r: Self)
        ensures
            r@ == both(self@, other@),
    {
        Config {
            server_id: self.server_id,
            enabled: self.enabled && other.enabled,
            submit_metrics: self.submit_metrics && other.submit_metrics,
            error_tracking: self.error_tracking && other.error_tracking,
            additional_metrics: self.additional_metrics && other.additional_metrics,
            debug: self.debug && other.debug,
        }
    }

    /// Writes this config as text, one `key=value` line for each field, to
    /// be kept on disk. [`Config::from_persisted_str`] reads it back as it
    /// was.
    pub fn to_persisted_string(&self) -> (r: String)
        ensures
            r@ == persisted_text(self@),
            forall|default_server_id: ServerId|
                #[trigger] persisted_config(r@, default_server_id) == self@,
    {
        let mut r = String::new();
        let id = self.server_id.text();
        append_setting(&mut r, "server_id", id.as_str());
        append_setting(&mut r, "enabled", text_of_toggle(self.enabled));
        append_setting(&mut r, "submit_metrics", text_of_toggle(self.submit_metrics));
        append_setting(&mut r, "error_tracking", text_of_toggle(self.error_tracking));
        append_setting(&mut r, "additional_metrics", text_of_toggle(self.additional_metrics));
        append_setting(&mut r, "debug", text_of_toggle(self.debug));
        proof {
            assert(r@ =~= persisted_text(self@));
            assert forall|default_server_id: ServerId|
                #[trigger] persisted_config(r@, default_server_id) == self@ by {
                lemma_persisted_reads_back(self@, default_server_id);
            }
        }
        r
    }

    /// Reads the text written by [`Config::to_persisted_string`]. Each
    /// field has its default where its line is missing or cannot be read.
    pub fn from_persisted_str(contents: &str, default_server_id: ServerId) -> (r: Self)
        ensures
            r@ == persisted_config(contents@, default_server_id),
    {
        let all = lines(contents);
        let mut config = Config::new(default_server_id);
        let mut i: usize = 0;
        assert(texts(all@).skip(0) =~= texts(all@));
        while i < all.len()
            invariant
                i <= all@.len(),
                with_lines(config@, texts(all@).skip(i as int)) == with_lines(
                    all_on(default_server_id),
                    texts(all@),
                ),
            decreases all@.len() - i,
        {
            let ghost rest = texts(all@).skip(i as int);
            assert(rest.drop_first() =~= texts(all@).skip(i + 1));
            assert(rest[0] == all@[i as int]@);
            config = config.read_line(all[i].as_str());
            i += 1;
        }
        config
    }

    fn read_line(self, line: &str) -> (r: Self)
        ensures
            r@ == with_line(self@, line@),
    {
        match split_once(line, '=') {
            Some((key, value)) => {
                let key = trim(key.as_str());
                let value = trim(value.as_str());
                self.read_setting(key.as_str(), value.as_str())
            },
            None => self,
        }
    }

    fn read_setting(self, key: &str, value: &str) -> (r: Self)
        ensures
            r@ == with_setting(self@, key@, value@),
    {
        if equal(key, "server_id") {
            match ServerId::parse(value) {
                Some(server_id) => Config { server_id, ..self },
                None => self,
            }
        } else if equal(key, "enabled") {
            Config { enabled: read_toggle(self.enabled, value), ..self }
        } else if equal(key, "submit_metrics") {
            Config { submit_metrics: read_toggle(self.submit_metrics, value), ..self }
        } else if equal(key, "error_tracking") {
            Config { error_tracking: read_toggle(self.error_tracking, value), ..self }
        } else if equal(key, "additional_metrics") {
            Config { additional_metrics: read_toggle(self.additional_metrics, value), ..self }
        } else if equal(key, "debug") {
            Config { debug: read_toggle(self.debug, value), ..self }
        } else {
            self
        }
    }
}

fn read_toggle(toggle: bool, value: &str) -> (r: bool)
    ensures
        r == overridden(toggle, toggle_of(value@)),
{
    proof {
        reveal_strlit("true");
        reveal_strlit("false");
    }
    if equal(value, "true") {
        true
    } else if equal(value, "false") {
        false
    } else {
        toggle
    }
}

/// The toggle that the value of an environment variable stands for, if it
/// stands for one.
pub fn read_bool_env(value: Option<&str>) -> (r: Option<bool>)
    ensures
        r == env_toggle(crate::text::opt_str(value)),
{
    match value {
        Some(s) => {
            let word = to_lower(trim(s).as_str());
            if equal(word.as_str(), "true") {
                Some(true)
            } else if equal(word.as_str(), "false") {
                Some(false)
            } else {
                None
            }
        },
        None => None,
    }
}

fn override_with(toggle: bool, value: &Option<String>) -> (r: bool)
    ensures
        r == overridden(toggle, env_toggle(opt_text(*value))),
{
    let read = match value {
        Some(s) => read_bool_env(Some(s.as_str())),
        None => None,
    };
    match read {
        Some(v) => v,
        None => toggle,
    }
}

fn text_of_toggle(toggle: bool) -> (s: &'static str)
    ensures
        s@ == toggle_text(toggle),
{
    if toggle {
        "true"
    } else {
        "false"
    }
}

fn append_setting(r: &mut String, key: &str, value: &str)
    ensures
        final(r)@ == old(r)@ + setting_line(key@, value@),
{
    r.append(key);
    r.push('=');
    r.append(value);
    r.push('\n');
    assert(r@ =~= old(r)@ + setting_line(key@, value@));
}

/// Whether a text can stand in a persisted line: no line ending in it, and
/// no white space at either end.
spec fn is_plain(s: Seq<char>) -> bool {
    &&& s.len() > 0
    &&& forall|i: int| 0 <= i < s.len() ==> ('0' <= #[trigger] s[i] <= '9' || 'a' <= s[i] <= 'z'
        || s[i] == '-' || s[i] == '_')
}

proof fn lemma_setting_line_reads_back(
    config: ConfigView,
    key: Seq<char>,
    value: Seq<char>,
    rest: Seq<char>,
)
    requires
        is_plain(key),
        is_plain(value),
    ensures
        with_lines(config, text_lines(setting_line(key, value) + rest)) == with_lines(
            with_setting(config, key, value),
            text_lines(rest),
        ),
{
    let line = key + seq!['='] + value;
    assert(setting_line(key, value) + rest =~= line + seq!['\n'] + rest);
    assert forall|i: int| 0 <= i < line.len() implies line[i] != '\n' && line[i] != '\r' by {
        if i < key.len() {
            assert(line[i] == key[i]);
        } else if i > key.len() {
            assert(line[i] == value[i - key.len() - 1]);
        }
    }
    lemma_first_line(line, rest);
    let all = text_lines(setting_line(key, value) + rest);
    assert(all.drop_first() =~= text_lines(rest));
    assert forall|i: int| 0 <= i < key.len() implies line[i] != '=' by {
        assert(line[i] == key[i]);
    }
    lemma_position_is(line, '=', key.len() as int);
    assert(line.take(key.len() as int) =~= key);
    assert(line.skip(key.len() as int + 1) =~= value);
    lemma_trimmed_keeps(key);
    lemma_trimmed_keeps(value);
}

proof fn lemma_persisted_reads_back(config: ConfigView, default_server_id: ServerId)
    requires
        uuid_parse(hyphenated(config.server_id.0)) == Some(config.server_id.0),
    ensures
        persisted_config(persisted_text(config), default_server_id) == config,
{
    reveal_strlit("server_id");
    reveal_strlit("enabled");
    reveal_strlit("submit_metrics");
    reveal_strlit("error_tracking");
    reveal_strlit("additional_metrics");
    reveal_strlit("debug");
    reveal_strlit("true");
    reveal_strlit("false");
    let id = hyphenated(config.server_id.0);
    lemma_hyphenated(config.server_id.0);
    let l6 = setting_line("debug"@, toggle_text(config.debug));
    let l5 = setting_line("additional_metrics"@, toggle_text(config.additional_metrics)) + l6;
    let l4 = setting_line("error_tracking"@, toggle_text(config.error_tracking)) + l5;
    let l3 = setting_line("submit_metrics"@, toggle_text(config.submit_metrics)) + l4;
    let l2 = setting_line("enabled"@, toggle_text(config.enabled)) + l3;
    let c0 = all_on(default_server_id);
    lemma_setting_line_reads_back(c0, "server_id"@, id, l2);
    let c1 = with_setting(c0, "server_id"@, id);
    lemma_setting_line_reads_back(c1, "enabled"@, toggle_text(config.enabled), l3);
    let c2 = with_setting(c1, "enabled"@, toggle_text(config.enabled));
    lemma_setting_line_reads_back(c2, "submit_metrics"@, toggle_text(config.submit_metrics), l4);
    let c3 = with_setting(c2, "submit_metrics"@, toggle_text(config.submit_metrics));
    lemma_setting_line_reads_back(c3, "error_tracking"@, toggle_text(config.error_tracking), l5);
    let c4 = with_setting(c3, "error_tracking"@, toggle_text(config.error_tracking));
    lemma_setting_line_reads_back(
        c4,
        "additional_metrics"@,
        toggle_text(config.additional_metrics),
        l6,
    );
    let c5 = with_setting(c4, "additional_metrics"@, toggle_text(config.additional_metrics));
    assert(l6 + Seq::<char>::empty() =~= l6);
    lemma_setting_line_reads_back(c5, "debug"@, toggle_text(config.debug), Seq::empty());
}

/// A toggle of combined configurations is on exactly where both have it on,
/// and the server id is that of the first.
pub proof fn law_and_needs_both(a: ConfigView, b: ConfigView)
    ensures
        both(a, b).server_id == a.server_id,
        both(a, b).enabled <==> a.enabled && b.enabled,
        both(a, b).submit_metrics <==> a.submit_metrics && b.submit_metrics,
        both(a, b).error_tracking <==> a.error_tracking && b.error_tracking,
        both(a, b).additional_metrics <==> a.additional_metrics && b.additional_metrics,
        both(a, b).debug <==> a.debug && b.debug,
{
}

/// A persisted line that cannot be read changes nothing: one without `=`,
/// one with a key that is not known, or one with a value that stands for no
/// toggle. Each field has its default where nothing is said of it.
pub proof fn law_unreadable_lines_change_nothing(
    config: ConfigView,
    line: Seq<char>,
    key: Seq<char>,
    value: Seq<char>,
    default_server_id: ServerId,
)
    ensures
        split_at_first(line, '=') is None ==> with_line(config, line) == config,
        uuid_parse(value) is None && toggle_of(value) is None ==> with_setting(config, key, value)
            == config,
        persisted_config(Seq::empty(), default_server_id) == all_on(default_server_id),
{
}

/// Without environment variables nothing is overridden.
pub proof fn law_no_env_changes_nothing(config: ConfigView, env: EnvOverrides)
    requires
        env.enabled is None,
        env.submit_metrics is None,
        env.error_tracking is None,
        env.additional_metrics is None,
        env.debug is None,
    ensures
        with_env(config, env) == config,
{
}

} // verus!
