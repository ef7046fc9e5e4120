//! Laws of the configuration, of what is kept between runs, and of checked
//! texts.

use vstd::prelude::*;

use crate::client::state::{
    force_enabled_override, load_or_init, resolve_first_boot, resolve_state, FirstRunGate, State,
};
use crate::domain::config::{
    env_toggle, persisted_config, read_bool_env, with_line, with_lines, with_setting, Config,
    ConfigView, EnvOverrides,
};
use crate::domain::sdk_info::SdkInfo;
use crate::domain::server_id::{hex_digit, hex_digits, hyphenated, uuid_parse, ServerId};
use crate::error::{Error, ErrorView};
use crate::text::{is_blank, lowered, opt_str, opt_text, text_lines, trimmed};
use crate::validated::id::Id;
use crate::validated::token::Token;

verus! {

/// What the five toggles of a configuration are, as its getters tell.
pub open spec fn tells(
    config: &Config,
    server_id: ServerId,
    enabled: bool,
    submit_metrics: bool,
    error_tracking: bool,
    additional_metrics: bool,
    debug: bool,
) -> bool {
    &&& call_ensures(Config::server_id, (config,), server_id)
    &&& call_ensures(Config::enabled, (config,), enabled)
    &&& call_ensures(Config::submit_metrics, (config,), submit_metrics)
    &&& call_ensures(Config::error_tracking, (config,), error_tracking)
    &&& call_ensures(Config::additional_metrics, (config,), additional_metrics)
    &&& call_ensures(Config::debug, (config,), debug)
}

/// The getters tell what the configuration holds, each its own field.
pub proof fn law_getters(
    config: &Config,
    server_id: ServerId,
    enabled: bool,
    submit_metrics: bool,
    error_tracking: bool,
    additional_metrics: bool,
    debug: bool,
)
    requires
        tells(
            config,
            server_id,
            enabled,
            submit_metrics,
            error_tracking,
            additional_metrics,
            debug,
        ),
    ensures
        config@ == (ConfigView {
            server_id,
            enabled,
            submit_metrics,
            error_tracking,
            additional_metrics,
            debug,
        }),
{
}

/// A new configuration has every toggle on.
pub proof fn law_new_config(server_id: ServerId, r: Config)
    requires
        call_ensures(Config::new, (server_id,), r),
    ensures
        r@ == (ConfigView {
            server_id,
            enabled: true,
            submit_metrics: true,
            error_tracking: true,
            additional_metrics: true,
            debug: true,
        }),
{
}

/// Each setter sets its own toggle, and no other; and the server id is
/// replaced alone.
pub proof fn law_setters(
    config: Config,
    value: bool,
    id: ServerId,
    a: Config,
    b: Config,
    c: Config,
    d: Config,
    e: Config,
    f: Config,
)
    requires
        call_ensures(Config::set_enabled, (config, value), a),
        call_ensures(Config::set_submit_metrics, (config, value), b),
        call_ensures(Config::set_error_tracking, (config, value), c),
        call_ensures(Config::set_additional_metrics, (config, value), d),
        call_ensures(Config::set_debug, (config, value), e),
        call_ensures(Config::clone_with_server_id, (&config, id), f),
    ensures
        a@ == (ConfigView { enabled: value, ..config@ }),
        b@ == (ConfigView { submit_metrics: value, ..config@ }),
        c@ == (ConfigView { error_tracking: value, ..config@ }),
        d@ == (ConfigView { additional_metrics: value, ..config@ }),
        e@ == (ConfigView { debug: value, ..config@ }),
        f@ == (ConfigView { server_id: id, ..config@ }),
{
}

/// A toggle of two combined configurations is on exactly where both have it
/// on, whatever the other toggles are; the server id is that of the first.
pub proof fn law_and(a: &Config, b: &Config, r: Config)
    requires
        call_ensures(Config::and, (a, b), r),
    ensures
        r@.server_id == a@.server_id,
        r@.enabled <==> a@.enabled && b@.enabled,
        r@.submit_metrics <==> a@.submit_metrics && b@.submit_metrics,
        r@.error_tracking <==> a@.error_tracking && b@.error_tracking,
        r@.additional_metrics <==> a@.additional_metrics && b@.additional_metrics,
        r@.debug <==> a@.debug && b@.debug,
{
}

/// A variable turns a toggle on or off exactly if it is `true` or `false`,
/// in any letter case and with white space around it.
pub proof fn law_read_bool_env(value: Option<&str>, r: Option<bool>)
    requires
        call_ensures(read_bool_env, (value,), r),
    ensures
        r == Some(true) <==> value is Some && lowered(trimmed(value->0@)) == seq![
            't',
            'r',
            'u',
            'e',
        ],
        r == Some(false) <==> value is Some && lowered(trimmed(value->0@)) == seq![
            'f',
            'a',
            'l',
            's',
            'e',
        ],
        r == env_toggle(opt_str(value)),
{
    reveal_strlit("true");
    reveal_strlit("false");
    assert("true"@ =~= seq!['t', 'r', 'u', 'e']);
    assert("false"@ =~= seq!['f', 'a', 'l', 's', 'e']);
    assert(seq!['t', 'r', 'u', 'e'].len() != seq!['f', 'a', 'l', 's', 'e'].len());
}

/// Each variable counts for its own toggle, and for no other: where it
/// stands for a value the toggle has it, and else the toggle stays.
pub proof fn law_env_overrides(config: Config, env: &EnvOverrides, r: Config)
    requires
        call_ensures(Config::with_env_overrides, (config, env), r),
    ensures
        r@.server_id == config@.server_id,
        overrides(env.enabled, config@.enabled, r@.enabled),
        overrides(env.submit_metrics, config@.submit_metrics, r@.submit_metrics),
        overrides(env.error_tracking, config@.error_tracking, r@.error_tracking),
        overrides(env.additional_metrics, config@.additional_metrics, r@.additional_metrics),
        overrides(env.debug, config@.debug, r@.debug),
{
}

/// Whether a variable makes `after` of the toggle `before`.
pub open spec fn overrides(variable: Option<String>, before: bool, after: bool) -> bool {
    match env_toggle(opt_text(variable)) {
        Some(value) => after == value,
        None => after == before,
    }
}

/// A configuration out of the environment is a new one with the overrides.
pub proof fn law_from_env(
    server_id: ServerId,
    env: &EnvOverrides,
    fresh: Config,
    overridden: Config,
    r: Config,
)
    requires
        call_ensures(Config::from_env, (server_id, env), r),
        call_ensures(Config::new, (server_id,), fresh),
        call_ensures(Config::with_env_overrides, (fresh, env), overridden),
    ensures
        r@ == overridden@,
{
}

/// A persisted setting changes the field that its key names, if its value
/// can be read, and no other; a key that is not known changes nothing.
pub proof fn law_setting(config: ConfigView, key: Seq<char>, value: Seq<char>)
    ensures
        ({
            let r = with_setting(config, key, value);
            &&& value == "true"@ ==> {
                &&& key == "enabled"@ ==> r == (ConfigView { enabled: true, ..config })
                &&& key == "submit_metrics"@ ==> r == (ConfigView {
                    submit_metrics: true,
                    ..config
                })
                &&& key == "error_tracking"@ ==> r == (ConfigView {
                    error_tracking: true,
                    ..config
                })
                &&& key == "additional_metrics"@ ==> r == (ConfigView {
                    additional_metrics: true,
                    ..config
                })
                &&& key == "debug"@ ==> r == (ConfigView { debug: true, ..config })
            }
            &&& value == "false"@ ==> {
                &&& key == "enabled"@ ==> r == (ConfigView { enabled: false, ..config })
                &&& key == "submit_metrics"@ ==> r == (ConfigView {
                    submit_metrics: false,
                    ..config
                })
                &&& key == "error_tracking"@ ==> r == (ConfigView {
                    error_tracking: false,
                    ..config
                })
                &&& key == "additional_metrics"@ ==> r == (ConfigView {
                    additional_metrics: false,
                    ..config
                })
                &&& key == "debug"@ ==> r == (ConfigView { debug: false, ..config })
            }
            &&& value != "true"@ && value != "false"@ && key != "server_id"@ ==> r == config
            &&& key == "server_id"@ && uuid_parse(value) is Some ==> r == (ConfigView {
                server_id: ServerId(uuid_parse(value)->0),
                ..config
            })
            &&& key == "server_id"@ && uuid_parse(value) is None ==> r == config
            &&& key != "server_id"@ && key != "enabled"@ && key != "submit_metrics"@ && key
                != "error_tracking"@ && key != "additional_metrics"@ && key != "debug"@ ==> r
                == config
        }),
{
    reveal_strlit("server_id");
    reveal_strlit("enabled");
    reveal_strlit("submit_metrics");
    reveal_strlit("error_tracking");
    reveal_strlit("additional_metrics");
    reveal_strlit("debug");
    reveal_strlit("true");
    reveal_strlit("false");
    assert("server_id"@.len() == 9 && "enabled"@.len() == 7 && "submit_metrics"@.len() == 14);
    assert("error_tracking"@.len() == 14 && "additional_metrics"@.len() == 18);
    assert("debug"@.len() == 5 && "true"@.len() == 4 && "false"@.len() == 5);
    assert("submit_metrics"@[0] == 's' && "error_tracking"@[0] == 'e');
}

/// A line sets what stands before its first equals sign to what stands after
/// it, without the white space around them; a line without one sets nothing.
pub proof fn law_line(config: ConfigView, line: Seq<char>, key: Seq<char>, value: Seq<char>)
    ensures
        !line.contains('=') ==> with_line(config, line) == config,
        line == key + seq!['='] + value && !key.contains('=') ==> with_line(config, line)
            == with_setting(config, trimmed(key), trimmed(value)),
{
    crate::text::lemma_position(line, '=');
    if line == key + seq!['='] + value && !key.contains('=') {
        let n = key.len() as int;
        assert forall|i: int| 0 <= i < n implies line[i] != '=' by {
            assert(line[i] == key[i]);
        }
        assert(line[n] == '=');
        crate::text::lemma_position_is(line, '=', n);
        assert(line.take(n) =~= key);
        assert(line.skip(n + 1) =~= value);
    }
}

/// Lines count one after another, all of them: those of two texts, one
/// behind the other, count one text after the other.
pub proof fn law_lines_in_turn(config: ConfigView, a: Seq<Seq<char>>, b: Seq<Seq<char>>)
    ensures
        with_lines(config, a + b) == with_lines(with_lines(config, a), b),
        with_lines(config, Seq::empty()) == config,
        a.len() == 1 ==> with_lines(config, a) == with_line(config, a[0]),
    decreases a.len(),
{
    reveal_with_fuel(with_lines, 2);
    if a.len() == 0 {
        assert(a + b =~= b);
    } else {
        law_lines_in_turn(with_line(config, a[0]), a.drop_first(), b);
        assert((a + b).drop_first() =~= a.drop_first() + b);
    }
}

/// A persisted configuration is a new one after all lines of the text.
pub proof fn law_from_persisted(
    contents: &str,
    default_id: ServerId,
    fresh: Config,
    r: Config,
)
    requires
        call_ensures(Config::new, (default_id,), fresh),
        call_ensures(Config::from_persisted_str, (contents, default_id), r),
    ensures
        r@ == with_lines(fresh@, text_lines(contents@)),
        r@ == persisted_config(contents@, default_id),
{
}

/// What is persisted has a line for the server id, and one for each toggle
/// that says `true` or `false`.
pub proof fn law_persisted_lines(
    config: &Config,
    text: String,
    default_config: &Config,
    contents: Option<&str>,
    new_id: ServerId,
    gate: &mut FirstRunGate,
    force: Option<&str>,
    state: State,
)
    requires
        call_ensures(Config::to_persisted_string, (config,), text),
        call_ensures(resolve_state, (default_config, contents, new_id, gate, force), state),
    ensures
        text@ == lines_of(config@),
        state.persisted@ == lines_of(state.config@),
{
}

/// A line that says whether a toggle is on.
pub open spec fn toggle_line(key: Seq<char>, on: bool) -> Seq<char> {
    key + seq!['='] + (if on {
        "true"@
    } else {
        "false"@
    }) + seq!['\n']
}

/// The lines that a configuration is written as.
pub open spec fn lines_of(config: ConfigView) -> Seq<char> {
    "server_id"@ + seq!['='] + hyphenated(config.server_id.0) + seq!['\n'] + (toggle_line(
        "enabled"@,
        config.enabled,
    ) + (toggle_line("submit_metrics"@, config.submit_metrics) + (toggle_line(
        "error_tracking"@,
        config.error_tracking,
    ) + (toggle_line("additional_metrics"@, config.additional_metrics) + toggle_line(
        "debug"@,
        config.debug,
    )))))
}

/// What was persisted is read back as it was, whatever the default.
pub proof fn law_persisted_reads_back(
    config: &Config,
    text: String,
    contents: &str,
    default_id: ServerId,
    r: Config,
)
    requires
        call_ensures(Config::to_persisted_string, (config,), text),
        contents@ == text@,
        call_ensures(Config::from_persisted_str, (contents, default_id), r),
    ensures
        r@ == config@,
{
}

/// Submission is asked for on a first run exactly by `true`, in any letter
/// case and with white space around it.
pub proof fn law_force_enabled(value: Option<&str>, r: bool)
    requires
        call_ensures(force_enabled_override, (value,), r),
    ensures
        r <==> value is Some && lowered(trimmed(value->0@)) == seq!['t', 'r', 'u', 'e'],
{
    reveal_strlit("true");
    assert(lowered("true"@) =~= seq!['t', 'r', 'u', 'e']);
}

/// A run without a state file is a first one, unless another client of the
/// process has had one, or submission is asked for; and either way no later
/// run of the process is. One with a state file never is, and leaves that
/// open to others.
pub proof fn law_first_run(
    default_config: &Config,
    contents: Option<&str>,
    new_id: ServerId,
    gate: &mut FirstRunGate,
    force: Option<&str>,
    forced: bool,
    r: State,
)
    requires
        call_ensures(force_enabled_override, (force,), forced),
        call_ensures(resolve_state, (default_config, contents, new_id, gate, force), r),
    ensures
        r.is_first_boot <==> contents is None && !old(gate).is_handled() && !forced,
        contents is None ==> final(gate).is_handled(),
        contents is Some ==> final(gate).is_handled() == old(gate).is_handled(),
        contents is Some ==> r.config@ == persisted_config(contents->0@, new_id),
        contents is None ==> r.config@ == (ConfigView { server_id: new_id, ..default_config@ }),
        persisted_config(r.persisted@, ServerId(0)) == r.config@,
{
    assert(persisted_config(r.persisted@, ServerId(0)) == r.config@);
}

/// A new process has been through no first run. The first client is on its
/// first run, unless submission is asked for, and no later one is.
pub proof fn law_only_one_first_run(
    fresh: FirstRunGate,
    gate: &mut FirstRunGate,
    again: &mut FirstRunGate,
    force: Option<&str>,
    forced: bool,
    first: bool,
    second: bool,
)
    requires
        call_ensures(FirstRunGate::new, (), fresh),
        call_ensures(force_enabled_override, (force,), forced),
        call_ensures(resolve_first_boot, (gate, force), first),
        *again == *final(gate),
        call_ensures(resolve_first_boot, (again, force), second),
    ensures
        !fresh.is_handled(),
        first <==> !old(gate).is_handled() && !forced,
        !second,
{
}

/// A state that is loaded is one that can be resolved with a new server id,
/// which is not the one that stands for none.
pub proof fn law_load_or_init(
    default_config: &Config,
    contents: Option<&str>,
    gate: &mut FirstRunGate,
    force: Option<&str>,
    forced: bool,
    r: State,
)
    requires
        call_ensures(force_enabled_override, (force,), forced),
        call_ensures(load_or_init, (default_config, contents, gate, force), r),
    ensures
        r.is_first_boot <==> contents is None && !old(gate).is_handled() && !forced,
        contents is None ==> final(gate).is_handled(),
        contents is Some ==> final(gate).is_handled() == old(gate).is_handled(),
        contents is None ==> r.config@ == (ConfigView {
            server_id: r.config@.server_id,
            ..default_config@
        }) && (r.config@.server_id.0 / 0x1000_0000_0000_0000_0000) % 16 == 4 && (
        r.config@.server_id.0 / 0x4000_0000_0000_0000) % 4 == 2,
        contents is Some ==> exists|id: ServerId|
            r.config@ == #[trigger] persisted_config(contents->0@, id),
        persisted_config(r.persisted@, ServerId(0)) == r.config@,
{
    assert(persisted_config(r.persisted@, ServerId(0)) == r.config@);
}

/// Where state is kept, and what a service waits for.
pub proof fn law_names_and_periods()
    ensures
        crate::client::state::STATE_DIR_ENV@ == "FASTSTATS_STATE_DIR"@,
        crate::client::state::STATE_FILE_NAME@ == "config.properties"@,
        crate::client::state::DEFAULT_STATE_DIR@ == "faststats"@,
        crate::client::state::FORCE_ENABLED_ENV@ == "FASTSTATS_ENABLED"@,
        crate::metrics::service::INITIAL_DELAY_ENV@ == "FASTSTATS_INITIAL_DELAY"@,
        crate::metrics::service::SUBMISSION_PERIOD == 1800,
        crate::error_tracking::service::SUBMISSION_PERIOD == 1800,
        crate::transport::TIMEOUT == 3,
{
}

/// A later run that finds what an earlier one left has the same
/// configuration, the server id included.
pub proof fn law_runs_share_state(
    default_config: &Config,
    other_default: &Config,
    first_id: ServerId,
    second_id: ServerId,
    gate: &mut FirstRunGate,
    later_gate: &mut FirstRunGate,
    force: Option<&str>,
    contents: &str,
    first: State,
    second: State,
)
    requires
        call_ensures(resolve_state, (default_config, None, first_id, gate, force), first),
        contents@ == first.persisted@,
        call_ensures(
            resolve_state,
            (other_default, Some(contents), second_id, later_gate, force),
            second,
        ),
    ensures
        second.config@ == first.config@,
        second.config@.server_id == first_id,
        !second.is_first_boot,
{
}

/// A text is an id exactly if it is not empty and holds small letters,
/// digits and underscores only; an id is that text.
pub proof fn law_id(value: &str, r: Result<Id, Error>)
    requires
        call_ensures(Id::new, (value,), r),
    ensures
        r is Ok <==> value@.len() > 0 && forall|i: int|
            0 <= i < value@.len() ==> {
                ||| 'a' <= #[trigger] value@[i] <= 'z'
                ||| '0' <= value@[i] <= '9'
                ||| value@[i] == '_'
            },
        r is Ok ==> r->Ok_0@ == value@,
        r is Err ==> r->Err_0@ == (ErrorView::Validation {
            kind: "id"@,
            reason: "must match pattern [a-z0-9_]+"@,
        }),
{
    if value@.len() > 0 && (forall|i: int|
        0 <= i < value@.len() ==> {
            ||| 'a' <= #[trigger] value@[i] <= 'z'
            ||| '0' <= value@[i] <= '9'
            ||| value@[i] == '_'
        }) {
        assert forall|i: int| 0 <= i < value@.len() implies crate::validated::id::is_id_char(
            #[trigger] value@[i],
        ) by {}
    }
    if crate::validated::id::is_id(value@) {
        assert forall|i: int| 0 <= i < value@.len() implies {
            ||| 'a' <= #[trigger] value@[i] <= 'z'
            ||| '0' <= value@[i] <= '9'
            ||| value@[i] == '_'
        } by {
            assert(crate::validated::id::is_id_char(value@[i]));
        }
    }
}

/// A text is a token exactly if it has 32 characters, small letters and
/// digits only; a token is that text, and shows nothing of it.
pub proof fn law_token(value: &str, r: Result<Token, Error>)
    requires
        call_ensures(Token::new, (value,), r),
    ensures
        r is Ok <==> value@.len() == 32 && forall|i: int|
            0 <= i < value@.len() ==> {
                ||| 'a' <= #[trigger] value@[i] <= 'z'
                ||| '0' <= value@[i] <= '9'
            },
        r is Ok ==> r->Ok_0@ == value@,
        r is Err ==> r->Err_0@ == (ErrorView::Validation {
            kind: "token"@,
            reason: "must match pattern [a-z0-9]{32}"@,
        }),
{
    if value@.len() == 32 && (forall|i: int|
        0 <= i < value@.len() ==> {
            ||| 'a' <= #[trigger] value@[i] <= 'z'
            ||| '0' <= value@[i] <= '9'
        }) {
        assert forall|i: int| 0 <= i < value@.len() implies crate::validated::token::is_token_char(
            #[trigger] value@[i],
        ) by {}
    }
    if crate::validated::token::is_token(value@) {
        assert forall|i: int| 0 <= i < value@.len() implies {
            ||| 'a' <= #[trigger] value@[i] <= 'z'
            ||| '0' <= value@[i] <= '9'
        } by {
            assert(crate::validated::token::is_token_char(value@[i]));
        }
    }
}

/// Two tokens look the same in a log, whatever they are.
pub proof fn law_tokens_are_not_told_apart(a: &Token, b: &Token, x: String, y: String)
    requires
        call_ensures(Token::text, (a,), x),
        call_ensures(Token::text, (b,), y),
    ensures
        x@ == y@,
        x@ == "Token(***)"@,
{
}

/// SDK information is refused exactly if one of its texts is blank, and holds
/// its texts otherwise.
pub proof fn law_sdk_info(name: &str, version: &str, agent: &str, r: Result<SdkInfo, Error>)
    requires
        call_ensures(SdkInfo::new, (name, version, agent), r),
    ensures
        r is Err <==> is_blank(name@) || is_blank(version@) || is_blank(agent@),
        r is Ok ==> r->Ok_0@.name == name@ && r->Ok_0@.version == version@ && r->Ok_0@.user_agent
            == agent@,
        is_blank(name@) ==> r is Err && r->Err_0@ == blank_error("sdk_info.name"@),
        !is_blank(name@) && is_blank(version@) ==> r is Err && r->Err_0@ == blank_error(
            "sdk_info.version"@,
        ),
        !is_blank(name@) && !is_blank(version@) && is_blank(agent@) ==> r is Err && r->Err_0@
            == blank_error("sdk_info.user_agent"@),
{
}

/// The error for a blank text of this kind.
pub open spec fn blank_error(kind: Seq<char>) -> ErrorView {
    ErrorView::Validation { kind, reason: "must not be blank"@ }
}

/// The value of a hexadecimal digit.
pub open spec fn hex_value(c: char) -> int {
    if '0' <= c <= '9' {
        c as u32 - 48
    } else {
        c as u32 - 87
    }
}

/// The number that hexadecimal digits stand for.
pub open spec fn hex_number(s: Seq<char>) -> int
    decreases s.len(),
{
    if s.len() == 0 {
        0
    } else {
        hex_number(s.drop_last()) * 16 + hex_value(s.last())
    }
}

/// The digits of a number stand for it, if there are enough of them.
pub proof fn law_hex_digits(n: nat, len: nat)
    requires
        n < vstd::arithmetic::power::pow(16, len),
    ensures
        hex_digits(n, len).len() == len,
        hex_number(hex_digits(n, len)) == n,
    decreases len,
{
    vstd::arithmetic::power::lemma_pow0(16);
    if len > 0 {
        vstd::arithmetic::power::lemma_pow1(16);
        vstd::arithmetic::power::lemma_pow_adds(16, (len - 1) as nat, 1);
        let rest = (len - 1) as nat;
        assert(vstd::arithmetic::power::pow(16, len) == vstd::arithmetic::power::pow(16, rest)
            * 16);
        assert(n / 16 < vstd::arithmetic::power::pow(16, rest));
        law_hex_digits(n / 16, rest);
        assert(hex_digits(n, len).drop_last() =~= hex_digits(n / 16, rest));
        assert(hex_value(hex_digit(n % 16)) == n % 16);
    }
}

/// The text of a server id has 36 characters, hyphens at four places, and is
/// read back.
pub proof fn law_server_id_text(id: &ServerId, text: String, again: &str, r: Option<ServerId>)
    requires
        call_ensures(ServerId::text, (id,), text),
        again@ == text@,
        call_ensures(ServerId::parse, (again,), r),
    ensures
        r == Some(*id),
        text@.len() == 36,
        text@[8] == '-' && text@[13] == '-' && text@[18] == '-' && text@[23] == '-',
        text@ == hyphenated(id.0),
        text@.subrange(0, 8) + text@.subrange(9, 13) + text@.subrange(14, 18) + text@.subrange(
            19,
            23,
        ) + text@.subrange(24, 36) == hex_digits(id.0 as nat, 32),
{
    crate::domain::server_id::lemma_hyphenated(id.0);
    lemma_hex_len(id.0 as nat, 32);
}

proof fn lemma_hex_len(n: nat, len: nat)
    ensures
        hex_digits(n, len).len() == len,
    decreases len,
{
    if len > 0 {
        lemma_hex_len(n / 16, (len - 1) as nat);
    }
}

} // verus!
