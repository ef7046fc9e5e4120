//! Laws of anonymization: the order of the patterns, and what each does.

use vstd::prelude::*;

use crate::error_tracking::helper::{
    anonymize, anonymize_username, current_username, redact_ipv6, redact_password_attribute,
    rule_texts, without_extras,
};
use crate::regexes::{
    escaped, is_meta, redact, redacted, regex_error, regex_is_match, regex_replace_all, Pattern,
};
use crate::text::{is_blank, lowered, opt_text};

verus! {

/// Every match of a regular expression is replaced; what is no regular
/// expression replaces nothing.
pub proof fn law_redact(pattern: &str, text: &str, replacement: &str, r: String)
    requires
        call_ensures(redact, (pattern, text, replacement), r),
    ensures
        regex_error(pattern@) is None ==> r@ == regex_replace_all(
            pattern@,
            text@,
            replacement@,
        ),
        regex_error(pattern@) is Some ==> r@ == text@,
        r@ == redacted(pattern@, text@, replacement@),
{
}

/// A pattern is accepted exactly if it is a regular expression, matches what
/// that matches, and is refused with the reason otherwise.
pub proof fn law_pattern(source: &str, r: Result<Pattern, crate::error::Error>)
    requires
        call_ensures(Pattern::new, (source,), r),
    ensures
        r is Ok <==> regex_error(source@) is None,
        r is Ok ==> r->Ok_0@ == source@,
        r is Err ==> r->Err_0@ == (crate::error::ErrorView::Validation {
            kind: "pattern"@,
            reason: regex_error(source@)->0,
        }),
{
}

/// A pattern matches a text exactly if its regular expression does.
pub proof fn law_pattern_matches(pattern: &Pattern, text: &str, r: bool)
    requires
        call_ensures(Pattern::is_match, (pattern, text), r),
    ensures
        r == regex_is_match(pattern@, text@),
{
}

/// The special characters, by their codes, have a backslash before them once
/// a text is escaped; all others stand for themselves.
pub proof fn law_escape(text: Seq<char>, c: char)
    ensures
        escaped(Seq::empty()) == Seq::<char>::empty(),
        is_meta(c) ==> escaped(text.push(c)) == escaped(text) + seq!['\\', c],
        !is_meta(c) ==> escaped(text.push(c)) == escaped(text).push(c),
        is_meta(c) <==> {
            let code = c as u32;
            ||| code == 35
            ||| code == 36
            ||| code == 38
            ||| 40 <= code <= 43
            ||| code == 45
            ||| code == 46
            ||| code == 63
            ||| 91 <= code <= 94
            ||| 123 <= code <= 126
        },
{
    assert(text.push(c).drop_last() =~= text);
    if is_meta(c) {
        assert(escaped(text.push(c)) =~= escaped(text) + seq!['\\', c]);
    }
}

/// One more registered pattern is applied to what is left after the others,
/// whatever these are.
pub proof fn law_every_pattern_is_applied(
    text: &str,
    patterns: &[(Pattern, &str)],
    more: &[(Pattern, &str)],
    rule: (Pattern, &str),
    r: String,
    r_more: String,
)
    requires
        call_ensures(anonymize, (text, patterns, None), r),
        call_ensures(anonymize, (text, more, None), r_more),
        more@ == patterns@.push(rule),
    ensures
        r_more@ == redacted(rule.0@, r@, rule.1@),
{
    assert(rule_texts(more@) =~= rule_texts(patterns@).push((rule.0@, rule.1@)));
    assert(rule_texts(more@).drop_last() =~= rule_texts(patterns@));
}

/// The patterns of two lists, one behind the other, are applied one list
/// after the other.
pub proof fn law_patterns_apply_in_turn(
    text: Seq<char>,
    a: Seq<(Seq<char>, Seq<char>)>,
    b: Seq<(Seq<char>, Seq<char>)>,
)
    ensures
        without_extras(text, a + b) == without_extras(without_extras(text, a), b),
    decreases b.len(),
{
    if b.len() == 0 {
        assert(a + b =~= a);
    } else {
        law_patterns_apply_in_turn(text, a, b.drop_last());
        assert((a + b).drop_last() =~= a + b.drop_last());
    }
}

/// One pattern replaces its matches; none changes nothing.
pub proof fn law_one_pattern(text: Seq<char>, pattern: Seq<char>, replacement: Seq<char>)
    ensures
        without_extras(text, seq![(pattern, replacement)]) == redacted(pattern, text, replacement),
        without_extras(text, Seq::empty()) == text,
{
    let rules = seq![(pattern, replacement)];
    reveal_with_fuel(without_extras, 2);
    assert(rules.drop_last() =~= Seq::empty());
}

/// Without registered patterns and a username, a text goes through the
/// built-in patterns: IPv6 addresses twice, since a match takes the
/// characters around it, then IPv4 addresses, home directories, webhooks and
/// passwords.
pub proof fn law_built_in_patterns(text: &str, r: String)
    requires
        call_ensures(anonymize, (text, &[], None), r),
    ensures
        ({
            let v6 =
                r"(^|[^0-9a-fA-F:])(?:[0-9a-fA-F]{1,4}:){7}[0-9a-fA-F]{1,4}($|[^0-9a-fA-F:])"@;
            let v4 = r"\b(?:(?:25[0-5]|2[0-4]\d|1?\d?\d)\.){3}(?:25[0-5]|2[0-4]\d|1?\d?\d)\b"@;
            let home = r"(/home/|/Users/|C:\\Users\\)[^/\\\s]+"@;
            let webhook = r"https://discord(?:app)?\.com/api/webhooks/\d+/[\w-]+"@;
            let password = r"(?i)(password=)[^&;\s]+"@;
            let step1 = redacted(v6, text@, "${1}[ipv6]${2}"@);
            let step2 = redacted(v6, step1, "${1}[ipv6]${2}"@);
            let step3 = redacted(v4, step2, "[ipv4]"@);
            let step4 = redacted(home, step3, "${1}[home]"@);
            let step5 = redacted(webhook, step4, "[discord_webhook]"@);
            r@ == redacted(password, step5, "${1}[password]"@)
        }),
{
    let empty: &[(Pattern, &str)] = &[];
    assert(rule_texts(empty@) =~= Seq::empty());
}

/// IPv6 addresses are redacted in two passes, and passwords in one.
pub proof fn law_single_redactions(text: &str, r: String, q: String)
    requires
        call_ensures(redact_ipv6, (text,), r),
        call_ensures(redact_password_attribute, (text,), q),
    ensures
        ({
            let v6 =
                r"(^|[^0-9a-fA-F:])(?:[0-9a-fA-F]{1,4}:){7}[0-9a-fA-F]{1,4}($|[^0-9a-fA-F:])"@;
            r@ == redacted(v6, redacted(v6, text@, "${1}[ipv6]${2}"@), "${1}[ipv6]${2}"@)
        }),
        q@ == redacted(r"(?i)(password=)[^&;\s]+"@, text@, "${1}[password]"@),
{
}

/// Whether a name is one that many installations share.
pub open spec fn is_shared_name(name: Seq<char>) -> bool {
    ||| lowered(name) == seq!['r', 'o', 'o', 't']
    ||| lowered(name) == seq!['u', 'b', 'u', 'n', 't', 'u']
    ||| lowered(name) == seq!['s', 'e', 'r', 'v', 'e', 'r']
    ||| lowered(name) == seq!['e', 'c', '2', '-', 'u', 's', 'e', 'r']
    ||| lowered(name) == seq!['a', 'd', 'm', 'i', 'n']
    ||| lowered(name) == seq!['u', 's', 'e', 'r']
}

/// The username is scrubbed last, in any letter case and taken literally,
/// unless it is empty or one that many installations share; whatever the
/// registered patterns are.
pub proof fn law_username_is_scrubbed_last(
    text: &str,
    patterns: &[(Pattern, &str)],
    name: &str,
    without: String,
    with: String,
)
    requires
        call_ensures(anonymize, (text, patterns, None), without),
        call_ensures(anonymize, (text, patterns, Some(name)), with),
    ensures
        name@.len() > 0 && !is_shared_name(name@) ==> with@ == redacted(
            seq!['(', '?', 'i', ')'] + escaped(name@),
            without@,
            "[user]"@,
        ),
        name@.len() == 0 || is_shared_name(name@) ==> with@ == without@,
{
    lemma_shared_names(name@);
    reveal_strlit("(?i)");
    assert("(?i)"@ =~= seq!['(', '?', 'i', ')']);
}

proof fn lemma_shared_names(name: Seq<char>)
    ensures
        is_shared_name(name) == crate::error_tracking::helper::is_generic_username(name),
{
    reveal_strlit("root");
    reveal_strlit("ubuntu");
    reveal_strlit("server");
    reveal_strlit("ec2-user");
    reveal_strlit("admin");
    reveal_strlit("user");
    assert(lowered("root"@) =~= seq!['r', 'o', 'o', 't']);
    assert(lowered("ubuntu"@) =~= seq!['u', 'b', 'u', 'n', 't', 'u']);
    assert(lowered("server"@) =~= seq!['s', 'e', 'r', 'v', 'e', 'r']);
    assert(lowered("ec2-user"@) =~= seq!['e', 'c', '2', '-', 'u', 's', 'e', 'r']);
    assert(lowered("admin"@) =~= seq!['a', 'd', 'm', 'i', 'n']);
    assert(lowered("user"@) =~= seq!['u', 's', 'e', 'r']);
}

/// Scrubbing a username alone does the same.
pub proof fn law_anonymize_username(text: &str, name: &str, r: String, untouched: String)
    requires
        call_ensures(anonymize_username, (text, Some(name)), r),
        call_ensures(anonymize_username, (text, None), untouched),
    ensures
        untouched@ == text@,
        name@.len() > 0 && !is_shared_name(name@) ==> r@ == redacted(
            seq!['(', '?', 'i', ')'] + escaped(name@),
            text@,
            "[user]"@,
        ),
        name@.len() == 0 || is_shared_name(name@) ==> r@ == text@,
{
    lemma_shared_names(name@);
    reveal_strlit("(?i)");
    assert("(?i)"@ =~= seq!['(', '?', 'i', ')']);
}

/// The username is the first of the two variables that is set; a blank one
/// counts as none, and does not let the second one take its place.
pub proof fn law_current_username(user: Option<String>, username: Option<String>, r: Option<String>)
    requires
        call_ensures(current_username, (user, username), r),
    ensures
        user is Some && !is_blank(user->0@) ==> opt_text(r) == Some(user->0@),
        user is Some && is_blank(user->0@) ==> r is None,
        user is None && username is Some && !is_blank(username->0@) ==> opt_text(r) == Some(
            username->0@,
        ),
        user is None && username is Some && is_blank(username->0@) ==> r is None,
        user is None && username is None ==> r is None,
{
}

} // verus!
