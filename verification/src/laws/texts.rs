//! Laws of texts: white space, lines, letters and numbers.

use vstd::prelude::*;

use crate::text::{
    blank, clone_strings, decimal, decimal_text, digit, digits_value, equal, equal_ignoring_case,
    is_blank, is_digits, is_white_space, lemma_position, lemma_position_is, lemma_trimmed_blank,
    lines, lowered, parse_u64, position, split_once, texts, to_lower, trim, trimmed, trimmed_end,
    trimmed_start, white_space, without_plus,
};

verus! {

/// White space is what Unicode calls so: these 25 characters, and no other.
pub proof fn law_white_space(c: char, r: bool)
    requires
        call_ensures(white_space, (c,), r),
    ensures
        r <==> {
            let code = c as u32;
            ||| 9 <= code <= 13
            ||| code == 32
            ||| code == 133
            ||| code == 160
            ||| code == 5760
            ||| 8192 <= code <= 8202
            ||| code == 8232
            ||| code == 8233
            ||| code == 8239
            ||| code == 8287
            ||| code == 12288
        },
        r == is_white_space(c),
{
}

proof fn lemma_trimmed_start(s: Seq<char>)
    ensures
        ({
            let kept = trimmed_start(s);
            let n = s.len() - kept.len();
            &&& 0 <= n
            &&& kept == s.skip(n)
            &&& is_blank(s.take(n))
            &&& kept.len() > 0 ==> !is_white_space(kept[0])
        }),
    decreases s.len(),
{
    if s.len() > 0 && is_white_space(s[0]) {
        let rest = s.drop_first();
        lemma_trimmed_start(rest);
        let kept = trimmed_start(s);
        let n = s.len() - kept.len();
        assert(rest.skip(n - 1) =~= s.skip(n));
        assert forall|i: int| 0 <= i < n implies is_white_space(#[trigger] s.take(n)[i]) by {
            if i > 0 {
                assert(rest.take(n - 1)[i - 1] == s[i]);
            }
        }
    } else {
        assert(s.skip(0) =~= s);
    }
}

proof fn lemma_trimmed_end(s: Seq<char>)
    ensures
        ({
            let kept = trimmed_end(s);
            &&& kept.len() <= s.len()
            &&& kept == s.take(kept.len() as int)
            &&& is_blank(s.skip(kept.len() as int))
            &&& kept.len() > 0 ==> !is_white_space(kept.last())
        }),
    decreases s.len(),
{
    if s.len() > 0 && is_white_space(s.last()) {
        let rest = s.drop_last();
        lemma_trimmed_end(rest);
        let kept = trimmed_end(s);
        let n = kept.len() as int;
        assert(rest.take(n) =~= s.take(n));
        assert forall|i: int| 0 <= i < s.len() - n implies is_white_space(
            #[trigger] s.skip(n)[i],
        ) by {
            if i < s.len() - n - 1 {
                assert(rest.skip(n)[i] == s.skip(n)[i]);
            } else {
                assert(s.skip(n)[i] == s.last());
            }
        }
    } else {
        assert(s.take(s.len() as int) =~= s);
    }
}

/// Trimming takes away white space at both ends, all of it, and nothing
/// else: what is left stands in the text with nothing but white space before
/// and after it, and neither starts nor ends with any.
pub proof fn law_trim(s: &str, r: String)
    requires
        call_ensures(trim, (s,), r),
    ensures
        exists|before: Seq<char>, after: Seq<char>|
            is_blank(before) && is_blank(after) && s@ == #[trigger] (before + r@ + after),
        r@.len() > 0 ==> !is_white_space(r@[0]) && !is_white_space(r@.last()),
        r@ == trimmed(s@),
{
    let start = trimmed_start(s@);
    lemma_trimmed_start(s@);
    lemma_trimmed_end(start);
    let n = s@.len() - start.len();
    let before = s@.take(n);
    let after = start.skip(r@.len() as int);
    assert(s@ =~= before + r@ + after);
    if r@.len() > 0 {
        assert(r@[0] == start[0]);
    }
}

/// A text is blank exactly if all of its characters are white space, and
/// then nothing is left of it when it is trimmed.
pub proof fn law_blank(s: &str, r: bool, left: String)
    requires
        call_ensures(blank, (s,), r),
        call_ensures(trim, (s,), left),
    ensures
        r <==> left@.len() == 0,
        r <==> forall|i: int| 0 <= i < s@.len() ==> is_white_space(#[trigger] s@[i]),
        r == is_blank(s@),
{
    lemma_trimmed_blank(s@);
}

/// A text is split at the first separator: the separator does not stand
/// before that place, and nothing is lost. A text without it is not split.
pub proof fn law_split_once(s: &str, c: char, r: Option<(String, String)>)
    requires
        call_ensures(split_once, (s, c), r),
    ensures
        r is Some <==> s@.contains(c),
        match r {
            Some((before, after)) => !before@.contains(c) && s@ == before@ + seq![c] + after@,
            None => true,
        },
{
    lemma_position(s@, c);
    let at = position(s@, c);
    if at < s@.len() {
        assert(s@[at] == c);
        assert(s@ =~= s@.take(at) + seq![c] + s@.skip(at + 1));
        assert forall|i: int| 0 <= i < at implies s@.take(at)[i] != c by {
            assert(s@[i] != c);
        }
    } else {
        assert forall|i: int| 0 <= i < s@.len() implies s@[i] != c by {}
    }
}

/// The first line ends at the first newline, without a carriage return right
/// before that; the lines after it are those of what follows. A last line
/// needs no newline, and keeps a carriage return.
pub proof fn law_lines(
    whole: &str,
    rest: &str,
    line: Seq<char>,
    r: Vec<String>,
    others: Vec<String>,
)
    requires
        call_ensures(lines, (whole,), r),
        call_ensures(lines, (rest,), others),
        !line.contains('\n'),
    ensures
        whole@ == line + seq!['\n'] + rest@ && (line.len() == 0 || line.last() != '\r') ==> texts(
            r@,
        ) == seq![line] + texts(others@),
        whole@ == line + seq!['\n'] + rest@ && line.len() > 0 && line.last() == '\r' ==> texts(r@)
            == seq![line.drop_last()] + texts(others@),
        whole@ == line && line.len() > 0 ==> texts(r@) == seq![line],
        whole@.len() == 0 ==> r@.len() == 0,
{
    assert forall|i: int| 0 <= i < line.len() implies line[i] != '\n' by {}
    if whole@ == line + seq!['\n'] + rest@ {
        let n = line.len() as int;
        assert forall|i: int| 0 <= i < n implies whole@[i] != '\n' by {
            assert(whole@[i] == line[i]);
        }
        assert(whole@[n] == '\n');
        lemma_position_is(whole@, '\n', n);
        assert(whole@.take(n) =~= line);
        assert(whole@.skip(n + 1) =~= rest@);
    }
    if whole@ == line && line.len() > 0 {
        lemma_position_is(whole@, '\n', line.len() as int);
    }
    assert(texts(r@).len() == r@.len());
}

/// Only the letters from A to Z change, each to its small letter; every
/// other character stays, and so does the length.
pub proof fn law_to_lower(s: &str, r: String, i: int)
    requires
        call_ensures(to_lower, (s,), r),
        0 <= i < s@.len(),
    ensures
        r@.len() == s@.len(),
        65 <= s@[i] as u32 <= 90 ==> r@[i] as u32 == s@[i] as u32 + 32,
        !(65 <= s@[i] as u32 <= 90) ==> r@[i] == s@[i],
        r@ == lowered(s@),
{
}

/// Two texts are equal but for the case of ASCII letters exactly if they are
/// equal in small letters.
pub proof fn law_equal_ignoring_case(a: &str, b: &str, r: bool, low_a: String, low_b: String)
    requires
        call_ensures(equal_ignoring_case, (a, b), r),
        call_ensures(to_lower, (a,), low_a),
        call_ensures(to_lower, (b,), low_b),
    ensures
        r <==> low_a@ == low_b@,
{
}

/// Texts are compared character by character.
pub proof fn law_equal(a: &str, b: &str, r: bool)
    requires
        call_ensures(equal, (a, b), r),
    ensures
        r <==> a@.len() == b@.len() && forall|i: int|
            0 <= i < a@.len() ==> #[trigger] a@[i] == b@[i],
{
    if a@.len() == b@.len() && (forall|i: int| 0 <= i < a@.len() ==> #[trigger] a@[i] == b@[i]) {
        assert(a@ =~= b@);
    }
}

/// A digit more makes the number ten times as large, and adds the digit.
pub proof fn law_digits_value(s: Seq<char>, d: nat)
    requires
        d < 10,
    ensures
        digits_value(Seq::empty()) == 0,
        digits_value(s.push(digit(d))) == 10 * digits_value(s) + d,
        digit(d) as u32 == 48 + d,
{
    assert(s.push(digit(d)).drop_last() =~= s);
}

/// The decimal form of a number is made of digits, stands for that number,
/// and starts with a zero only if that is all of it.
pub proof fn law_decimal(n: nat)
    ensures
        is_digits(decimal_text(n)),
        digits_value(decimal_text(n)) == n,
        decimal_text(n)[0] == '0' ==> n == 0 && decimal_text(n).len() == 1,
    decreases n,
{
    if n < 10 {
        law_digits_value(Seq::empty(), n);
        assert(seq![digit(n)] =~= Seq::<char>::empty().push(digit(n)));
    } else {
        law_decimal(n / 10);
        law_digits_value(decimal_text(n / 10), n % 10);
        let s = decimal_text(n);
        assert forall|i: int| 0 <= i < s.len() implies '0' <= #[trigger] s[i] <= '9' by {
            if i < s.len() - 1 {
                assert(s[i] == decimal_text(n / 10)[i]);
            }
        }
        assert(s[0] == decimal_text(n / 10)[0]);
    }
}

/// The same holds of what [`decimal`] returns.
pub proof fn law_decimal_of(n: u64, s: String)
    requires
        call_ensures(decimal, (n,), s),
    ensures
        digits_value(s@) == n,
        is_digits(s@),
        s@ == decimal_text(n as nat),
{
    law_decimal(n as nat);
}

/// A number is read exactly from one or more digits, with or without one
/// plus sign before them, as long as it fits into 64 bits.
pub proof fn law_parse_u64(s: &str, r: Option<u64>, digits: Seq<char>)
    requires
        call_ensures(parse_u64, (s,), r),
        s@ == digits || s@ == seq!['+'] + digits,
        digits.len() == 0 || digits[0] != '+',
    ensures
        r is Some <==> digits.len() > 0 && (forall|i: int|
            0 <= i < digits.len() ==> '0' <= #[trigger] digits[i] <= '9') && digits_value(digits)
            <= 0xffff_ffff_ffff_ffff,
        r is Some ==> r->0 == digits_value(digits),
{
    if s@ == seq!['+'] + digits {
        assert(s@.skip(1) =~= digits);
    }
    assert(without_plus(s@) == digits);
}

/// A number is read back from its decimal form.
pub proof fn law_numbers_read_back(n: u64, text: &str, r: Option<u64>)
    requires
        text@ == decimal_text(n as nat) || text@ == seq!['+'] + decimal_text(n as nat),
        call_ensures(parse_u64, (text,), r),
    ensures
        r == Some(n),
{
    law_decimal(n as nat);
    assert('0' <= decimal_text(n as nat)[0]);
    law_parse_u64(text, r, decimal_text(n as nat));
}

/// Copies of strings hold the same texts, in the same order.
pub proof fn law_clone_strings(strings: &Vec<String>, r: Vec<String>)
    requires
        call_ensures(clone_strings, (strings,), r),
    ensures
        r@.len() == strings@.len(),
        forall|i: int| 0 <= i < r@.len() ==> (#[trigger] r@[i])@ == strings@[i]@,
{
    assert(texts(r@).len() == texts(strings@).len());
    assert forall|i: int| 0 <= i < r@.len() implies (#[trigger] r@[i])@ == strings@[i]@ by {
        assert(texts(r@)[i] == texts(strings@)[i]);
    }
}

} // verus!
