//! Sanitization of file, directory and project names, and decimal
//! rendering of counters for generated identifiers.

use vstd::prelude::*;

verus! {

/// Relies on `String::push`: appends exactly one character at the end.
#[verifier::external_body]
pub(crate) fn push_char(s: &mut String, c: char)
    ensures
        final(s)@ == old(s)@.push(c),
{
    s.push(c);
}

/// Whether `char::is_alphanumeric` holds of the character; the Unicode
/// tables behind it are not restated here.
pub uninterp spec fn is_alphanumeric_char(c: char) -> bool;

/// Relies on `char::is_alphanumeric`: a pure function of the character;
/// ASCII letters and digits are alphanumeric, while the ASCII space,
/// underscore and hyphen are not.
#[verifier::external_body]
pub(crate) fn char_is_alphanumeric(c: char) -> (r: bool)
    ensures
        r == is_alphanumeric_char(c),
        ('a' <= c && c <= 'z') || ('A' <= c && c <= 'Z') || ('0' <= c && c <= '9') ==> r,
        c == ' ' || c == '_' || c == '-' ==> !r,
{
    c.is_alphanumeric()
}

/// The space replacement applied before filtering.
pub open spec fn spec_space_to_underscore(c: char) -> char {
    if c == ' ' { '_' } else { c }
}

/// Characters stripped from file and directory names.
pub open spec fn spec_filename_forbidden(c: char) -> bool {
    c == '/' || c == '\\' || c == ':' || c == '*' || c == '?'
        || c == '"' || c == '<' || c == '>' || c == '|'
}

/// The sanitized form of a file or directory name: spaces become
/// underscores and forbidden characters are dropped.
pub open spec fn spec_sanitize_filename(s: Seq<char>) -> Seq<char>
    decreases s.len(),
{
    if s.len() == 0 {
        Seq::empty()
    } else {
        let c = spec_space_to_underscore(s.last());
        let prefix = spec_sanitize_filename(s.drop_last());
        if spec_filename_forbidden(c) { prefix } else { prefix.push(c) }
    }
}

/// Replaces spaces with underscores and strips the characters
/// `/ \ : * ? " < > |`.
pub fn sanitize_filename(name: &str) -> (r: String)
    ensures
        r@ == spec_sanitize_filename(name@),
{
    let n = name.unicode_len();
    let mut out = String::new();
    let mut i: usize = 0;
    while i < n
        invariant
            n == name@.len(),
            i <= n,
            out@ == spec_sanitize_filename(name@.take(i as int)),
        decreases n - i,
    {
        let c0 = name.get_char(i);
        let c = if c0 == ' ' { '_' } else { c0 };
        let forbidden = c == '/' || c == '\\' || c == ':' || c == '*' || c == '?'
            || c == '"' || c == '<' || c == '>' || c == '|';
        if !forbidden {
            push_char(&mut out, c);
        }
        i = i + 1;
        proof {
            let pre = name@.take(i as int);
            assert(pre.drop_last() =~= name@.take(i - 1));
            assert(pre.last() == name@[i - 1]);
        }
    }
    proof {
        assert(name@.take(n as int) =~= name@);
    }
    out
}

/// The sanitized form of a project name: spaces become underscores and
/// only alphanumerics, underscores and hyphens are kept.
pub open spec fn spec_sanitize_name(s: Seq<char>) -> Seq<char>
    decreases s.len(),
{
    if s.len() == 0 {
        Seq::empty()
    } else {
        let c = spec_space_to_underscore(s.last());
        let prefix = spec_sanitize_name(s.drop_last());
        if is_alphanumeric_char(c) || c == '_' || c == '-' { prefix.push(c) } else { prefix }
    }
}

/// Replaces spaces with underscores and keeps only alphanumeric
/// characters, underscores and hyphens.
pub fn sanitize_name(name: &str) -> (r: String)
    ensures
        r@ == spec_sanitize_name(name@),
{
    let n = name.unicode_len();
    let mut out = String::new();
    let mut i: usize = 0;
    while i < n
        invariant
            n == name@.len(),
            i <= n,
            out@ == spec_sanitize_name(name@.take(i as int)),
        decreases n - i,
    {
        let c0 = name.get_char(i);
        let c = if c0 == ' ' { '_' } else { c0 };
        if char_is_alphanumeric(c) || c == '_' || c == '-' {
            push_char(&mut out, c);
        }
        i = i + 1;
        proof {
            let pre = name@.take(i as int);
            assert(pre.drop_last() =~= name@.take(i - 1));
            assert(pre.last() == name@[i - 1]);
        }
    }
    proof {
        assert(name@.take(n as int) =~= name@);
    }
    out
}

/// The character for one decimal digit.
pub open spec fn spec_digit_char(d: nat) -> char {
    ((48 + d) as u8) as char
}

/// The decimal digits of a number, most significant first.
pub open spec fn spec_decimal_digits(n: nat) -> Seq<char>
    decreases n,
{
    if n < 10 {
        seq![spec_digit_char(n)]
    } else {
        spec_decimal_digits(n / 10).push(spec_digit_char(n % 10))
    }
}

/// Appends the decimal digits of `n` to `s`.
pub fn push_u64_decimal(s: &mut String, n: u64)
    ensures
        final(s)@ == old(s)@ + spec_decimal_digits(n as nat),
    decreases n,
{
    let d: u8 = 48 + (n % 10) as u8;
    if n >= 10 {
        push_u64_decimal(s, n / 10);
        let ghost mid = old(s)@ + spec_decimal_digits((n / 10) as nat);
        push_char(s, d as char);
        proof {
            assert(mid.push(spec_digit_char((n % 10) as nat))
                =~= old(s)@ + spec_decimal_digits((n / 10) as nat).push(spec_digit_char((n % 10) as nat)));
        }
    } else {
        push_char(s, d as char);
        proof {
            assert(old(s)@.push(spec_digit_char(n as nat)) =~= old(s)@ + seq![spec_digit_char(n as nat)]);
        }
    }
}

/// Renders a number in decimal.
pub fn u64_to_decimal(n: u64) -> (r: String)
    ensures
        r@ == spec_decimal_digits(n as nat),
{
    let mut s = String::new();
    push_u64_decimal(&mut s, n);
    proof {
        assert(Seq::<char>::empty() + spec_decimal_digits(n as nat) =~= spec_decimal_digits(n as nat));
    }
    s
}

} // verus!
