//! Characters and strings: classes, escape tables, trimming, and
//! numeric reading.
//!
//! Everything a primitive matcher or a value transform asks about a
//! character or a string is defined here, each executable function
//! against its own specification function.

use vstd::prelude::*;

verus! {

broadcast use vstd::seq::group_seq_axioms;

/// Relies on `String::push`: appends one character to the string.
#[verifier::external_body]
pub(crate) fn push_char(s: &mut String, c: char) -> (r: ())
    ensures
        final(s)@ == old(s)@.push(c),
{
    s.push(c);
}

/// A `String` holding exactly the characters of `v`.
pub fn chars_to_string(v: &Vec<char>) -> (s: String)
    ensures
        s@ == v@,
{
    let mut s = String::new();
    let mut i: usize = 0;
    while i < v.len()
        invariant
            0 <= i <= v@.len(),
            s@ == v@.take(i as int),
        decreases v@.len() - i,
    {
        push_char(&mut s, v[i]);
        proof {
            assert(s@ =~= v@.take(i + 1));
        }
        i = i + 1;
    }
    proof {
        assert(s@ =~= v@);
    }
    s
}

/// A `String` holding the single character `c`.
pub fn char_to_string(c: char) -> (s: String)
    ensures
        s@ == seq![c],
{
    let mut s = String::new();
    push_char(&mut s, c);
    proof {
        assert(s@ =~= seq![c]);
    }
    s
}

/// Whether `c` occurs in `s`.
pub fn str_contains_char(s: &str, c: char) -> (r: bool)
    ensures
        r == s@.contains(c),
{
    let n = s.unicode_len();
    let mut i: usize = 0;
    while i < n
        invariant
            n == s@.len(),
            0 <= i <= n,
            forall|j: int| 0 <= j < i ==> s@[j] != c,
        decreases n - i,
    {
        if s.get_char(i) == c {
            return true;
        }
        i = i + 1;
    }
    assert(!s@.contains(c));
    false
}

/// A character class that a predicate matcher can test.
#[derive(Clone, Copy, PartialEq, Eq, Structural, Debug)]
pub enum CharClass {
    /// Space, tab, newline, carriage return, vertical tab or form feed.
    Whitespace,
    /// `0` to `9`.
    Digit,
    /// A decimal digit, `a` to `f` or `A` to `F`.
    HexDigit,
    /// `0` to `7`.
    OctDigit,
    /// `a` to `z`.
    Lower,
    /// `A` to `Z`.
    Upper,
    /// A lower or upper case letter.
    Alpha,
    /// A letter or a decimal digit.
    AlphaNum,
}

pub open spec fn is_space_char(c: char) -> bool {
    c == ' ' || c == '\t' || c == '\n' || c == '\r' || c == '\u{B}' || c == '\u{C}'
}

pub open spec fn is_digit_char(c: char) -> bool {
    '0' <= c <= '9'
}

pub open spec fn is_lower_char(c: char) -> bool {
    'a' <= c <= 'z'
}

pub open spec fn is_upper_char(c: char) -> bool {
    'A' <= c <= 'Z'
}

pub open spec fn is_alpha_char(c: char) -> bool {
    is_lower_char(c) || is_upper_char(c)
}

pub open spec fn is_alnum_char(c: char) -> bool {
    is_alpha_char(c) || is_digit_char(c)
}

/// Whether `c` belongs to the class `k`.
pub open spec fn class_matches(k: CharClass, c: char) -> bool {
    match k {
        CharClass::Whitespace => is_space_char(c),
        CharClass::Digit => is_digit_char(c),
        CharClass::HexDigit => is_digit_char(c) || ('a' <= c <= 'f') || ('A' <= c <= 'F'),
        CharClass::OctDigit => '0' <= c <= '7',
        CharClass::Lower => is_lower_char(c),
        CharClass::Upper => is_upper_char(c),
        CharClass::Alpha => is_alpha_char(c),
        CharClass::AlphaNum => is_alnum_char(c),
    }
}

/// Test `c` against the class `k`.
pub fn class_test(k: CharClass, c: char) -> (r: bool)
    ensures
        r == class_matches(k, c),
{
    match k {
        CharClass::Whitespace => c == ' ' || c == '\t' || c == '\n' || c == '\r' || c == '\u{B}'
            || c == '\u{C}',
        CharClass::Digit => '0' <= c && c <= '9',
        CharClass::HexDigit => ('0' <= c && c <= '9') || ('a' <= c && c <= 'f') || ('A' <= c && c
            <= 'F'),
        CharClass::OctDigit => '0' <= c && c <= '7',
        CharClass::Lower => 'a' <= c && c <= 'z',
        CharClass::Upper => 'A' <= c && c <= 'Z',
        CharClass::Alpha => ('a' <= c && c <= 'z') || ('A' <= c && c <= 'Z'),
        CharClass::AlphaNum => ('a' <= c && c <= 'z') || ('A' <= c && c <= 'Z') || ('0' <= c && c
            <= '9'),
    }
}

/// Which characters an escape pass rewrites: the full C-style table, or
/// the single delimiter of a regex, string or character literal.
#[derive(Clone, Copy, PartialEq, Eq, Structural, Debug)]
pub enum EscTable {
    /// `\a \b \f \n \r \t \v \\ \' \" \0`.
    Default,
    /// Only `/`.
    Regex,
    /// Only `"`.
    StringRaw,
    /// Only `'`.
    CharRaw,
}

/// The code letter that follows the backslash when `c` is escaped under
/// table `t`, if `t` escapes `c` at all.
pub open spec fn esc_code(t: EscTable, c: char) -> Option<char> {
    match t {
        EscTable::Default => {
            if c == '\u{7}' {
                Some('a')
            } else if c == '\u{8}' {
                Some('b')
            } else if c == '\u{C}' {
                Some('f')
            } else if c == '\n' {
                Some('n')
            } else if c == '\r' {
                Some('r')
            } else if c == '\t' {
                Some('t')
            } else if c == '\u{B}' {
                Some('v')
            } else if c == '\\' {
                Some('\\')
            } else if c == '\'' {
                Some('\'')
            } else if c == '"' {
                Some('"')
            } else if c == '\0' {
                Some('0')
            } else {
                None
            }
        },
        EscTable::Regex => if c == '/' {
            Some('/')
        } else {
            None
        },
        EscTable::StringRaw => if c == '"' {
            Some('"')
        } else {
            None
        },
        EscTable::CharRaw => if c == '\'' {
            Some('\'')
        } else {
            None
        },
    }
}

/// The character that the code letter `c` stands for under table `t`:
/// the inverse of [`esc_code`].
pub open spec fn unesc_code(t: EscTable, c: char) -> Option<char> {
    match t {
        EscTable::Default => {
            if c == 'a' {
                Some('\u{7}')
            } else if c == 'b' {
                Some('\u{8}')
            } else if c == 'f' {
                Some('\u{C}')
            } else if c == 'n' {
                Some('\n')
            } else if c == 'r' {
                Some('\r')
            } else if c == 't' {
                Some('\t')
            } else if c == 'v' {
                Some('\u{B}')
            } else if c == '\\' {
                Some('\\')
            } else if c == '\'' {
                Some('\'')
            } else if c == '"' {
                Some('"')
            } else if c == '0' {
                Some('\0')
            } else {
                None
            }
        },
        EscTable::Regex => if c == '/' {
            Some('/')
        } else {
            None
        },
        EscTable::StringRaw => if c == '"' {
            Some('"')
        } else {
            None
        },
        EscTable::CharRaw => if c == '\'' {
            Some('\'')
        } else {
            None
        },
    }
}

/// `s` with every character the table escapes replaced by a backslash
/// and its code letter.
pub open spec fn escape_spec(t: EscTable, s: Seq<char>) -> Seq<char>
    decreases s.len(),
{
    if s.len() == 0 {
        Seq::empty()
    } else {
        (match esc_code(t, s.first()) {
            Some(k) => seq!['\\', k],
            None => seq![s.first()],
        }) + escape_spec(t, s.drop_first())
    }
}

/// `s` with every backslash-plus-code pair the table knows replaced by
/// the character it stands for; a backslash before an unknown code, or
/// at the end, stays as it is.
pub open spec fn unescape_spec(t: EscTable, s: Seq<char>) -> Seq<char>
    decreases s.len(),
{
    if s.len() == 0 {
        Seq::empty()
    } else if s.len() >= 2 && s.first() == '\\' && unesc_code(t, s[1]) is Some {
        seq![unesc_code(t, s[1]) -> 0] + unescape_spec(t, s.skip(2))
    } else {
        seq![s.first()] + unescape_spec(t, s.skip(1))
    }
}

proof fn lemma_escape_append(t: EscTable, a: Seq<char>, b: Seq<char>)
    ensures
        escape_spec(t, a + b) == escape_spec(t, a) + escape_spec(t, b),
    decreases a.len(),
{
    if a.len() == 0 {
        assert(a + b =~= b);
        assert(escape_spec(t, a) + escape_spec(t, b) =~= escape_spec(t, b));
    } else {
        assert((a + b).first() == a.first());
        assert((a + b).drop_first() =~= a.drop_first() + b);
        lemma_escape_append(t, a.drop_first(), b);
        assert(escape_spec(t, a + b) =~= escape_spec(t, a) + escape_spec(t, b));
    }
}

/// Escape `s` under table `t`.
pub fn escape_str(t: EscTable, s: &str) -> (r: String)
    ensures
        r@ == escape_spec(t, s@),
{
    let n = s.unicode_len();
    let mut out = String::new();
    let mut i: usize = 0;
    while i < n
        invariant
            n == s@.len(),
            0 <= i <= n,
            out@ == escape_spec(t, s@.take(i as int)),
        decreases n - i,
    {
        let c = s.get_char(i);
        proof {
            assert(s@.take(i + 1) =~= s@.take(i as int) + seq![c]);
            lemma_escape_append(t, s@.take(i as int), seq![c]);
            assert(seq![c].first() == c);
            assert(seq![c].drop_first() =~= Seq::<char>::empty());
            assert(escape_spec(t, Seq::<char>::empty()) =~= Seq::<char>::empty());
        }
        let code = esc_code_exec(t, c);
        match code {
            Some(k) => {
                push_char(&mut out, '\\');
                push_char(&mut out, k);
                proof {
                    assert(escape_spec(t, seq![c]) =~= seq!['\\', k]);
                    assert(out@ =~= escape_spec(t, s@.take(i as int)) + escape_spec(t, seq![c]));
                }
            },
            None => {
                push_char(&mut out, c);
                proof {
                    assert(escape_spec(t, seq![c]) =~= seq![c]);
                    assert(out@ =~= escape_spec(t, s@.take(i as int)) + escape_spec(t, seq![c]));
                }
            },
        }
        i = i + 1;
    }
    proof {
        assert(s@.take(n as int) =~= s@);
    }
    out
}

/// Test whether table `t` escapes `c`.
fn esc_code_exec(t: EscTable, c: char) -> (r: Option<char>)
    ensures
        r == esc_code(t, c),
{
    match t {
        EscTable::Default => {
            if c == '\u{7}' {
                Some('a')
            } else if c == '\u{8}' {
                Some('b')
            } else if c == '\u{C}' {
                Some('f')
            } else if c == '\n' {
                Some('n')
            } else if c == '\r' {
                Some('r')
            } else if c == '\t' {
                Some('t')
            } else if c == '\u{B}' {
                Some('v')
            } else if c == '\\' {
                Some('\\')
            } else if c == '\'' {
                Some('\'')
            } else if c == '"' {
                Some('"')
            } else if c == '\0' {
                Some('0')
            } else {
                None
            }
        },
        EscTable::Regex => if c == '/' {
            Some('/')
        } else {
            None
        },
        EscTable::StringRaw => if c == '"' {
            Some('"')
        } else {
            None
        },
        EscTable::CharRaw => if c == '\'' {
            Some('\'')
        } else {
            None
        },
    }
}

/// Test whether `c` is a code letter of table `t`.
fn unesc_code_exec(t: EscTable, c: char) -> (r: Option<char>)
    ensures
        r == unesc_code(t, c),
{
    match t {
        EscTable::Default => {
            if c == 'a' {
                Some('\u{7}')
            } else if c == 'b' {
                Some('\u{8}')
            } else if c == 'f' {
                Some('\u{C}')
            } else if c == 'n' {
                Some('\n')
            } else if c == 'r' {
                Some('\r')
            } else if c == 't' {
                Some('\t')
            } else if c == 'v' {
                Some('\u{B}')
            } else if c == '\\' {
                Some('\\')
            } else if c == '\'' {
                Some('\'')
            } else if c == '"' {
                Some('"')
            } else if c == '0' {
                Some('\0')
            } else {
                None
            }
        },
        EscTable::Regex => if c == '/' {
            Some('/')
        } else {
            None
        },
        EscTable::StringRaw => if c == '"' {
            Some('"')
        } else {
            None
        },
        EscTable::CharRaw => if c == '\'' {
            Some('\'')
        } else {
            None
        },
    }
}

/// Unescape `s` under table `t`.
pub fn unescape_str(t: EscTable, s: &str) -> (r: String)
    ensures
        r@ == unescape_spec(t, s@),
{
    let n = s.unicode_len();
    let mut out = String::new();
    let mut i: usize = 0;
    proof {
        assert(s@.skip(0) =~= s@);
        assert(out@ + unescape_spec(t, s@) =~= unescape_spec(t, s@));
    }
    while i < n
        invariant
            n == s@.len(),
            0 <= i <= n,
            unescape_spec(t, s@) == out@ + unescape_spec(t, s@.skip(i as int)),
        decreases n - i,
    {
        let c = s.get_char(i);
        proof {
            assert(s@.skip(i as int).first() == c);
            assert(s@.skip(i as int).len() == n - i);
        }
        if c == '\\' && i + 1 < n {
            let c2 = s.get_char(i + 1);
            proof {
                assert(s@.skip(i as int)[1] == c2);
            }
            match unesc_code_exec(t, c2) {
                Some(d) => {
                    push_char(&mut out, d);
                    proof {
                        assert(s@.skip(i as int).skip(2) =~= s@.skip(i + 2));
                        assert(unescape_spec(t, s@.skip(i as int)) =~= seq![d] + unescape_spec(
                            t,
                            s@.skip(i + 2),
                        ));
                        assert(out@ + unescape_spec(t, s@.skip(i + 2)) =~= unescape_spec(t, s@));
                    }
                    i = i + 2;
                },
                None => {
                    push_char(&mut out, c);
                    proof {
                        assert(s@.skip(i as int).skip(1) =~= s@.skip(i + 1));
                        assert(out@ + unescape_spec(t, s@.skip(i + 1)) =~= unescape_spec(t, s@));
                    }
                    i = i + 1;
                },
            }
        } else {
            push_char(&mut out, c);
            proof {
                assert(s@.skip(i as int).skip(1) =~= s@.skip(i + 1));
                assert(out@ + unescape_spec(t, s@.skip(i + 1)) =~= unescape_spec(t, s@));
            }
            i = i + 1;
        }
    }
    proof {
        assert(s@.skip(n as int) =~= Seq::<char>::empty());
        assert(unescape_spec(t, s@) =~= out@);
    }
    out
}

/// `s` without its leading whitespace.
pub open spec fn triml_spec(s: Seq<char>) -> Seq<char>
    decreases s.len(),
{
    if s.len() > 0 && is_space_char(s.first()) {
        triml_spec(s.drop_first())
    } else {
        s
    }
}

/// `s` without its trailing whitespace.
pub open spec fn trimr_spec(s: Seq<char>) -> Seq<char>
    decreases s.len(),
{
    if s.len() > 0 && is_space_char(s.last()) {
        trimr_spec(s.drop_last())
    } else {
        s
    }
}

proof fn lemma_triml_skip(s: Seq<char>, k: int)
    requires
        0 <= k <= s.len(),
        forall|j: int| 0 <= j < k ==> is_space_char(s[j]),
    ensures
        triml_spec(s) == triml_spec(s.skip(k)),
    decreases k,
{
    if k > 0 {
        assert(is_space_char(s.first()));
        assert(s.drop_first() =~= s.skip(1));
        assert forall|j: int| 0 <= j < k - 1 implies is_space_char(s.skip(1)[j]) by {
            assert(s.skip(1)[j] == s[j + 1]);
        }
        lemma_triml_skip(s.skip(1), k - 1);
        assert(s.skip(1).skip(k - 1) =~= s.skip(k));
        assert(triml_spec(s) == triml_spec(s.skip(1)));
    } else {
        assert(s.skip(0) =~= s);
    }
}

proof fn lemma_trimr_take(s: Seq<char>, k: int)
    requires
        0 <= k <= s.len(),
        forall|j: int| k <= j < s.len() ==> is_space_char(s[j]),
    ensures
        trimr_spec(s) == trimr_spec(s.take(k)),
    decreases s.len() - k,
{
    if k < s.len() {
        assert(is_space_char(s.last()));
        assert(s.drop_last() =~= s.take(s.len() - 1));
        lemma_trimr_take(s.take(s.len() - 1), k);
        assert(s.take(s.len() - 1).take(k) =~= s.take(k));
    } else {
        assert(s.take(k) =~= s);
    }
}

/// `s` without its leading whitespace.
pub fn triml_str(s: &str) -> (r: String)
    ensures
        r@ == triml_spec(s@),
{
    let n = s.unicode_len();
    let mut k: usize = 0;
    while k < n && class_test(CharClass::Whitespace, s.get_char(k))
        invariant
            n == s@.len(),
            0 <= k <= n,
            forall|j: int| 0 <= j < k ==> is_space_char(s@[j]),
        decreases n - k,
    {
        k = k + 1;
    }
    proof {
        lemma_triml_skip(s@, k as int);
        if k < n {
            assert(!is_space_char(s@.skip(k as int).first()));
        }
        assert(triml_spec(s@.skip(k as int)) == s@.skip(k as int));
    }
    let mut out = String::new();
    let mut i: usize = k;
    while i < n
        invariant
            n == s@.len(),
            k <= i <= n,
            out@ == s@.subrange(k as int, i as int),
        decreases n - i,
    {
        push_char(&mut out, s.get_char(i));
        proof {
            assert(out@ =~= s@.subrange(k as int, i + 1));
        }
        i = i + 1;
    }
    proof {
        assert(s@.subrange(k as int, n as int) =~= s@.skip(k as int));
    }
    out
}

/// `s` without its trailing whitespace.
pub fn trimr_str(s: &str) -> (r: String)
    ensures
        r@ == trimr_spec(s@),
{
    let n = s.unicode_len();
    let mut k: usize = n;
    while k > 0 && class_test(CharClass::Whitespace, s.get_char(k - 1))
        invariant
            n == s@.len(),
            0 <= k <= n,
            forall|j: int| k <= j < n ==> is_space_char(s@[j]),
        decreases k,
    {
        k = k - 1;
    }
    proof {
        lemma_trimr_take(s@, k as int);
        if k > 0 {
            assert(!is_space_char(s@.take(k as int).last()));
        }
        assert(trimr_spec(s@.take(k as int)) == s@.take(k as int));
    }
    let mut out = String::new();
    let mut i: usize = 0;
    while i < k
        invariant
            n == s@.len(),
            0 <= i <= k <= n,
            out@ == s@.subrange(0, i as int),
        decreases k - i,
    {
        push_char(&mut out, s.get_char(i));
        proof {
            assert(out@ =~= s@.subrange(0, i + 1));
        }
        i = i + 1;
    }
    proof {
        assert(s@.subrange(0, k as int) =~= s@.take(k as int));
    }
    out
}

/// The value of `c` as a digit in the given base, or `-1` where `c` is
/// no such digit.  The bases in use are 8, 10 and 16.
pub open spec fn digit_value(base: int, c: char) -> int {
    if '0' <= c <= '9' && (c as int) - ('0' as int) < base {
        (c as int) - ('0' as int)
    } else if base == 16 && 'a' <= c <= 'f' {
        10 + (c as int) - ('a' as int)
    } else if base == 16 && 'A' <= c <= 'F' {
        10 + (c as int) - ('A' as int)
    } else {
        -1
    }
}

/// The magnitude read from the leading digits of `s` in the given base,
/// starting from `acc`: reading stops at the first character that is no
/// digit, and the value saturates at `i64::MAX`.
pub open spec fn digits_value(s: Seq<char>, base: int, acc: int) -> int
    decreases s.len(),
{
    if s.len() == 0 || digit_value(base, s.first()) < 0 {
        acc
    } else {
        let next = acc * base + digit_value(base, s.first());
        digits_value(s.drop_first(), base, if next > i64::MAX { i64::MAX as int } else { next })
    }
}

/// The number read from the start of `s` in the given base: an optional
/// sign, then — in base 16 — an optional `0x` or `0X`, then the leading
/// digits; anything after them is ignored.  The magnitude saturates at
/// `i64::MAX`.
pub open spec fn strtol_spec(s: Seq<char>, base: int) -> int {
    let neg = s.len() > 0 && s.first() == '-';
    let s1 = if s.len() > 0 && (s.first() == '-' || s.first() == '+') {
        s.drop_first()
    } else {
        s
    };
    let s2 = if base == 16 && s1.len() >= 2 && s1[0] == '0' && (s1[1] == 'x' || s1[1] == 'X') {
        s1.skip(2)
    } else {
        s1
    };
    let mag = digits_value(s2, base, 0);
    if neg {
        -mag
    } else {
        mag
    }
}

/// The digit value of `c` in the given base, or `-1`.
fn digit_value_exec(base: i64, c: char) -> (d: i64)
    requires
        base == 8 || base == 10 || base == 16,
    ensures
        d == digit_value(base as int, c),
{
    if '0' <= c && c <= '9' && (c as i64) - ('0' as i64) < base {
        (c as i64) - ('0' as i64)
    } else if base == 16 && 'a' <= c && c <= 'f' {
        10 + (c as i64) - ('a' as i64)
    } else if base == 16 && 'A' <= c && c <= 'F' {
        10 + (c as i64) - ('A' as i64)
    } else {
        -1
    }
}

/// Read a number from the start of `s`, as [`strtol_spec`] defines it.
pub fn strtol_str(s: &str, base: i64) -> (r: i64)
    requires
        base == 8 || base == 10 || base == 16,
    ensures
        r == strtol_spec(s@, base as int),
{
    let n = s.unicode_len();
    let mut i: usize = 0;
    let mut neg = false;
    if n > 0 {
        let c0 = s.get_char(0);
        if c0 == '-' {
            neg = true;
            i = 1;
        } else if c0 == '+' {
            i = 1;
        }
    }
    let ghost s1 = if s@.len() > 0 && (s@.first() == '-' || s@.first() == '+') {
        s@.drop_first()
    } else {
        s@
    };
    proof {
        assert(s1 =~= s@.skip(i as int));
    }
    if base == 16 && i + 1 < n {
        let c0 = s.get_char(i);
        let c1 = s.get_char(i + 1);
        if c0 == '0' && (c1 == 'x' || c1 == 'X') {
            proof {
                assert(s1[0] == '0' && (s1[1] == 'x' || s1[1] == 'X'));
            }
            i = i + 2;
        }
    }
    let ghost s2 = if base == 16 && s1.len() >= 2 && s1[0] == '0' && (s1[1] == 'x' || s1[1]
        == 'X') {
        s1.skip(2)
    } else {
        s1
    };
    proof {
        assert(s2 =~= s@.skip(i as int));
    }
    let mut acc: i64 = 0;
    while i < n
        invariant
            n == s@.len(),
            0 <= i <= n,
            0 <= acc <= i64::MAX,
            base == 8 || base == 10 || base == 16,
            digits_value(s2, base as int, 0) == digits_value(s@.skip(i as int), base as int, acc as int),
        ensures
            digits_value(s2, base as int, 0) == acc as int,
        decreases n - i,
    {
        let c = s.get_char(i);
        proof {
            assert(s@.skip(i as int).first() == c);
        }
        let d = digit_value_exec(base, c);
        if d < 0 {
            proof {
                assert(digits_value(s@.skip(i as int), base as int, acc as int) == acc as int);
            }
            break ;
        }
        proof {
            assert((acc as int) * (base as int) + d <= (i64::MAX as int) * 16 + 15) by (nonlinear_arith)
                requires
                    0 <= acc <= i64::MAX,
                    base <= 16,
                    d <= 15,
            ;
            assert(0 <= (acc as int) * (base as int)) by (nonlinear_arith)
                requires
                    0 <= acc,
                    0 < base,
            ;
            assert(s@.skip(i as int).drop_first() =~= s@.skip(i + 1));
        }
        let wide: i128 = (acc as i128) * (base as i128) + (d as i128);
        if wide > i64::MAX as i128 {
            acc = i64::MAX;
        } else {
            acc = wide as i64;
        }
        i = i + 1;
    }
    if neg {
        -acc
    } else {
        acc
    }
}

} // verus!
