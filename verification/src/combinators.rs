//! Derived parsers: the common matchers and conveniences built from
//! the core constructors.
//!
//! Each builder states the exact node it assembles, through a
//! specification function of the same shape, so a caller's proof can
//! unfold the structure down to [`crate::eval::eval_spec`].

use vstd::prelude::*;

use crate::chars::CharClass;
use crate::parser::Parser;
use crate::parser::SpecParser;
use crate::parser::AnchorTest;
use crate::parser::mpc_anchor;
use crate::parser::mpc_and;
use crate::parser::mpc_apply;
use crate::parser::mpc_apply_to;
use crate::parser::mpc_char;
use crate::parser::mpc_count;
use crate::parser::mpc_expect;
use crate::parser::mpc_many;
use crate::parser::mpc_many1;
use crate::parser::mpc_maybe;
use crate::parser::mpc_maybe_lift;
use crate::parser::mpc_not;
use crate::parser::mpc_oneof;
use crate::parser::mpc_or;
use crate::parser::mpc_satisfy;
use crate::parser::mpc_state;
use crate::parser::mpc_string;
use crate::parser::parsers_view;
use crate::val::ApplyKind;
use crate::val::ApplyToKind;
use crate::val::CtorKind;
use crate::val::Fold;
use crate::val::SpecVal;
use crate::val::Val;

verus! {

broadcast use vstd::seq::group_seq_axioms;

/// Matches where the stream ends; expected as "end of input".
pub open spec fn mpc_eoi_spec() -> SpecParser {
    SpecParser::Expect(
        Box::new(SpecParser::Anchor(AnchorTest::EndOfInput)),
        "end of input"@,
    )
}

/// Match the end of the stream, consuming nothing.
pub fn mpc_eoi() -> (p: Parser)
    ensures
        p@ == mpc_eoi_spec(),
{
    mpc_expect(mpc_anchor(AnchorTest::EndOfInput), "end of input")
}

/// Matches before anything was consumed; expected as "start of
/// input".
pub open spec fn mpc_soi_spec() -> SpecParser {
    SpecParser::Expect(
        Box::new(SpecParser::Anchor(AnchorTest::StartOfInput)),
        "start of input"@,
    )
}

/// Match the start of the stream, consuming nothing.
pub fn mpc_soi() -> (p: Parser)
    ensures
        p@ == mpc_soi_spec(),
{
    mpc_expect(mpc_anchor(AnchorTest::StartOfInput), "start of input")
}

/// Match a word boundary, consuming nothing.
pub fn mpc_boundary() -> (p: Parser)
    ensures
        p@ == SpecParser::Expect(
            Box::new(SpecParser::Anchor(AnchorTest::WordBoundary)),
            "word boundary"@,
        ),
{
    mpc_expect(mpc_anchor(AnchorTest::WordBoundary), "word boundary")
}

/// Match right after a newline, consuming nothing.
pub fn mpc_boundary_newline() -> (p: Parser)
    ensures
        p@ == SpecParser::Expect(
            Box::new(SpecParser::Anchor(AnchorTest::LineStart)),
            "start of line"@,
        ),
{
    mpc_expect(mpc_anchor(AnchorTest::LineStart), "start of line")
}

/// Match one whitespace character.
pub fn mpc_whitespace() -> (p: Parser)
    ensures
        p@ == SpecParser::Satisfy(CharClass::Whitespace),
{
    mpc_satisfy(CharClass::Whitespace)
}

/// Zero or more whitespace characters, concatenated.
pub open spec fn mpc_whitespaces_spec() -> SpecParser {
    SpecParser::Many(Fold::StrFold, Box::new(SpecParser::Satisfy(CharClass::Whitespace)))
}

/// Match any run of whitespace, as one string.
pub fn mpc_whitespaces() -> (p: Parser)
    ensures
        p@ == mpc_whitespaces_spec(),
{
    mpc_many(Fold::StrFold, mpc_whitespace())
}

/// Any run of whitespace, discarded; expected as "whitespace".
pub open spec fn mpc_blank_spec() -> SpecParser {
    SpecParser::Expect(
        Box::new(SpecParser::Apply(Box::new(mpc_whitespaces_spec()), ApplyKind::Free)),
        "whitespace"@,
    )
}

/// Match and discard any run of whitespace.
pub fn mpc_blank() -> (p: Parser)
    ensures
        p@ == mpc_blank_spec(),
{
    mpc_expect(mpc_apply(mpc_whitespaces(), ApplyKind::Free), "whitespace")
}

/// Match one decimal digit.
pub fn mpc_digit() -> (p: Parser)
    ensures
        p@ == SpecParser::Satisfy(CharClass::Digit),
{
    mpc_satisfy(CharClass::Digit)
}

/// Match one hexadecimal digit.
pub fn mpc_hexdigit() -> (p: Parser)
    ensures
        p@ == SpecParser::Satisfy(CharClass::HexDigit),
{
    mpc_satisfy(CharClass::HexDigit)
}

/// Match one octal digit.
pub fn mpc_octdigit() -> (p: Parser)
    ensures
        p@ == SpecParser::Satisfy(CharClass::OctDigit),
{
    mpc_satisfy(CharClass::OctDigit)
}

/// One or more digits of the class `k`, concatenated.
pub open spec fn digits_spec(k: CharClass) -> SpecParser {
    SpecParser::Many1(Fold::StrFold, Box::new(SpecParser::Satisfy(k)))
}

/// Match a run of decimal digits, expected as "digits".
pub fn mpc_digits() -> (p: Parser)
    ensures
        p@ == SpecParser::Expect(Box::new(digits_spec(CharClass::Digit)), "digits"@),
{
    mpc_expect(mpc_many1(Fold::StrFold, mpc_digit()), "digits")
}

/// Match a run of hexadecimal digits.
pub fn mpc_hexdigits() -> (p: Parser)
    ensures
        p@ == SpecParser::Expect(Box::new(digits_spec(CharClass::HexDigit)), "hex digits"@),
{
    mpc_expect(mpc_many1(Fold::StrFold, mpc_hexdigit()), "hex digits")
}

/// Match a run of octal digits.
pub fn mpc_octdigits() -> (p: Parser)
    ensures
        p@ == SpecParser::Expect(Box::new(digits_spec(CharClass::OctDigit)), "octal digits"@),
{
    mpc_expect(mpc_many1(Fold::StrFold, mpc_octdigit()), "octal digits")
}

/// Match one lowercase letter.
pub fn mpc_lower() -> (p: Parser)
    ensures
        p@ == SpecParser::Satisfy(CharClass::Lower),
{
    mpc_satisfy(CharClass::Lower)
}

/// Match one uppercase letter.
pub fn mpc_upper() -> (p: Parser)
    ensures
        p@ == SpecParser::Satisfy(CharClass::Upper),
{
    mpc_satisfy(CharClass::Upper)
}

/// Match one letter.
pub fn mpc_alpha() -> (p: Parser)
    ensures
        p@ == SpecParser::Satisfy(CharClass::Alpha),
{
    mpc_satisfy(CharClass::Alpha)
}

/// Match an underscore.
pub fn mpc_underscore() -> (p: Parser)
    ensures
        p@ == SpecParser::CharEq('_'),
{
    mpc_char('_')
}

/// Match one letter or digit.
pub fn mpc_alphanum() -> (p: Parser)
    ensures
        p@ == SpecParser::Satisfy(CharClass::AlphaNum),
{
    mpc_satisfy(CharClass::AlphaNum)
}

/// An optional sign, as a string ("" where absent).
pub open spec fn sign_spec() -> SpecParser {
    SpecParser::Maybe(Box::new(SpecParser::OneOf("+-"@)), CtorKind::EmptyStr)
}

fn sign_part() -> (p: Parser)
    ensures
        p@ == sign_spec(),
{
    mpc_maybe_lift(mpc_oneof("+-"), CtorKind::EmptyStr)
}

/// A signed run of decimal digits, read as a number.
pub open spec fn mpc_int_spec() -> SpecParser {
    SpecParser::Expect(
        Box::new(
            SpecParser::Apply(
                Box::new(
                    SpecParser::And(
                        Fold::StrFold,
                        seq![sign_spec(), digits_spec(CharClass::Digit)],
                    ),
                ),
                ApplyKind::Int,
            ),
        ),
        "integer"@,
    )
}

/// Match a decimal integer, yielding its value.
pub fn mpc_int() -> (p: Parser)
    ensures
        p@ == mpc_int_spec(),
{
    let mut parts: Vec<Parser> = Vec::new();
    parts.push(sign_part());
    parts.push(mpc_many1(Fold::StrFold, mpc_digit()));
    let body = mpc_and(Fold::StrFold, parts);
    proof {
        assert(body@->And_1 =~= seq![sign_spec(), digits_spec(CharClass::Digit)]);
    }
    mpc_expect(mpc_apply(body, ApplyKind::Int), "integer")
}

/// A `0x` prefix and hexadecimal digits, read as a number.
pub open spec fn mpc_hex_spec() -> SpecParser {
    SpecParser::Expect(
        Box::new(
            SpecParser::Apply(
                Box::new(
                    SpecParser::And(
                        Fold::StrFold,
                        seq![SpecParser::StrLit("0x"@), digits_spec(CharClass::HexDigit)],
                    ),
                ),
                ApplyKind::Hex,
            ),
        ),
        "hexadecimal"@,
    )
}

/// Match a hexadecimal integer, yielding its value.
pub fn mpc_hex() -> (p: Parser)
    ensures
        p@ == mpc_hex_spec(),
{
    let mut parts: Vec<Parser> = Vec::new();
    parts.push(mpc_string("0x"));
    parts.push(mpc_many1(Fold::StrFold, mpc_hexdigit()));
    let body = mpc_and(Fold::StrFold, parts);
    proof {
        assert(body@->And_1 =~= seq![SpecParser::StrLit("0x"@), digits_spec(CharClass::HexDigit)]);
    }
    mpc_expect(mpc_apply(body, ApplyKind::Hex), "hexadecimal")
}

/// A `0` prefix and octal digits, read as a number.
pub open spec fn mpc_oct_spec() -> SpecParser {
    SpecParser::Expect(
        Box::new(
            SpecParser::Apply(
                Box::new(
                    SpecParser::And(
                        Fold::StrFold,
                        seq![SpecParser::StrLit("0"@), digits_spec(CharClass::OctDigit)],
                    ),
                ),
                ApplyKind::Oct,
            ),
        ),
        "octal"@,
    )
}

/// Match an octal integer, yielding its value.
pub fn mpc_oct() -> (p: Parser)
    ensures
        p@ == mpc_oct_spec(),
{
    let mut parts: Vec<Parser> = Vec::new();
    parts.push(mpc_string("0"));
    parts.push(mpc_many1(Fold::StrFold, mpc_octdigit()));
    let body = mpc_and(Fold::StrFold, parts);
    proof {
        assert(body@->And_1 =~= seq![SpecParser::StrLit("0"@), digits_spec(CharClass::OctDigit)]);
    }
    mpc_expect(mpc_apply(body, ApplyKind::Oct), "octal")
}

/// Match a number in any of the three notations, hexadecimal and
/// octal tried before decimal.
pub fn mpc_number() -> (p: Parser)
    ensures
        p@ == SpecParser::Expect(
            Box::new(SpecParser::Or(seq![mpc_hex_spec(), mpc_oct_spec(), mpc_int_spec()])),
            "number"@,
        ),
{
    let mut alts: Vec<Parser> = Vec::new();
    alts.push(mpc_hex());
    alts.push(mpc_oct());
    alts.push(mpc_int());
    let body = mpc_or(alts);
    proof {
        assert(body@->Or_0 =~= seq![mpc_hex_spec(), mpc_oct_spec(), mpc_int_spec()]);
    }
    mpc_expect(body, "number")
}

/// The digits-dot-digits-exponent shape of a real number, kept as a
/// string.
pub open spec fn mpc_real_spec() -> SpecParser {
    SpecParser::Expect(
        Box::new(
            SpecParser::And(
                Fold::StrFold,
                seq![
                    sign_spec(),
                    digits_spec(CharClass::Digit),
                    SpecParser::Maybe(
                        Box::new(
                            SpecParser::And(
                                Fold::StrFold,
                                seq![SpecParser::CharEq('.'), digits_spec(CharClass::Digit)],
                            ),
                        ),
                        CtorKind::EmptyStr,
                    ),
                    SpecParser::Maybe(
                        Box::new(
                            SpecParser::And(
                                Fold::StrFold,
                                seq![
                                    SpecParser::OneOf("eE"@),
                                    sign_spec(),
                                    digits_spec(CharClass::Digit),
                                ],
                            ),
                        ),
                        CtorKind::EmptyStr,
                    ),
                ],
            ),
        ),
        "real"@,
    )
}

/// Match a real-number literal, as the string it spells.
pub fn mpc_real() -> (p: Parser)
    ensures
        p@ == mpc_real_spec(),
{
    let mut frac_parts: Vec<Parser> = Vec::new();
    frac_parts.push(mpc_char('.'));
    frac_parts.push(mpc_many1(Fold::StrFold, mpc_digit()));
    let frac = mpc_and(Fold::StrFold, frac_parts);
    proof {
        assert(frac@->And_1 =~= seq![SpecParser::CharEq('.'), digits_spec(CharClass::Digit)]);
    }
    let mut exp_parts: Vec<Parser> = Vec::new();
    exp_parts.push(mpc_oneof("eE"));
    exp_parts.push(sign_part());
    exp_parts.push(mpc_many1(Fold::StrFold, mpc_digit()));
    let exp = mpc_and(Fold::StrFold, exp_parts);
    proof {
        assert(exp@->And_1 =~= seq![
            SpecParser::OneOf("eE"@),
            sign_spec(),
            digits_spec(CharClass::Digit),
        ]);
    }
    let mut parts: Vec<Parser> = Vec::new();
    parts.push(sign_part());
    parts.push(mpc_many1(Fold::StrFold, mpc_digit()));
    parts.push(mpc_maybe_lift(frac, CtorKind::EmptyStr));
    parts.push(mpc_maybe_lift(exp, CtorKind::EmptyStr));
    let body = mpc_and(Fold::StrFold, parts);
    proof {
        assert(body@->And_1 =~= mpc_real_spec()->Expect_0->And_1);
    }
    mpc_expect(body, "real")
}

/// One quoted item: a backslash escape pair, or any character but
/// the delimiters in `stop`.
pub open spec fn quoted_item_spec(stop: Seq<char>) -> SpecParser {
    SpecParser::Or(
        seq![
            SpecParser::And(
                Fold::StrFold,
                seq![SpecParser::CharEq('\\'), SpecParser::Any],
            ),
            SpecParser::NoneOf(stop),
        ],
    )
}

fn quoted_item(stop: &str) -> (p: Parser)
    ensures
        p@ == quoted_item_spec(stop@),
{
    let mut pair: Vec<Parser> = Vec::new();
    pair.push(mpc_char('\\'));
    pair.push(crate::parser::mpc_any());
    let esc = mpc_and(Fold::StrFold, pair);
    proof {
        assert(esc@->And_1 =~= seq![SpecParser::CharEq('\\'), SpecParser::Any]);
    }
    let mut alts: Vec<Parser> = Vec::new();
    alts.push(esc);
    alts.push(crate::parser::mpc_noneof(stop));
    let body = mpc_or(alts);
    proof {
        assert(body@->Or_0 =~= quoted_item_spec(stop@)->Or_0);
    }
    body
}

/// A character literal: a quoted item between single quotes,
/// unescaped.
pub open spec fn mpc_char_lit_spec() -> SpecParser {
    SpecParser::Expect(
        Box::new(
            SpecParser::Apply(
                Box::new(
                    SpecParser::And(
                        Fold::Snd,
                        seq![
                            SpecParser::CharEq('\''),
                            quoted_item_spec("'"@),
                            SpecParser::CharEq('\''),
                        ],
                    ),
                ),
                ApplyKind::Unescape,
            ),
        ),
        "character"@,
    )
}

/// Match a character literal.
pub fn mpc_char_lit() -> (p: Parser)
    ensures
        p@ == mpc_char_lit_spec(),
{
    let mut parts: Vec<Parser> = Vec::new();
    parts.push(mpc_char('\''));
    parts.push(quoted_item("'"));
    parts.push(mpc_char('\''));
    let body = mpc_and(Fold::Snd, parts);
    proof {
        assert(body@->And_1 =~= mpc_char_lit_spec()->Expect_0->Apply_0->And_1);
    }
    mpc_expect(mpc_apply(body, ApplyKind::Unescape), "character")
}

/// A string literal: quoted items between double quotes, unescaped.
pub open spec fn mpc_string_lit_spec() -> SpecParser {
    SpecParser::Expect(
        Box::new(
            SpecParser::Apply(
                Box::new(
                    SpecParser::And(
                        Fold::Snd,
                        seq![
                            SpecParser::CharEq('"'),
                            SpecParser::Many(
                                Fold::StrFold,
                                Box::new(quoted_item_spec("\""@)),
                            ),
                            SpecParser::CharEq('"'),
                        ],
                    ),
                ),
                ApplyKind::Unescape,
            ),
        ),
        "string"@,
    )
}

/// Match a string literal.
pub fn mpc_string_lit() -> (p: Parser)
    ensures
        p@ == mpc_string_lit_spec(),
{
    let mut parts: Vec<Parser> = Vec::new();
    parts.push(mpc_char('"'));
    parts.push(mpc_many(Fold::StrFold, quoted_item("\"")));
    parts.push(mpc_char('"'));
    let body = mpc_and(Fold::Snd, parts);
    proof {
        assert(body@->And_1 =~= mpc_string_lit_spec()->Expect_0->Apply_0->And_1);
    }
    mpc_expect(mpc_apply(body, ApplyKind::Unescape), "string")
}

/// A regex literal: quoted items between slashes, with only the
/// slash unescaped.
pub open spec fn mpc_regex_lit_spec() -> SpecParser {
    SpecParser::Expect(
        Box::new(
            SpecParser::Apply(
                Box::new(
                    SpecParser::And(
                        Fold::Snd,
                        seq![
                            SpecParser::CharEq('/'),
                            SpecParser::Many(
                                Fold::StrFold,
                                Box::new(quoted_item_spec("/"@)),
                            ),
                            SpecParser::CharEq('/'),
                        ],
                    ),
                ),
                ApplyKind::UnescapeRegex,
            ),
        ),
        "regex"@,
    )
}

/// Match a regex literal, as the text between the slashes.
pub fn mpc_regex_lit() -> (p: Parser)
    ensures
        p@ == mpc_regex_lit_spec(),
{
    let mut parts: Vec<Parser> = Vec::new();
    parts.push(mpc_char('/'));
    parts.push(mpc_many(Fold::StrFold, quoted_item("/")));
    parts.push(mpc_char('/'));
    let body = mpc_and(Fold::Snd, parts);
    proof {
        assert(body@->And_1 =~= mpc_regex_lit_spec()->Expect_0->Apply_0->And_1);
    }
    mpc_expect(mpc_apply(body, ApplyKind::UnescapeRegex), "regex")
}

/// `a`, anchored at the start of the input; keeps `a`'s value.
pub fn mpc_startwith(a: Parser) -> (p: Parser)
    ensures
        p@ == SpecParser::And(Fold::Snd, seq![mpc_soi_spec(), a@]),
{
    let ghost ga = a@;
    let mut parts: Vec<Parser> = Vec::new();
    parts.push(mpc_soi());
    parts.push(a);
    let body = mpc_and(Fold::Snd, parts);
    proof {
        assert(body@->And_1 =~= seq![mpc_soi_spec(), ga]);
    }
    body
}

/// `a`, anchored at the end of the input; keeps `a`'s value.
pub fn mpc_endwith(a: Parser) -> (p: Parser)
    ensures
        p@ == SpecParser::And(Fold::Fst, seq![a@, mpc_eoi_spec()]),
{
    let ghost ga = a@;
    let mut parts: Vec<Parser> = Vec::new();
    parts.push(a);
    parts.push(mpc_eoi());
    let body = mpc_and(Fold::Fst, parts);
    proof {
        assert(body@->And_1 =~= seq![ga, mpc_eoi_spec()]);
    }
    body
}

/// `a`, anchored at both ends of the input; keeps `a`'s value.
pub fn mpc_whole(a: Parser) -> (p: Parser)
    ensures
        p@ == SpecParser::And(Fold::Snd, seq![mpc_soi_spec(), a@, mpc_eoi_spec()]),
{
    let ghost ga = a@;
    let mut parts: Vec<Parser> = Vec::new();
    parts.push(mpc_soi());
    parts.push(a);
    parts.push(mpc_eoi());
    let body = mpc_and(Fold::Snd, parts);
    proof {
        assert(body@->And_1 =~= seq![mpc_soi_spec(), ga, mpc_eoi_spec()]);
    }
    body
}

/// `a` with leading whitespace stripped.
pub fn mpc_stripl(a: Parser) -> (p: Parser)
    ensures
        p@ == SpecParser::And(Fold::Snd, seq![mpc_blank_spec(), a@]),
{
    let ghost ga = a@;
    let mut parts: Vec<Parser> = Vec::new();
    parts.push(mpc_blank());
    parts.push(a);
    let body = mpc_and(Fold::Snd, parts);
    proof {
        assert(body@->And_1 =~= seq![mpc_blank_spec(), ga]);
    }
    body
}

/// `a` with trailing whitespace stripped.
pub fn mpc_stripr(a: Parser) -> (p: Parser)
    ensures
        p@ == SpecParser::And(Fold::Fst, seq![a@, mpc_blank_spec()]),
{
    let ghost ga = a@;
    let mut parts: Vec<Parser> = Vec::new();
    parts.push(a);
    parts.push(mpc_blank());
    let body = mpc_and(Fold::Fst, parts);
    proof {
        assert(body@->And_1 =~= seq![ga, mpc_blank_spec()]);
    }
    body
}

/// `a` with whitespace stripped on both sides.
pub fn mpc_strip(a: Parser) -> (p: Parser)
    ensures
        p@ == SpecParser::And(Fold::Snd, seq![mpc_blank_spec(), a@, mpc_blank_spec()]),
{
    let ghost ga = a@;
    let mut parts: Vec<Parser> = Vec::new();
    parts.push(mpc_blank());
    parts.push(a);
    parts.push(mpc_blank());
    let body = mpc_and(Fold::Snd, parts);
    proof {
        assert(body@->And_1 =~= seq![mpc_blank_spec(), ga, mpc_blank_spec()]);
    }
    body
}

/// The token `a`: `a` followed by discarded whitespace.
pub open spec fn tok_spec(a: SpecParser) -> SpecParser {
    SpecParser::And(Fold::Fst, seq![a, mpc_blank_spec()])
}

/// Match `a` and swallow the whitespace after it.
pub fn mpc_tok(a: Parser) -> (p: Parser)
    ensures
        p@ == tok_spec(a@),
{
    let ghost ga = a@;
    let mut parts: Vec<Parser> = Vec::new();
    parts.push(a);
    parts.push(mpc_blank());
    let body = mpc_and(Fold::Fst, parts);
    proof {
        assert(body@->And_1 =~= seq![ga, mpc_blank_spec()]);
    }
    body
}

/// The symbol `s`: the literal as a token.
pub open spec fn sym_spec(s: Seq<char>) -> SpecParser {
    tok_spec(SpecParser::StrLit(s))
}

/// Match the literal `s` and swallow the whitespace after it.
pub fn mpc_sym(s: &str) -> (p: Parser)
    ensures
        p@ == sym_spec(s@),
{
    mpc_tok(mpc_string(s))
}

/// `a` stripped of whitespace and anchored at both ends: a parser
/// for a whole input.
pub fn mpc_total(a: Parser) -> (p: Parser)
    ensures
        p@ == SpecParser::And(
            Fold::Snd,
            seq![
                mpc_soi_spec(),
                SpecParser::And(Fold::Snd, seq![mpc_blank_spec(), a@, mpc_blank_spec()]),
                mpc_eoi_spec(),
            ],
        ),
{
    mpc_whole(mpc_strip(a))
}

/// `a` between the literals `o` and `c`; keeps `a`'s value.
pub open spec fn between_spec(a: SpecParser, o: Seq<char>, c: Seq<char>) -> SpecParser {
    SpecParser::And(Fold::Snd, seq![SpecParser::StrLit(o), a, SpecParser::StrLit(c)])
}

/// Match `o`, then `a`, then `c`, keeping `a`'s value.
pub fn mpc_between(a: Parser, o: &str, c: &str) -> (p: Parser)
    ensures
        p@ == between_spec(a@, o@, c@),
{
    let ghost ga = a@;
    let mut parts: Vec<Parser> = Vec::new();
    parts.push(mpc_string(o));
    parts.push(a);
    parts.push(mpc_string(c));
    let body = mpc_and(Fold::Snd, parts);
    proof {
        assert(body@->And_1 =~= seq![SpecParser::StrLit(o@), ga, SpecParser::StrLit(c@)]);
    }
    body
}

/// `a` between round parentheses.
pub fn mpc_parens(a: Parser) -> (p: Parser)
    ensures
        p@ == between_spec(a@, "("@, ")"@),
{
    mpc_between(a, "(", ")")
}

/// `a` between curly braces.
pub fn mpc_braces(a: Parser) -> (p: Parser)
    ensures
        p@ == between_spec(a@, "{"@, "}"@),
{
    mpc_between(a, "{", "}")
}

/// `a` between angle brackets.
pub fn mpc_brackets(a: Parser) -> (p: Parser)
    ensures
        p@ == between_spec(a@, "<"@, ">"@),
{
    mpc_between(a, "<", ">")
}

/// `a` between square brackets.
pub fn mpc_squares(a: Parser) -> (p: Parser)
    ensures
        p@ == between_spec(a@, "["@, "]"@),
{
    mpc_between(a, "[", "]")
}

/// `a` as a token between the symbols `o` and `c`.
pub open spec fn tok_between_spec(a: SpecParser, o: Seq<char>, c: Seq<char>) -> SpecParser {
    SpecParser::And(Fold::Snd, seq![sym_spec(o), tok_spec(a), sym_spec(c)])
}

/// Match the symbol `o`, the token `a`, the symbol `c`, keeping
/// `a`'s value.
pub fn mpc_tok_between(a: Parser, o: &str, c: &str) -> (p: Parser)
    ensures
        p@ == tok_between_spec(a@, o@, c@),
{
    let ghost ga = a@;
    let mut parts: Vec<Parser> = Vec::new();
    parts.push(mpc_sym(o));
    parts.push(mpc_tok(a));
    parts.push(mpc_sym(c));
    let body = mpc_and(Fold::Snd, parts);
    proof {
        assert(body@->And_1 =~= seq![sym_spec(o@), tok_spec(ga), sym_spec(c@)]);
    }
    body
}

/// A token between round parenthesis symbols.
pub fn mpc_tok_parens(a: Parser) -> (p: Parser)
    ensures
        p@ == tok_between_spec(a@, "("@, ")"@),
{
    mpc_tok_between(a, "(", ")")
}

/// A token between curly brace symbols.
pub fn mpc_tok_braces(a: Parser) -> (p: Parser)
    ensures
        p@ == tok_between_spec(a@, "{"@, "}"@),
{
    mpc_tok_between(a, "{", "}")
}

/// A token between angle bracket symbols.
pub fn mpc_tok_brackets(a: Parser) -> (p: Parser)
    ensures
        p@ == tok_between_spec(a@, "<"@, ">"@),
{
    mpc_tok_between(a, "<", ">")
}

/// A token between square bracket symbols.
pub fn mpc_tok_squares(a: Parser) -> (p: Parser)
    ensures
        p@ == tok_between_spec(a@, "["@, "]"@),
{
    mpc_tok_between(a, "[", "]")
}

/// Replace the tag of the tree `a` yields with `t`.
pub fn mpca_tag(a: Parser, t: &str) -> (p: Parser)
    ensures
        p@ == SpecParser::ApplyTo(Box::new(a@), ApplyToKind::AstTag, SpecVal::Str(t@)),
{
    mpc_apply_to(a, ApplyToKind::AstTag, Val::Str(t.to_owned()))
}

/// Prefix `t` and a `|` separator to the tag of the tree `a`
/// yields.
pub fn mpca_add_tag(a: Parser, t: &str) -> (p: Parser)
    ensures
        p@ == SpecParser::ApplyTo(Box::new(a@), ApplyToKind::AstAddTag, SpecVal::Str(t@)),
{
    mpc_apply_to(a, ApplyToKind::AstAddTag, Val::Str(t.to_owned()))
}

/// Give the tree `a` yields a root node to hang tags on.
pub fn mpca_root(a: Parser) -> (p: Parser)
    ensures
        p@ == SpecParser::Apply(Box::new(a@), ApplyKind::AstRoot),
{
    mpc_apply(a, ApplyKind::AstRoot)
}

/// Stamp the position where `a` began onto the tree it yields.
pub fn mpca_state(a: Parser) -> (p: Parser)
    ensures
        p@ == SpecParser::And(Fold::StateAst, seq![SpecParser::StateGet, a@]),
{
    let ghost ga = a@;
    let mut parts: Vec<Parser> = Vec::new();
    parts.push(mpc_state());
    parts.push(a);
    let body = mpc_and(Fold::StateAst, parts);
    proof {
        assert(body@->And_1 =~= seq![SpecParser::StateGet, ga]);
    }
    body
}

/// A whole-input tree parser: `a` rooted and anchored at both ends.
pub fn mpca_total(a: Parser) -> (p: Parser)
    ensures
        p@ == SpecParser::And(
            Fold::Snd,
            seq![
                mpc_soi_spec(),
                SpecParser::Apply(Box::new(a@), ApplyKind::AstRoot),
                mpc_eoi_spec(),
            ],
        ),
{
    mpc_whole(mpca_root(a))
}

/// Negative lookahead over a tree parser.
pub fn mpca_not(a: Parser) -> (p: Parser)
    ensures
        p@ == SpecParser::Not(Box::new(a@), CtorKind::Null),
{
    mpc_not(a)
}

/// Optional tree parser.
pub fn mpca_maybe(a: Parser) -> (p: Parser)
    ensures
        p@ == SpecParser::Maybe(Box::new(a@), CtorKind::Null),
{
    mpc_maybe(a)
}

/// Zero or more trees, gathered under one node.
pub fn mpca_many(a: Parser) -> (p: Parser)
    ensures
        p@ == SpecParser::Many(Fold::AstFold, Box::new(a@)),
{
    mpc_many(Fold::AstFold, a)
}

/// One or more trees, gathered under one node.
pub fn mpca_many1(a: Parser) -> (p: Parser)
    ensures
        p@ == SpecParser::Many1(Fold::AstFold, Box::new(a@)),
{
    mpc_many1(Fold::AstFold, a)
}

/// Exactly `n` trees, gathered under one node.
pub fn mpca_count(n: u64, a: Parser) -> (p: Parser)
    ensures
        p@ == SpecParser::Count(n, Fold::AstFold, Box::new(a@)),
{
    mpc_count(n, Fold::AstFold, a)
}

/// Ordered alternatives of tree parsers.
pub fn mpca_or(alts: Vec<Parser>) -> (p: Parser)
    ensures
        p@ == SpecParser::Or(parsers_view(alts@)),
{
    mpc_or(alts)
}

/// A sequence of tree parsers, their trees gathered under one node.
pub fn mpca_and(parts: Vec<Parser>) -> (p: Parser)
    ensures
        p@ == SpecParser::And(Fold::AstFold, parsers_view(parts@)),
{
    mpc_and(Fold::AstFold, parts)
}

} // verus!
