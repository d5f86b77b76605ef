//! Rules: each binds a variable name to the display with a serial number.
//!
//! A rule is written `NAME:SERIAL`. The text is cut at its colons; the first
//! field is the variable name, the second the serial number in decimal
//! notation, and fields after the second are not looked at.

use crate::decimal::{decimal, lemma_decimal_digits, lemma_parse_decimal_round_trip};
use crate::decimal::{digit_value, parse_decimal, parse_decimal_spec, NumberError};
use vstd::prelude::*;
use vstd::string::*;

verus! {

/// One rule: the variable `variable_name` stands for the display with the
/// serial number `serial_number`.
#[derive(Debug)]
pub struct MapRule {
    pub variable_name: String,
    pub serial_number: u32,
}

/// A rule as a value.
pub struct MapRuleView {
    pub variable_name: Seq<char>,
    pub serial_number: u32,
}

impl View for MapRule {
    type V = MapRuleView;

    open spec fn view(&self) -> MapRuleView {
        MapRuleView { variable_name: self.variable_name@, serial_number: self.serial_number }
    }
}

/// Why a text is not a rule.
#[derive(Clone, Copy, Debug, PartialEq, Eq, Structural)]
pub enum RuleParseError {
    /// The text holds no colon.
    MissingColon,
    /// The serial number is not a number.
    NonNumericSerial,
    /// The serial number is greater than `u32::MAX`.
    SerialOutOfRange,
}

/// The rules as values.
pub open spec fn rule_views(rules: Seq<MapRule>) -> Seq<MapRuleView> {
    rules.map_values(|rule: MapRule| rule@)
}

/// The texts of `tokens`.
pub open spec fn token_texts(tokens: Seq<String>) -> Seq<Seq<char>> {
    tokens.map_values(|token: String| token@)
}

/// Where the field that begins at `from` ends: at the first colon at or after
/// `from`, or at the end of `text`.
pub open spec fn field_end(text: Seq<char>, from: int) -> int
    decreases text.len() - from,
{
    if from >= text.len() || text[from] == ':' {
        from
    } else {
        field_end(text, from + 1)
    }
}

/// The rule that `token` writes, or why it writes none.
pub open spec fn parse_rule_spec(token: Seq<char>) -> Result<MapRuleView, RuleParseError> {
    let colon = field_end(token, 0);
    if colon >= token.len() {
        Err(RuleParseError::MissingColon)
    } else {
        let end = field_end(token, colon + 1);
        match parse_decimal_spec(token.subrange(colon + 1, end)) {
            Ok(serial) => Ok(
                MapRuleView { variable_name: token.subrange(0, colon), serial_number: serial },
            ),
            Err(NumberError::NotANumber) => Err(RuleParseError::NonNumericSerial),
            Err(NumberError::OutOfRange) => Err(RuleParseError::SerialOutOfRange),
        }
    }
}

/// The rules that `tokens` write, in their order, or the error of the first
/// token that writes none.
pub open spec fn parse_rules_spec(tokens: Seq<Seq<char>>) -> Result<
    Seq<MapRuleView>,
    RuleParseError,
>
    decreases tokens.len(),
{
    if tokens.len() == 0 {
        Ok(Seq::empty())
    } else {
        match parse_rules_spec(tokens.drop_last()) {
            Err(e) => Err(e),
            Ok(rules) => match parse_rule_spec(tokens.last()) {
                Err(e) => Err(e),
                Ok(rule) => Ok(rules.push(rule)),
            },
        }
    }
}

/// Where the field of `text` that begins at `from` ends; `len` is the length
/// of `text` in characters.
fn find_field_end(text: &str, len: usize, from: usize) -> (end: usize)
    requires
        len == text@.len(),
        from <= len,
    ensures
        end == field_end(text@, from as int),
        from <= end <= len,
{
    let mut i: usize = from;
    while i < len && text.get_char(i) != ':'
        invariant
            from <= i <= len,
            len == text@.len(),
            field_end(text@, i as int) == field_end(text@, from as int),
        decreases len - i,
    {
        i += 1;
    }
    i
}

impl MapRule {
    /// Reads one rule.
    pub fn parse(token: &str) -> (r: Result<MapRule, RuleParseError>)
        ensures
            match r {
                Ok(rule) => parse_rule_spec(token@) == Ok::<MapRuleView, RuleParseError>(rule@),
                Err(e) => parse_rule_spec(token@) == Err::<MapRuleView, RuleParseError>(e),
            },
    {
        let len = token.unicode_len();
        let colon = find_field_end(token, len, 0);
        if colon >= len {
            return Err(RuleParseError::MissingColon);
        }
        let end = find_field_end(token, len, colon + 1);
        match parse_decimal(token.substring_char(colon + 1, end)) {
            Ok(serial) => Ok(
                MapRule {
                    variable_name: String::from_str(token.substring_char(0, colon)),
                    serial_number: serial,
                },
            ),
            Err(NumberError::NotANumber) => Err(RuleParseError::NonNumericSerial),
            Err(NumberError::OutOfRange) => Err(RuleParseError::SerialOutOfRange),
        }
    }
}

/// Reads the rules in the order in which they were given. The first text that
/// is no rule ends the work with its error.
pub fn parse_rules(tokens: &Vec<String>) -> (r: Result<Vec<MapRule>, RuleParseError>)
    ensures
        match r {
            Ok(rules) => parse_rules_spec(token_texts(tokens@)) == Ok::<
                Seq<MapRuleView>,
                RuleParseError,
            >(rule_views(rules@)),
            Err(e) => parse_rules_spec(token_texts(tokens@)) == Err::<
                Seq<MapRuleView>,
                RuleParseError,
            >(e),
        },
{
    let ghost texts = token_texts(tokens@);
    let mut rules: Vec<MapRule> = Vec::new();
    let mut i: usize = 0;
    assert(texts.subrange(0, 0) =~= Seq::<Seq<char>>::empty());
    assert(rule_views(rules@) =~= Seq::<MapRuleView>::empty());
    while i < tokens.len()
        invariant
            i <= tokens.len(),
            texts == token_texts(tokens@),
            parse_rules_spec(texts.subrange(0, i as int)) == Ok::<Seq<MapRuleView>, RuleParseError>(
                rule_views(rules@),
            ),
        decreases tokens.len() - i,
    {
        assert(texts.subrange(0, i + 1).drop_last() =~= texts.subrange(0, i as int));
        assert(texts.subrange(0, i + 1).last() == tokens@[i as int]@);
        let ghost read = rule_views(rules@);
        match MapRule::parse(tokens[i].as_str()) {
            Err(e) => {
                proof {
                    lemma_rule_error_stays(texts, i + 1, e);
                }
                return Err(e);
            },
            Ok(rule) => {
                rules.push(rule);
                assert(rule_views(rules@) =~= read.push(rule@));
            },
        }
        i += 1;
    }
    assert(texts.subrange(0, i as int) =~= texts);
    Ok(rules)
}

/// An error among the first `k` tokens is the error of all of them.
pub proof fn lemma_rule_error_stays(tokens: Seq<Seq<char>>, k: int, e: RuleParseError)
    requires
        0 <= k <= tokens.len(),
        parse_rules_spec(tokens.subrange(0, k)) == Err::<Seq<MapRuleView>, RuleParseError>(e),
    ensures
        parse_rules_spec(tokens) == Err::<Seq<MapRuleView>, RuleParseError>(e),
    decreases tokens.len() - k,
{
    if k == tokens.len() {
        assert(tokens.subrange(0, k) =~= tokens);
    } else {
        assert(tokens.subrange(0, k + 1).drop_last() =~= tokens.subrange(0, k));
        lemma_rule_error_stays(tokens, k + 1, e);
    }
}

/// A field that begins within a stretch without a colon ends no earlier than
/// the stretch does.
proof fn lemma_field_end_skips(text: Seq<char>, from: int, upto: int)
    requires
        0 <= from <= upto <= text.len(),
        forall|i: int| from <= i < upto ==> text[i] != ':',
    ensures
        field_end(text, from) == field_end(text, upto),
    decreases upto - from,
{
    if from < upto {
        lemma_field_end_skips(text, from + 1, upto);
    }
}

/// The text of a rule: the variable name, a colon, the serial number in
/// decimal notation.
pub open spec fn rule_text(rule: MapRuleView) -> Seq<char> {
    rule.variable_name + seq![':'] + decimal(rule.serial_number as nat)
}

/// Reading the text of a rule gives the rule back, for every rule whose
/// variable name holds no colon.
pub proof fn lemma_parse_rule_round_trip(rule: MapRuleView)
    requires
        forall|i: int| 0 <= i < rule.variable_name.len() ==> rule.variable_name[i] != ':',
    ensures
        parse_rule_spec(rule_text(rule)) == Ok::<MapRuleView, RuleParseError>(rule),
{
    let name = rule.variable_name;
    let digits = decimal(rule.serial_number as nat);
    let text = rule_text(rule);
    let colon = name.len() as int;
    lemma_decimal_digits(rule.serial_number as nat);
    lemma_parse_decimal_round_trip(rule.serial_number);
    assert forall|i: int| 0 <= i < colon implies text[i] != ':' by {
        assert(text[i] == name[i]);
    }
    lemma_field_end_skips(text, 0, colon);
    assert(text[colon] == ':');
    assert(field_end(text, 0) == colon);
    assert forall|i: int| colon + 1 <= i < text.len() implies text[i] != ':' by {
        assert(text[i] == digits[i - colon - 1]);
        assert(digit_value(digits[i - colon - 1]) is Some);
    }
    lemma_field_end_skips(text, colon + 1, text.len() as int);
    assert(field_end(text, colon + 1) == text.len());
    assert(text.subrange(colon + 1, text.len() as int) =~= digits);
    assert(text.subrange(0, colon) =~= name);
}

} // verus!
