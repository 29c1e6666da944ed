//! Command lines: one pass over the arguments by a table of flags.
//!
//! Every flag has a rule. The first argument that no rule allows, or whose value its
//! rule refuses, ends the pass, as does a request for help; the last value of a flag
//! that is given more than once counts.
use crate::text::{
    decimal, parse_u32, parse_u64, parse_usize, parsed_number, same_text, u32_refusal, u64_refusal,
    usize_refusal,
};
use crate::text_laws::law_numbers_are_read_back;
use vstd::prelude::*;

verus! {

/// What a flag takes.
#[derive(Debug, Clone, Copy)]
pub enum Kind<'a> {
    /// A text.
    Text { missing: &'a str },
    /// A number; what is said of a text that is none follows `refusal`. Where `zero`
    /// is given, it is said of zero.
    Number { missing: &'a str, refusal: &'a str, zero: Option<&'a str> },
    /// A number of things in memory.
    Size { missing: &'a str, refusal: &'a str },
    /// A small number.
    Short { missing: &'a str, refusal: &'a str },
    /// One of two texts; another is named between `before` and `after`.
    Choice { missing: &'a str, first: &'a str, second: &'a str, before: &'a str, after: &'a str },
    /// Nothing.
    Switch,
    /// The flag is never allowed.
    Refused { message: &'a str },
    /// Help is asked for.
    Help,
}

/// The rule of one flag.
#[derive(Debug, Clone, Copy)]
pub struct Rule<'a> {
    pub flag: &'a str,
    pub kind: Kind<'a>,
}

/// A flag with a text.
#[verifier::allow_in_spec]
pub fn text_flag<'a>(flag: &'a str, missing: &'a str) -> Rule<'a>
    returns
        (Rule { flag, kind: Kind::Text { missing } }),
{
    Rule { flag, kind: Kind::Text { missing } }
}

/// A flag with a number.
#[verifier::allow_in_spec]
pub fn number_flag<'a>(flag: &'a str, missing: &'a str, refusal: &'a str) -> Rule<'a>
    returns
        (Rule { flag, kind: Kind::Number { missing, refusal, zero: None } }),
{
    Rule { flag, kind: Kind::Number { missing, refusal, zero: None } }
}

/// A flag with a number that is not zero.
#[verifier::allow_in_spec]
pub fn positive_flag<'a>(
    flag: &'a str,
    missing: &'a str,
    refusal: &'a str,
    zero: &'a str,
) -> Rule<'a>
    returns
        (Rule { flag, kind: Kind::Number { missing, refusal, zero: Some(zero) } }),
{
    Rule { flag, kind: Kind::Number { missing, refusal, zero: Some(zero) } }
}

/// A flag with a number of things in memory.
#[verifier::allow_in_spec]
pub fn size_flag<'a>(flag: &'a str, missing: &'a str, refusal: &'a str) -> Rule<'a>
    returns
        (Rule { flag, kind: Kind::Size { missing, refusal } }),
{
    Rule { flag, kind: Kind::Size { missing, refusal } }
}

/// A flag with a small number.
#[verifier::allow_in_spec]
pub fn short_flag<'a>(flag: &'a str, missing: &'a str, refusal: &'a str) -> Rule<'a>
    returns
        (Rule { flag, kind: Kind::Short { missing, refusal } }),
{
    Rule { flag, kind: Kind::Short { missing, refusal } }
}

/// A flag with one of two texts.
#[verifier::allow_in_spec]
pub fn choice_flag<'a>(
    flag: &'a str,
    missing: &'a str,
    first: &'a str,
    second: &'a str,
    before: &'a str,
    after: &'a str,
) -> Rule<'a>
    returns
        (Rule { flag, kind: Kind::Choice { missing, first, second, before, after } }),
{
    Rule { flag, kind: Kind::Choice { missing, first, second, before, after } }
}

/// A flag that takes nothing.
#[verifier::allow_in_spec]
pub fn switch_flag<'a>(flag: &'a str) -> Rule<'a>
    returns
        (Rule { flag, kind: Kind::Switch }),
{
    Rule { flag, kind: Kind::Switch }
}

/// A flag that is never allowed.
#[verifier::allow_in_spec]
pub fn refused_flag<'a>(flag: &'a str, message: &'a str) -> Rule<'a>
    returns
        (Rule { flag, kind: Kind::Refused { message } }),
{
    Rule { flag, kind: Kind::Refused { message } }
}

/// A flag that asks for help.
#[verifier::allow_in_spec]
pub fn help_flag<'a>(flag: &'a str) -> Rule<'a>
    returns
        (Rule { flag, kind: Kind::Help }),
{
    Rule { flag, kind: Kind::Help }
}

/// The value of a flag.
#[derive(Debug, PartialEq, Eq)]
pub enum FlagValue {
    Text(String),
    Number(u64),
    Size(usize),
    Short(u32),
    On,
}

/// What a value is, apart from its representation.
pub enum ValueView {
    Text(Seq<char>),
    Number(u64),
    Size(usize),
    Short(u32),
    On,
}

impl View for FlagValue {
    type V = ValueView;

    open spec fn view(&self) -> ValueView {
        match self {
            FlagValue::Text(text) => ValueView::Text(text@),
            FlagValue::Number(number) => ValueView::Number(*number),
            FlagValue::Size(size) => ValueView::Size(*size),
            FlagValue::Short(number) => ValueView::Short(*number),
            FlagValue::On => ValueView::On,
        }
    }
}

/// An optional value by its view.
pub open spec fn value_view(value: Option<FlagValue>) -> Option<ValueView> {
    match value {
        Some(value) => Some(value@),
        None => None,
    }
}

/// Values by their views.
pub open spec fn values_view(values: Seq<Option<FlagValue>>) -> Seq<Option<ValueView>> {
    values.map_values(|value: Option<FlagValue>| value_view(value))
}

/// Arguments by their views.
pub open spec fn arguments_view(arguments: Seq<String>) -> Seq<Seq<char>> {
    arguments.map_values(|argument: String| argument@)
}

/// What a pass over the arguments came to.
#[derive(Debug, PartialEq, Eq)]
pub enum Scan {
    Help,
    Refused(String),
    /// The value of each rule, in the order of the rules.
    Given(Vec<Option<FlagValue>>),
}

/// What such a result is, apart from its representation.
pub enum ScanView {
    Help,
    Refused(Seq<char>),
    Given(Seq<Option<ValueView>>),
}

impl View for Scan {
    type V = ScanView;

    open spec fn view(&self) -> ScanView {
        match self {
            Scan::Help => ScanView::Help,
            Scan::Refused(message) => ScanView::Refused(message@),
            Scan::Given(values) => ScanView::Given(values_view(values@)),
        }
    }
}

/// The rule of a flag, or the number of rules.
pub open spec fn rule_index(rules: Seq<Rule<'_>>, flag: Seq<char>) -> nat
    decreases rules.len(),
{
    if rules.len() == 0 || rules[0].flag@ == flag {
        0
    } else {
        1 + rule_index(rules.skip(1), flag)
    }
}

/// What is said where the value of a flag is missing.
pub open spec fn missing_words(kind: Kind<'_>) -> Seq<char> {
    match kind {
        Kind::Text { missing } => missing@,
        Kind::Number { missing, .. } => missing@,
        Kind::Size { missing, .. } => missing@,
        Kind::Short { missing, .. } => missing@,
        Kind::Choice { missing, .. } => missing@,
        _ => Seq::empty(),
    }
}

/// What a flag makes of its value.
pub open spec fn taken(kind: Kind<'_>, text: Seq<char>) -> Result<ValueView, Seq<char>> {
    match kind {
        Kind::Number { refusal, zero, .. } => match parsed_number(text, u64::MAX as nat) {
            Some(number) => if number == 0 && zero is Some {
                Err(zero->0@)
            } else {
                Ok(ValueView::Number(number as u64))
            },
            None => Err(refusal@ + u64_refusal(text)),
        },
        Kind::Size { refusal, .. } => match parsed_number(text, usize::MAX as nat) {
            Some(number) => Ok(ValueView::Size(number as usize)),
            None => Err(refusal@ + usize_refusal(text, usize::MAX as nat)),
        },
        Kind::Short { refusal, .. } => match parsed_number(text, u32::MAX as nat) {
            Some(number) => Ok(ValueView::Short(number as u32)),
            None => Err(refusal@ + u32_refusal(text)),
        },
        Kind::Choice { first, second, before, after, .. } => if text == first@ || text
            == second@ {
            Ok(ValueView::Text(text))
        } else {
            Err(before@ + text + after@)
        },
        _ => Ok(ValueView::Text(text)),
    }
}

/// What the arguments come to, where the flags before them came to `values`. An
/// argument that no rule knows is answered with `unknown`, and its name where it is
/// `named`.
pub open spec fn scanned_with(
    arguments: Seq<Seq<char>>,
    rules: Seq<Rule<'_>>,
    unknown: Seq<char>,
    named: bool,
    values: Seq<Option<ValueView>>,
) -> ScanView
    decreases arguments.len(),
{
    if arguments.len() == 0 {
        ScanView::Given(values)
    } else {
        let at = rule_index(rules, arguments[0]);
        if at >= rules.len() {
            ScanView::Refused(
                if named {
                    unknown + arguments[0]
                } else {
                    unknown
                },
            )
        } else {
            match rules[at as int].kind {
                Kind::Help => ScanView::Help,
                Kind::Refused { message } => ScanView::Refused(message@),
                Kind::Switch => scanned_with(
                    arguments.skip(1),
                    rules,
                    unknown,
                    named,
                    values.update(at as int, Some(ValueView::On)),
                ),
                kind => if arguments.len() < 2 {
                    ScanView::Refused(missing_words(kind))
                } else {
                    match taken(kind, arguments[1]) {
                        Err(message) => ScanView::Refused(message),
                        Ok(value) => scanned_with(
                            arguments.skip(2),
                            rules,
                            unknown,
                            named,
                            values.update(at as int, Some(value)),
                        ),
                    }
                },
            }
        }
    }
}

/// What the arguments come to, where the flags before them came to `values` and an
/// argument that no rule knows is named.
pub open spec fn scanned(
    arguments: Seq<Seq<char>>,
    rules: Seq<Rule<'_>>,
    unknown: Seq<char>,
    values: Seq<Option<ValueView>>,
) -> ScanView {
    scanned_with(arguments, rules, unknown, true, values)
}

/// No value for any rule.
pub open spec fn no_values(count: nat) -> Seq<Option<ValueView>> {
    Seq::new(count, |i: int| None)
}

/// What the arguments come to.
pub open spec fn scan_of(
    arguments: Seq<Seq<char>>,
    rules: Seq<Rule<'_>>,
    unknown: Seq<char>,
) -> ScanView {
    scanned(arguments, rules, unknown, no_values(rules.len()))
}

proof fn lemma_rule_index(rules: Seq<Rule<'_>>, flag: Seq<char>)
    ensures
        rule_index(rules, flag) <= rules.len(),
    decreases rules.len(),
{
    if rules.len() > 0 {
        lemma_rule_index(rules.skip(1), flag);
    }
}

fn find_rule(rules: &Vec<Rule<'_>>, flag: &str) -> (found: usize)
    ensures
        found == rule_index(rules@, flag@),
        found <= rules@.len(),
{
    let mut at: usize = 0;
    assert(rules@.skip(0) =~= rules@);
    proof {
        lemma_rule_index(rules@, flag@);
    }
    while at < rules.len()
        invariant
            at <= rules@.len(),
            rule_index(rules@, flag@) <= rules@.len(),
            at + rule_index(rules@.skip(at as int), flag@) == rule_index(rules@, flag@),
        decreases rules@.len() - at,
    {
        if same_text(rules[at].flag, flag) {
            return at;
        }
        assert(rules@.skip(at as int).skip(1) =~= rules@.skip(at + 1));
        at += 1;
    }
    at
}

fn joined(before: &str, after: &str) -> (text: String)
    ensures
        text@ == before@ + after@,
{
    let mut text = String::new();
    text.append(before);
    text.append(after);
    assert(text@ =~= before@ + after@);
    text
}

fn take(kind: &Kind<'_>, text: &str) -> (value: Result<FlagValue, String>)
    ensures
        match value {
            Ok(value) => taken(*kind, text@) is Ok && taken(*kind, text@)->Ok_0 == value@,
            Err(message) => taken(*kind, text@) is Err && taken(*kind, text@)->Err_0 == message@,
        },
{
    match kind {
        Kind::Number { refusal, zero, .. } => match parse_u64(text) {
            Ok(number) => match zero {
                Some(message) => if number == 0 {
                    Err((*message).to_owned())
                } else {
                    Ok(FlagValue::Number(number))
                },
                None => Ok(FlagValue::Number(number)),
            },
            Err(error) => Err(joined(refusal, error.as_str())),
        },
        Kind::Size { refusal, .. } => match parse_usize(text) {
            Ok(number) => Ok(FlagValue::Size(number)),
            Err(error) => Err(joined(refusal, error.as_str())),
        },
        Kind::Short { refusal, .. } => match parse_u32(text) {
            Ok(number) => Ok(FlagValue::Short(number)),
            Err(error) => Err(joined(refusal, error.as_str())),
        },
        Kind::Choice { first, second, before, after, .. } => {
            if same_text(text, first) || same_text(text, second) {
                Ok(FlagValue::Text(text.to_owned()))
            } else {
                let mut message = String::new();
                message.append(before);
                message.append(text);
                message.append(after);
                assert(message@ =~= before@ + text@ + after@);
                Err(message)
            }
        },
        _ => Ok(FlagValue::Text(text.to_owned())),
    }
}

fn missing(kind: &Kind<'_>) -> (message: String)
    ensures
        message@ == missing_words(*kind),
{
    match kind {
        Kind::Text { missing } => (*missing).to_owned(),
        Kind::Number { missing, .. } => (*missing).to_owned(),
        Kind::Size { missing, .. } => (*missing).to_owned(),
        Kind::Short { missing, .. } => (*missing).to_owned(),
        Kind::Choice { missing, .. } => (*missing).to_owned(),
        _ => {
            let none = String::new();
            assert(none@ =~= missing_words(*kind));
            none
        },
    }
}

/// Passes over the arguments by the rules; what is said of an argument that no rule
/// knows is `unknown` and the argument.
pub fn scan(arguments: &[String], rules: &Vec<Rule<'_>>, unknown: &str) -> (result: Scan)
    ensures
        result@ == scan_of(arguments_view(arguments@), rules@, unknown@),
{
    scan_with(arguments, rules, unknown, true)
}

/// Passes over the arguments by the rules; what is said of an argument that no rule
/// knows is `unknown`, and the argument where it is `named`.
pub fn scan_with(
    arguments: &[String],
    rules: &Vec<Rule<'_>>,
    unknown: &str,
    named: bool,
) -> (result: Scan)
    ensures
        result@ == scanned_with(
            arguments_view(arguments@),
            rules@,
            unknown@,
            named,
            no_values(rules@.len()),
        ),
{
    let ghost view = arguments_view(arguments@);
    let ghost whole = scanned_with(view, rules@, unknown@, named, no_values(rules@.len()));
    let mut values: Vec<Option<FlagValue>> = Vec::new();
    let mut filled: usize = 0;
    while filled < rules.len()
        invariant
            filled <= rules@.len(),
            values@.len() == filled,
            forall|i: int| 0 <= i < filled ==> #[trigger] values@[i] is None,
        decreases rules@.len() - filled,
    {
        values.push(None);
        filled += 1;
    }
    assert(values_view(values@) =~= no_values(rules@.len()));
    assert(view.skip(0) =~= view);
    let total: usize = arguments.len();
    let mut at: usize = 0;
    while at < total
        invariant
            at <= total,
            total == arguments@.len(),
            view == arguments_view(arguments@),
            values@.len() == rules@.len(),
            whole == scanned_with(view, rules@, unknown@, named, no_values(rules@.len())),
            whole == scanned_with(
                view.skip(at as int),
                rules@,
                unknown@,
                named,
                values_view(values@),
            ),
        decreases total - at,
    {
        let ghost rest = view.skip(at as int);
        let ghost before = values_view(values@);
        assert(rest[0] == arguments@[at as int]@);
        let flag = arguments[at].as_str();
        let rule: usize = find_rule(rules, flag);
        if rule >= rules.len() {
            if named {
                return Scan::Refused(joined(unknown, flag));
            }
            return Scan::Refused(unknown.to_owned());
        }
        match &rules[rule].kind {
            Kind::Help => {
                return Scan::Help;
            },
            Kind::Refused { message } => {
                return Scan::Refused((*message).to_owned());
            },
            Kind::Switch => {
                values.set(rule, Some(FlagValue::On));
                proof {
                    assert(values_view(values@) =~= before.update(
                        rule as int,
                        Some(ValueView::On),
                    ));
                    assert(rest.skip(1) =~= view.skip(at + 1));
                }
                at += 1;
            },
            kind => {
                if total - at < 2 {
                    return Scan::Refused(missing(kind));
                }
                assert(rest[1] == arguments@[at + 1]@);
                match take(kind, arguments[at + 1].as_str()) {
                    Err(message) => {
                        return Scan::Refused(message);
                    },
                    Ok(value) => {
                        let ghost shown = value@;
                        values.set(rule, Some(value));
                        proof {
                            assert(values_view(values@) =~= before.update(
                                rule as int,
                                Some(shown),
                            ));
                            assert(rest.skip(2) =~= view.skip(at + 2));
                        }
                        at += 2;
                    },
                }
            },
        }
    }
    assert(view.skip(at as int).len() == 0);
    Scan::Given(values)
}

// Values.

/// The text of a rule.
pub open spec fn text_value(values: Seq<Option<ValueView>>, at: int) -> Option<Seq<char>> {
    match values[at] {
        Some(ValueView::Text(text)) => Some(text),
        _ => None,
    }
}

/// The number of a rule.
pub open spec fn number_value(values: Seq<Option<ValueView>>, at: int) -> Option<u64> {
    match values[at] {
        Some(ValueView::Number(number)) => Some(number),
        _ => None,
    }
}

/// The number of a rule, or another.
pub open spec fn number_or(values: Seq<Option<ValueView>>, at: int, default: u64) -> u64 {
    match values[at] {
        Some(ValueView::Number(number)) => number,
        _ => default,
    }
}

/// The size of a rule, or another.
pub open spec fn size_or(values: Seq<Option<ValueView>>, at: int, default: usize) -> usize {
    match values[at] {
        Some(ValueView::Size(size)) => size,
        _ => default,
    }
}

/// The small number of a rule, or another.
pub open spec fn short_or(values: Seq<Option<ValueView>>, at: int, default: u32) -> u32 {
    match values[at] {
        Some(ValueView::Short(number)) => number,
        _ => default,
    }
}

/// Whether a switch was given.
pub open spec fn is_on(values: Seq<Option<ValueView>>, at: int) -> bool {
    values[at] == Some(ValueView::On)
}

/// The text of a rule.
pub fn text_at(values: &Vec<Option<FlagValue>>, at: usize) -> (text: Option<String>)
    requires
        at < values@.len(),
    ensures
        match text {
            Some(text) => text_value(values_view(values@), at as int) == Some(text@),
            None => text_value(values_view(values@), at as int) is None,
        },
{
    match &values[at] {
        Some(FlagValue::Text(text)) => Some(text.clone()),
        _ => None,
    }
}

/// The number of a rule.
pub fn number_at(values: &Vec<Option<FlagValue>>, at: usize) -> (number: Option<u64>)
    requires
        at < values@.len(),
    ensures
        number == number_value(values_view(values@), at as int),
{
    match &values[at] {
        Some(FlagValue::Number(number)) => Some(*number),
        _ => None,
    }
}

/// The number of a rule, or another.
pub fn number_at_or(values: &Vec<Option<FlagValue>>, at: usize, default: u64) -> (number: u64)
    requires
        at < values@.len(),
    ensures
        number == number_or(values_view(values@), at as int, default),
{
    match &values[at] {
        Some(FlagValue::Number(number)) => *number,
        _ => default,
    }
}

/// The size of a rule, or another.
pub fn size_at_or(values: &Vec<Option<FlagValue>>, at: usize, default: usize) -> (size: usize)
    requires
        at < values@.len(),
    ensures
        size == size_or(values_view(values@), at as int, default),
{
    match &values[at] {
        Some(FlagValue::Size(size)) => *size,
        _ => default,
    }
}

/// The small number of a rule, or another.
pub fn short_at_or(values: &Vec<Option<FlagValue>>, at: usize, default: u32) -> (number: u32)
    requires
        at < values@.len(),
    ensures
        number == short_or(values_view(values@), at as int, default),
{
    match &values[at] {
        Some(FlagValue::Short(number)) => *number,
        _ => default,
    }
}

/// Whether a switch was given.
pub fn on_at(values: &Vec<Option<FlagValue>>, at: usize) -> (on: bool)
    requires
        at < values@.len(),
    ensures
        on == is_on(values_view(values@), at as int),
{
    match &values[at] {
        Some(FlagValue::On) => true,
        _ => false,
    }
}

/// A pass keeps one place for each rule.
pub proof fn lemma_scan_with_keeps_places(
    arguments: Seq<Seq<char>>,
    rules: Seq<Rule<'_>>,
    unknown: Seq<char>,
    named: bool,
    values: Seq<Option<ValueView>>,
)
    requires
        values.len() == rules.len(),
    ensures
        scanned_with(arguments, rules, unknown, named, values) matches ScanView::Given(given) ==> given.len()
            == rules.len(),
    decreases arguments.len(),
{
    if arguments.len() > 0 {
        let at = rule_index(rules, arguments[0]);
        if at < rules.len() {
            match rules[at as int].kind {
                Kind::Help => {},
                Kind::Refused { .. } => {},
                Kind::Switch => {
                    lemma_scan_with_keeps_places(
                        arguments.skip(1),
                        rules,
                        unknown,
                        named,
                        values.update(at as int, Some(ValueView::On)),
                    );
                },
                kind => {
                    if arguments.len() >= 2 {
                        if let Ok(value) = taken(kind, arguments[1]) {
                            lemma_scan_with_keeps_places(
                                arguments.skip(2),
                                rules,
                                unknown,
                                named,
                                values.update(at as int, Some(value)),
                            );
                        }
                    }
                },
            }
        }
    }
}

/// A pass keeps one place for each rule.
pub proof fn lemma_scan_keeps_places(
    arguments: Seq<Seq<char>>,
    rules: Seq<Rule<'_>>,
    unknown: Seq<char>,
    values: Seq<Option<ValueView>>,
)
    requires
        values.len() == rules.len(),
    ensures
        scanned(arguments, rules, unknown, values) matches ScanView::Given(given) ==> given.len()
            == rules.len(),
{
    lemma_scan_with_keeps_places(arguments, rules, unknown, true, values);
}

// Laws.

/// An argument that no rule knows is refused by its name wherever the pass reaches
/// it.
pub proof fn law_unknown_flags_are_refused(
    arguments: Seq<Seq<char>>,
    rules: Seq<Rule<'_>>,
    unknown: Seq<char>,
    values: Seq<Option<ValueView>>,
)
    requires
        arguments.len() > 0,
        rule_index(rules, arguments[0]) >= rules.len(),
    ensures
        scanned(arguments, rules, unknown, values) == ScanView::Refused(unknown + arguments[0]),
{
}

/// A flag that is never allowed is refused whatever follows it.
pub proof fn law_forbidden_flags_are_refused(
    arguments: Seq<Seq<char>>,
    rules: Seq<Rule<'_>>,
    unknown: Seq<char>,
    values: Seq<Option<ValueView>>,
)
    requires
        arguments.len() > 0,
        rule_index(rules, arguments[0]) < rules.len(),
        rules[rule_index(rules, arguments[0]) as int].kind is Refused,
    ensures
        scanned(arguments, rules, unknown, values) is Refused,
{
}

/// The rule of a flag is the first that has it.
pub proof fn law_the_first_rule_of_a_flag_counts(rules: Seq<Rule<'_>>, flag: Seq<char>, at: int)
    requires
        0 <= at < rules.len(),
        rules[at].flag@ == flag,
        forall|i: int| 0 <= i < at ==> (#[trigger] rules[i]).flag@ != flag,
    ensures
        rule_index(rules, flag) == at,
    decreases rules.len(),
{
    if at > 0 {
        let rest = rules.skip(1);
        assert(rules[0].flag@ != flag);
        assert forall|i: int| 0 <= i < at - 1 implies (#[trigger] rest[i]).flag@ != flag by {
            assert(rest[i] == rules[i + 1]);
        }
        law_the_first_rule_of_a_flag_counts(rest, flag, at - 1);
    }
}

/// Arguments are read one after the other: what follows goes on from what came before.
pub proof fn law_arguments_are_read_one_after_the_other(
    first: Seq<Seq<char>>,
    second: Seq<Seq<char>>,
    rules: Seq<Rule<'_>>,
    unknown: Seq<char>,
    named: bool,
    values: Seq<Option<ValueView>>,
)
    ensures
        scanned_with(first, rules, unknown, named, values) matches ScanView::Given(given)
            ==> scanned_with(first + second, rules, unknown, named, values) == scanned_with(
            second,
            rules,
            unknown,
            named,
            given,
        ),
        scanned_with(first, rules, unknown, named, values) is Help ==> scanned_with(
            first + second,
            rules,
            unknown,
            named,
            values,
        ) is Help,
    decreases first.len(),
{
    let all = first + second;
    if first.len() == 0 {
        assert(all =~= second);
    } else {
        assert(all[0] == first[0]);
        let at = rule_index(rules, first[0]);
        if at < rules.len() {
            match rules[at as int].kind {
                Kind::Help => {},
                Kind::Refused { .. } => {},
                Kind::Switch => {
                    assert(all.skip(1) =~= first.skip(1) + second);
                    law_arguments_are_read_one_after_the_other(
                        first.skip(1),
                        second,
                        rules,
                        unknown,
                        named,
                        values.update(at as int, Some(ValueView::On)),
                    );
                },
                kind => {
                    if first.len() >= 2 {
                        assert(all[1] == first[1]);
                        if let Ok(value) = taken(kind, first[1]) {
                            assert(all.skip(2) =~= first.skip(2) + second);
                            law_arguments_are_read_one_after_the_other(
                                first.skip(2),
                                second,
                                rules,
                                unknown,
                                named,
                                values.update(at as int, Some(value)),
                            );
                        }
                    }
                },
            }
        }
    }
}

/// A flag with its value fills the place of its rule and no other.
pub proof fn law_a_flag_fills_its_place(
    flag: Seq<char>,
    text: Seq<char>,
    rules: Seq<Rule<'_>>,
    at: int,
    unknown: Seq<char>,
    named: bool,
    values: Seq<Option<ValueView>>,
)
    requires
        0 <= at < rules.len(),
        rules[at].flag@ == flag,
        forall|i: int| 0 <= i < at ==> (#[trigger] rules[i]).flag@ != flag,
        rules[at].kind !is Help,
        rules[at].kind !is Refused,
    ensures
        rules[at].kind is Switch ==> scanned_with(seq![flag], rules, unknown, named, values)
            == ScanView::Given(values.update(at, Some(ValueView::On))),
        rules[at].kind !is Switch ==> scanned_with(seq![flag, text], rules, unknown, named, values)
            == (match taken(rules[at].kind, text) {
            Ok(value) => ScanView::Given(values.update(at, Some(value))),
            Err(message) => ScanView::Refused(message),
        }),
        rules[at].kind !is Switch ==> scanned_with(seq![flag], rules, unknown, named, values)
            is Refused,
{
    law_the_first_rule_of_a_flag_counts(rules, flag, at);
    reveal_with_fuel(scanned_with, 2);
    assert(seq![flag].skip(1) =~= Seq::<Seq<char>>::empty());
    assert(seq![flag, text].skip(2) =~= Seq::<Seq<char>>::empty());
}

/// A number is taken as it is written, within its type, and zero only where it may be; texts are
/// taken as they are, a choice only where it is one of the two.
pub proof fn law_values_are_taken_as_written(kind: Kind<'_>, number: nat, text: Seq<char>)
    ensures
        kind matches Kind::Number { zero, .. } ==> (taken(kind, decimal(number)) == Ok::<
            _,
            Seq<char>,
        >(ValueView::Number(number as u64)) <==> number <= u64::MAX && (number > 0 || zero
            is None)),
        kind is Number && number > u64::MAX ==> taken(kind, decimal(number)) is Err,
        kind is Size && number <= usize::MAX ==> taken(kind, decimal(number)) == Ok::<_, Seq<char>>(
            ValueView::Size(number as usize),
        ),
        kind is Size && number > usize::MAX ==> taken(kind, decimal(number)) is Err,
        kind is Short && number <= u32::MAX ==> taken(kind, decimal(number)) == Ok::<_, Seq<char>>(
            ValueView::Short(number as u32),
        ),
        kind is Short && number > u32::MAX ==> taken(kind, decimal(number)) is Err,
        kind is Text ==> taken(kind, text) == Ok::<_, Seq<char>>(ValueView::Text(text)),
        kind matches Kind::Choice { first, second, .. } ==> (taken(kind, text) is Ok <==> text
            == first@ || text == second@),
        kind is Choice && taken(kind, text) is Ok ==> taken(kind, text) == Ok::<_, Seq<char>>(
            ValueView::Text(text),
        ),
{
    law_numbers_are_read_back(number, u64::MAX as nat);
    law_numbers_are_read_back(number, usize::MAX as nat);
    law_numbers_are_read_back(number, u32::MAX as nat);
}

/// A place gives what fills it, and the default only where nothing does.
pub proof fn law_places_give_what_fills_them(
    values: Seq<Option<ValueView>>,
    at: int,
    text: Seq<char>,
    number: u64,
    size: usize,
    short: u32,
    default: u64,
)
    requires
        0 <= at < values.len(),
    ensures
        text_value(values.update(at, Some(ValueView::Text(text))), at) == Some(text),
        number_value(values.update(at, Some(ValueView::Number(number))), at) == Some(number),
        number_or(values.update(at, Some(ValueView::Number(number))), at, default) == number,
        size_or(values.update(at, Some(ValueView::Size(size))), at, default as usize) == size,
        short_or(values.update(at, Some(ValueView::Short(short))), at, default as u32) == short,
        is_on(values.update(at, Some(ValueView::On)), at),
        values[at] is None ==> text_value(values, at) is None && number_value(values, at) is None
            && number_or(values, at, default) == default && size_or(values, at, size) == size
            && short_or(values, at, short) == short && !is_on(values, at),
{
}

} // verus!
