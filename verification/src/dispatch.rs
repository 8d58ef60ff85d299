//! The dispatcher: holds a committed set of values to the shape that the
//! formula asks for and routes it. Every failure becomes a text for the user.
//!
//! The factorial is computed here. Every other formula needs arithmetic on
//! real numbers: for those the dispatcher returns the validated arguments,
//! and the caller, who owns the numeric routines, reports back through
//! [`conclude`].

use crate::catalog::{
    field_count, field_labels, fields_of, formula_name, formula_named, lemma_named_has_name,
    not_found_text, Formula,
};
use crate::numeric::{factorial_text, get_factorial};
use crate::text::{
    integer_of, is_decimal_number, is_list_of_numbers, is_number, is_number_list, occurs_in,
    parse_integer, str_contains, trim, trimmed,
};
use crate::value::{number_equals, number_is};
use vstd::prelude::*;
use vstd::string::*;

verus! {

/// One validated argument of a numeric routine.
#[derive(Debug, PartialEq, Eq)]
pub enum Argument {
    /// A field that must be a whole number, parsed.
    Integer(u64),
    /// A field that is a real number: its text, trimmed, a decimal number.
    Real(String),
}

/// What an [`Argument`] stands for.
pub enum ArgumentView {
    Integer(u64),
    Real(Seq<char>),
}

impl View for Argument {
    type V = ArgumentView;

    open spec fn view(&self) -> ArgumentView {
        match self {
            Argument::Integer(n) => ArgumentView::Integer(*n),
            Argument::Real(text) => ArgumentView::Real(text@),
        }
    }
}

/// A call of the numeric routine of `formula`, with one argument per field,
/// in the order of the fields.
#[derive(Debug, PartialEq, Eq)]
pub struct Request {
    pub formula: Formula,
    pub arguments: Vec<Argument>,
}

/// How a dispatch ends.
#[derive(Debug, PartialEq, Eq)]
pub enum Dispatch {
    /// What the user must mend.
    Diagnostic(String),
    /// The computed value.
    Value(String),
    /// The numeric routine to run, with its arguments.
    Compute(Request),
}

/// What a [`Dispatch`] stands for.
pub enum Outcome {
    Diagnostic(Seq<char>),
    Value(Seq<char>),
    Compute(Formula, Seq<ArgumentView>),
}

impl View for Dispatch {
    type V = Outcome;

    open spec fn view(&self) -> Outcome {
        match self {
            Dispatch::Diagnostic(text) => Outcome::Diagnostic(text@),
            Dispatch::Value(text) => Outcome::Value(text@),
            Dispatch::Compute(request) => Outcome::Compute(
                request.formula,
                request.arguments@.map_values(|a: Argument| a@),
            ),
        }
    }
}

pub open spec fn incomplete_text() -> Seq<char> {
    "All inputs are not filled yet."@
}

/// The incomplete-input text of the interval formulas, which lists the
/// confidence levels to choose from.
pub open spec fn interval_incomplete_text() -> Seq<char> {
    incomplete_text() + "\nPlease select a C-Level of"@ + " "@ + "90"@ + ","@ + " "@ + "95"@
        + ","@ + " "@ + "99"@ + ","@ + "."@
}

pub open spec fn not_numbers_text() -> Seq<char> {
    "Not all inputs are numbers. Please enter them again."@
}

pub open spec fn not_number_lists_text() -> Seq<char> {
    "Not all list entries are numbers. Please enter them again."@
}

pub open spec fn one_integer_text() -> Seq<char> {
    "The number must be an integer without a decimal. Please try again."@
}

pub open spec fn both_integers_text() -> Seq<char> {
    "Both numbers must be an integer without a decimal. Please try again."@
}

/// What is shown where more items are to be taken than there are.
pub open spec fn order_text() -> Seq<char> {
    "r must not be greater than n. Please try again."@
}

pub open spec fn level_text() -> Seq<char> {
    "Please select a confidence level from the list."@
}

/// `name` is of the interval family.
pub open spec fn is_interval_name(name: Seq<char>) -> bool {
    occurs_in("Interval"@, name)
}

/// `name` is of the regression family, whose fields are comma-separated
/// lists.
pub open spec fn is_list_name(name: Seq<char>) -> bool {
    occurs_in("Regression"@, name)
}

/// `text` is one of the confidence levels on offer: a decimal number whose
/// value is 90, 95 or 99, however it is written.
pub open spec fn is_level(text: Seq<char>) -> bool {
    number_is(text, 90) || number_is(text, 95) || number_is(text, 99)
}

/// What is shown while values are missing.
pub open spec fn incomplete_text_of(name: Seq<char>) -> Seq<char> {
    if is_interval_name(name) {
        interval_incomplete_text()
    } else {
        incomplete_text()
    }
}

/// The dispatcher has a route for `formula`.
pub open spec fn is_routed(formula: Formula) -> bool {
    match formula {
        Formula::ZTest | Formula::TTest | Formula::TwoSampleTTest | Formula::TwoPropZTest => false,
        _ => true,
    }
}

/// The field at `at` of `formula` must hold a whole number.
pub open spec fn integer_field(formula: Formula, at: int) -> bool {
    match formula {
        Formula::Factorial => at == 0,
        Formula::Permutations | Formula::Combinations => at == 0 || at == 1,
        Formula::BinomialPdf => at == 0 || at == 2,
        Formula::BinomialCdf => at == 0,
        Formula::GeometricPdf | Formula::PoissonPdf => at == 1,
        _ => false,
    }
}

/// The last field of `formula` is a confidence level.
pub open spec fn has_level(formula: Formula) -> bool {
    match formula {
        Formula::ZInterval
        | Formula::TInterval
        | Formula::TwoSampleTInterval
        | Formula::TwoPropZInterval => true,
        _ => false,
    }
}

/// `formula` takes `r` items out of `n`: its first field is `n`, its second
/// `r`, both whole numbers.
pub open spec fn takes_from_count(formula: Formula) -> bool {
    formula == Formula::Permutations || formula == Formula::Combinations
}

/// Where `formula` takes `r` items out of `n`, `r` is not greater than `n`.
pub open spec fn counts_in_order(formula: Formula, values: Seq<Seq<char>>) -> bool {
    takes_from_count(formula) ==> integer_of(values[1]).unwrap() <= integer_of(
        values[0],
    ).unwrap()
}

/// What is shown where a field of `formula` that must be a whole number is
/// not one.
pub open spec fn integer_text(formula: Formula) -> Seq<char> {
    match formula {
        Formula::Permutations | Formula::Combinations => both_integers_text(),
        _ => one_integer_text(),
    }
}

/// Every field of `formula` that must hold a whole number holds one.
pub open spec fn integers_given(formula: Formula, values: Seq<Seq<char>>) -> bool {
    forall|i: int|
        0 <= i < field_labels(formula).len() && integer_field(formula, i) ==> (#[trigger] integer_of(
            values[i],
        )) is Some
}

/// Every other field of `formula` holds, once trimmed, a decimal number.
pub open spec fn reals_given(formula: Formula, values: Seq<Seq<char>>) -> bool {
    forall|i: int|
        0 <= i < field_labels(formula).len() && !integer_field(formula, i) ==> is_decimal_number(
            #[trigger] trimmed(values[i]),
        )
}

/// The argument that the field at `at` of `formula` gives.
pub open spec fn argument_of(formula: Formula, values: Seq<Seq<char>>, at: int) -> ArgumentView {
    if integer_field(formula, at) {
        ArgumentView::Integer(integer_of(values[at]).unwrap())
    } else {
        ArgumentView::Real(trimmed(values[at]))
    }
}

/// The arguments of the numeric routine of `formula`: one per field, in the
/// order of the fields.
pub open spec fn arguments_of(formula: Formula, values: Seq<Seq<char>>) -> Seq<ArgumentView> {
    Seq::new(field_labels(formula).len(), |i: int| argument_of(formula, values, i))
}

/// Where the values `values`, one per field and in the order of the fields,
/// are routed under the name `name`.
///
/// In turn: a name without a route is not found; fewer values than fields
/// are incomplete; a field that must hold a whole number and does not is
/// reported; then more items to take than there are; then a confidence level
/// that is not on offer; then a field that is no number. What is left is
/// computed (the factorial) or handed out with its arguments.
pub open spec fn route_of(name: Seq<char>, values: Seq<Seq<char>>) -> Outcome {
    match formula_named(name) {
        Some(formula) => {
            if !is_routed(formula) {
                Outcome::Diagnostic(not_found_text())
            } else if values.len() < field_labels(formula).len() {
                Outcome::Diagnostic(incomplete_text_of(name))
            } else if !integers_given(formula, values) {
                Outcome::Diagnostic(integer_text(formula))
            } else if !counts_in_order(formula, values) {
                Outcome::Diagnostic(order_text())
            } else if has_level(formula) && !is_level(
                trimmed(values[field_labels(formula).len() - 1]),
            ) {
                Outcome::Diagnostic(level_text())
            } else if !reals_given(formula, values) {
                Outcome::Diagnostic(not_numbers_text())
            } else if formula == Formula::Factorial {
                Outcome::Value(factorial_text(integer_of(values[0]).unwrap()))
            } else {
                Outcome::Compute(formula, arguments_of(formula, values))
            }
        },
        None => Outcome::Diagnostic(not_found_text()),
    }
}

/// Every value is, once trimmed, a decimal number.
pub open spec fn all_numbers(values: Seq<Seq<char>>) -> bool {
    forall|i: int| 0 <= i < values.len() ==> is_decimal_number(trimmed(#[trigger] values[i]))
}

/// Every value is a comma-separated list of numbers.
pub open spec fn all_number_lists(values: Seq<Seq<char>>) -> bool {
    forall|i: int| 0 <= i < values.len() ==> is_number_list(#[trigger] values[i])
}

/// The committed list `inputs` holds a value for every field of `name`
/// behind its leading tag.
pub open spec fn is_complete(name: Seq<char>, inputs: Seq<Seq<char>>) -> bool {
    inputs.len() >= 1 + fields_of(name).len()
}

/// How the dispatch of the committed list `inputs` under the name `name`
/// ends. The first entry of `inputs` is the tag of the formula that the
/// values were collected for; the values follow.
pub open spec fn dispatch_of(name: Seq<char>, inputs: Seq<Seq<char>>) -> Outcome {
    if !is_complete(name, inputs) {
        Outcome::Diagnostic(incomplete_text_of(name))
    } else if is_list_name(name) && !all_number_lists(inputs.skip(1)) {
        Outcome::Diagnostic(not_number_lists_text())
    } else if !is_list_name(name) && !all_numbers(inputs.skip(1)) {
        Outcome::Diagnostic(not_numbers_text())
    } else {
        route_of(name, inputs.skip(1))
    }
}

/// What the routine of `formula` says where it rejects its parameters, if it
/// has parameters to reject.
pub open spec fn domain_text(formula: Formula) -> Option<Seq<char>> {
    match formula {
        Formula::Permutations | Formula::Combinations => Some(order_text()),
        Formula::NormalPdf | Formula::NormalCdf | Formula::InverseNormal => Some(
            "Ensure mean and std dev are numbers, and that std dev is greater than 0"@,
        ),
        Formula::TPdf | Formula::ChiSquarePdf => Some(
            "Ensure x and df are numbers, and that df is greater than 0"@,
        ),
        Formula::TCdf => Some(
            "Ensure both bounds and df are numbers, and that df is greater than 0"@,
        ),
        Formula::ChiSquareCdf => Some(
            "Ensure bounds and df are numbers, and that df is greater than 0"@,
        ),
        Formula::BinomialPdf => Some(
            "Ensure x, n, and p are numbers, and that df is greater than 0"@,
        ),
        Formula::BinomialCdf => Some("Ensure bounds, n, and p are numbers"@),
        Formula::FPdf => Some("Ensure df 1, df 2, and x are numbers"@),
        Formula::FCdf => Some("Ensure df 1, df 2, and bounds are numbers"@),
        Formula::GeometricPdf => Some("Ensure p and x are numbers"@),
        Formula::GeometricCdf => Some("Ensure p and bounds are numbers"@),
        Formula::PoissonPdf => Some("Ensure lambda and x are numbers"@),
        Formula::PoissonCdf => Some("Ensure lambda and bounds are numbers"@),
        _ => None,
    }
}

/// What is shown after the numeric routine of `formula` has run: the text it
/// computed, as it is; where it rejected its parameters, its own text for
/// that, or the general one where it has none.
pub open spec fn conclusion_of(formula: Formula, computed: Option<Seq<char>>) -> Seq<char> {
    match computed {
        Some(text) => text,
        None => match domain_text(formula) {
            Some(text) => text,
            None => not_numbers_text(),
        },
    }
}

impl Formula {
    /// Whether the dispatcher has a route for the formula.
    pub fn is_routed(self) -> (r: bool)
        ensures
            r == is_routed(self),
    {
        match self {
            Formula::ZTest | Formula::TTest | Formula::TwoSampleTTest | Formula::TwoPropZTest => false,
            _ => true,
        }
    }

    /// Whether the field at `at` must hold a whole number.
    pub fn integer_field(self, at: usize) -> (r: bool)
        ensures
            r == integer_field(self, at as int),
    {
        match self {
            Formula::Factorial => at == 0,
            Formula::Permutations | Formula::Combinations => at == 0 || at == 1,
            Formula::BinomialPdf => at == 0 || at == 2,
            Formula::BinomialCdf => at == 0,
            Formula::GeometricPdf | Formula::PoissonPdf => at == 1,
            _ => false,
        }
    }

    /// Whether the formula takes `r` items out of `n`.
    pub fn takes_from_count(self) -> (r: bool)
        ensures
            r == takes_from_count(self),
    {
        match self {
            Formula::Permutations | Formula::Combinations => true,
            _ => false,
        }
    }

    /// Whether the last field is a confidence level.
    pub fn has_level(self) -> (r: bool)
        ensures
            r == has_level(self),
    {
        match self {
            Formula::ZInterval
            | Formula::TInterval
            | Formula::TwoSampleTInterval
            | Formula::TwoPropZInterval => true,
            _ => false,
        }
    }

    /// What the numeric routine of the formula says where it rejects its
    /// parameters.
    pub fn domain_diagnostic(self) -> (r: Option<&'static str>)
        ensures
            r is Some == domain_text(self) is Some,
            r matches Some(text) ==> text@ == domain_text(self).unwrap(),
    {
        match self {
            Formula::Permutations | Formula::Combinations => Some(
                "r must not be greater than n. Please try again.",
            ),
            Formula::NormalPdf | Formula::NormalCdf | Formula::InverseNormal => Some(
                "Ensure mean and std dev are numbers, and that std dev is greater than 0",
            ),
            Formula::TPdf | Formula::ChiSquarePdf => Some(
                "Ensure x and df are numbers, and that df is greater than 0",
            ),
            Formula::TCdf => Some(
                "Ensure both bounds and df are numbers, and that df is greater than 0",
            ),
            Formula::ChiSquareCdf => Some(
                "Ensure bounds and df are numbers, and that df is greater than 0",
            ),
            Formula::BinomialPdf => Some(
                "Ensure x, n, and p are numbers, and that df is greater than 0",
            ),
            Formula::BinomialCdf => Some("Ensure bounds, n, and p are numbers"),
            Formula::FPdf => Some("Ensure df 1, df 2, and x are numbers"),
            Formula::FCdf => Some("Ensure df 1, df 2, and bounds are numbers"),
            Formula::GeometricPdf => Some("Ensure p and x are numbers"),
            Formula::GeometricCdf => Some("Ensure p and bounds are numbers"),
            Formula::PoissonPdf => Some("Ensure lambda and x are numbers"),
            Formula::PoissonCdf => Some("Ensure lambda and bounds are numbers"),
            _ => None,
        }
    }
}

/// Whether `text` is one of the confidence levels on offer: a decimal
/// number whose value is 90, 95 or 99. The level may be written in any way
/// that a number can be written: `95`, `95.0`, `+95`, `095` and `9.5e1` are
/// the same level.
pub fn is_confidence_level(text: &str) -> (r: bool)
    ensures
        r == is_level(text@),
{
    number_equals(text, 90) || number_equals(text, 95) || number_equals(text, 99)
}

/// What is shown while values are missing: for a name of the interval family
/// the text also lists the confidence levels to choose from.
pub fn incomplete_message(formula_name: &str) -> (r: String)
    ensures
        r@ == incomplete_text_of(formula_name@),
{
    let mut text: String = "All inputs are not filled yet.".to_owned();
    if str_contains(formula_name, "Interval") {
        text.append("\nPlease select a C-Level of");
        text.append(" ");
        text.append("90");
        text.append(",");
        text.append(" ");
        text.append("95");
        text.append(",");
        text.append(" ");
        text.append("99");
        text.append(",");
        text.append(".");
    }
    text
}

fn integers_are_given(formula: Formula, count: usize, input: &Vec<String>) -> (r: bool)
    requires
        count == field_labels(formula).len(),
        input.len() >= count,
    ensures
        r == integers_given(formula, input.deep_view()),
{
    let mut i: usize = 0;
    while i < count
        invariant
            i <= count,
            count == field_labels(formula).len(),
            input.len() >= count,
            forall|k: int|
                0 <= k < i && integer_field(formula, k) ==> (#[trigger] integer_of(
                    input.deep_view()[k],
                )) is Some,
        decreases count - i,
    {
        assert(input.deep_view()[i as int] == input@[i as int]@);
        if formula.integer_field(i) && parse_integer(input[i].as_str()).is_none() {
            return false;
        }
        i = i + 1;
    }
    true
}

fn counts_are_in_order(formula: Formula, input: &Vec<String>) -> (r: bool)
    requires
        input.len() >= field_labels(formula).len(),
        integers_given(formula, input.deep_view()),
    ensures
        r == counts_in_order(formula, input.deep_view()),
{
    if !formula.takes_from_count() {
        return true;
    }
    assert(integer_field(formula, 0) && integer_field(formula, 1));
    assert(integer_of(input.deep_view()[0]) is Some);
    assert(integer_of(input.deep_view()[1]) is Some);
    match (parse_integer(input[0].as_str()), parse_integer(input[1].as_str())) {
        (Some(n), Some(r)) => r <= n,
        _ => true,
    }
}

fn reals_are_given(formula: Formula, count: usize, input: &Vec<String>) -> (r: bool)
    requires
        count == field_labels(formula).len(),
        input.len() >= count,
    ensures
        r == reals_given(formula, input.deep_view()),
{
    let mut i: usize = 0;
    while i < count
        invariant
            i <= count,
            count == field_labels(formula).len(),
            input.len() >= count,
            forall|k: int|
                0 <= k < i && !integer_field(formula, k) ==> is_decimal_number(
                    #[trigger] trimmed(input.deep_view()[k]),
                ),
        decreases count - i,
    {
        assert(input.deep_view()[i as int] == input@[i as int]@);
        if !formula.integer_field(i) && !is_number(trim(input[i].as_str())) {
            return false;
        }
        i = i + 1;
    }
    true
}

fn arguments(formula: Formula, count: usize, input: &Vec<String>) -> (r: Vec<Argument>)
    requires
        count == field_labels(formula).len(),
        input.len() >= count,
        integers_given(formula, input.deep_view()),
    ensures
        r@.map_values(|a: Argument| a@) == arguments_of(formula, input.deep_view()),
{
    let mut list: Vec<Argument> = Vec::new();
    let mut i: usize = 0;
    while i < count
        invariant
            i <= count,
            count == field_labels(formula).len(),
            input.len() >= count,
            integers_given(formula, input.deep_view()),
            list.len() == i,
            forall|k: int|
                0 <= k < i ==> (#[trigger] list@[k])@ == argument_of(
                    formula,
                    input.deep_view(),
                    k,
                ),
        decreases count - i,
    {
        if formula.integer_field(i) {
            match parse_integer(input[i].as_str()) {
                Some(n) => {
                    list.push(Argument::Integer(n));
                },
                None => {
                    assert(integer_of(input.deep_view()[i as int]) is Some);
                    assert(false);
                },
            }
        } else {
            list.push(Argument::Real(trim(input[i].as_str()).to_owned()));
        }
        i = i + 1;
    }
    list
}

/// Routes the values `input`, one per field and in the order of the fields,
/// to the routine of the formula called `formula_name`.
///
/// A name without a route gives the not-found text, and fewer values than
/// the formula has fields the incomplete text. A field that must hold a
/// whole number and does not gives the integer text of the formula; more
/// items to take than there are give the order text; a
/// confidence level that is not on offer gives the level text; a field that
/// is no number gives the number text. Otherwise the factorial is computed,
/// and every other formula is handed out with its arguments.
pub fn match_formula_equations(formula_name: &str, input: &Vec<String>) -> (r: Dispatch)
    ensures
        r@ == route_of(formula_name@, input.deep_view()),
{
    let formula: Formula = match Formula::from_name(formula_name) {
        Some(formula) => formula,
        None => {
            return Dispatch::Diagnostic("No formula found with that name!".to_owned());
        },
    };
    if !formula.is_routed() {
        return Dispatch::Diagnostic("No formula found with that name!".to_owned());
    }
    let count: usize = formula.fields().len();
    if input.len() < count {
        return Dispatch::Diagnostic(incomplete_message(formula_name));
    }
    if !integers_are_given(formula, count, input) {
        return Dispatch::Diagnostic(
            match formula {
                Formula::Permutations | Formula::Combinations => {
                    "Both numbers must be an integer without a decimal. Please try again.".to_owned()
                },
                _ => "The number must be an integer without a decimal. Please try again.".to_owned(),
            },
        );
    }
    if !counts_are_in_order(formula, input) {
        return Dispatch::Diagnostic("r must not be greater than n. Please try again.".to_owned());
    }
    if formula.has_level() && !is_confidence_level(trim(input[count - 1].as_str())) {
        return Dispatch::Diagnostic("Please select a confidence level from the list.".to_owned());
    }
    if !reals_are_given(formula, count, input) {
        return Dispatch::Diagnostic(
            "Not all inputs are numbers. Please enter them again.".to_owned(),
        );
    }
    match formula {
        Formula::Factorial => {
            match parse_integer(input[0].as_str()) {
                Some(n) => Dispatch::Value(get_factorial(n)),
                None => {
                    assert(false);
                    Dispatch::Diagnostic(
                        "The number must be an integer without a decimal. Please try again.".to_owned(),
                    )
                },
            }
        },
        _ => Dispatch::Compute(Request { formula, arguments: arguments(formula, count, input) }),
    }
}

/// Dispatches the committed list `inputs` under the name `formula_name`. The
/// first entry of `inputs` is the tag of the formula that the values were
/// collected for; one value per field follows.
///
/// In turn: a list that does not hold a value for every field gives the
/// incomplete text; a value that is, once trimmed, no decimal number (for a
/// name of the regression family: no comma-separated list of numbers) gives
/// the number text; what is left is routed by [`match_formula_equations`].
pub fn attempt_formula(formula_name: &str, inputs: &Vec<String>) -> (r: Dispatch)
    ensures
        r@ == dispatch_of(formula_name@, inputs.deep_view()),
{
    if inputs.len() == 0 || inputs.len() - 1 < field_count(formula_name) {
        return Dispatch::Diagnostic(incomplete_message(formula_name));
    }
    let lists: bool = str_contains(formula_name, "Regression");
    let ghost all = inputs.deep_view();
    let mut values: Vec<String> = Vec::new();
    let mut i: usize = 1;
    while i < inputs.len()
        invariant
            1 <= i <= inputs.len(),
            all == inputs.deep_view(),
            is_complete(formula_name@, all),
            lists == is_list_name(formula_name@),
            values.deep_view() == all.skip(1).take(i - 1),
            lists ==> forall|k: int| 0 <= k < i - 1 ==> is_number_list(#[trigger] all.skip(1)[k]),
            !lists ==> forall|k: int|
                0 <= k < i - 1 ==> is_decimal_number(trimmed(#[trigger] all.skip(1)[k])),
        decreases inputs.len() - i,
    {
        if lists {
            if !is_list_of_numbers(inputs[i].as_str()) {
                assert(!is_number_list(all.skip(1)[i - 1]));
                return Dispatch::Diagnostic(
                    "Not all list entries are numbers. Please enter them again.".to_owned(),
                );
            }
        } else {
            if !is_number(trim(inputs[i].as_str())) {
                assert(!is_decimal_number(trimmed(all.skip(1)[i - 1])));
                return Dispatch::Diagnostic(
                    "Not all inputs are numbers. Please enter them again.".to_owned(),
                );
            }
        }
        let ghost before = values.deep_view();
        values.push(inputs[i].clone());
        assert(values.deep_view() =~= before.push(all[i as int]));
        i = i + 1;
    }
    assert(all.skip(1).take(inputs.len() - 1) =~= all.skip(1));
    match_formula_equations(formula_name, &values)
}

/// What is shown after the numeric routine of `formula` has run. `computed`
/// is the text that the routine computed, or `None` where it rejected its
/// parameters: then the formula's own text for that is shown, or the number
/// text where it has none.
pub fn conclude(formula: Formula, computed: Option<String>) -> (r: String)
    ensures
        r@ == conclusion_of(
            formula,
            match computed {
                Some(text) => Some(text@),
                None => None,
            },
        ),
{
    match computed {
        Some(text) => text,
        None => match formula.domain_diagnostic() {
            Some(text) => text.to_owned(),
            None => "Not all inputs are numbers. Please enter them again.".to_owned(),
        },
    }
}

/// A text occurs in every text that it is a part of.
pub proof fn lemma_occurs_between(before: Seq<char>, part: Seq<char>, after: Seq<char>)
    ensures
        occurs_in(part, before + part + after),
{
    let whole = before + part + after;
    let at = before.len() as int;
    assert(whole.subrange(at, at + part.len()) =~= part);
}

/// Both incomplete-input texts hold the sentence that says so, and the one
/// of the interval formulas also holds each confidence level on offer.
pub proof fn lemma_incomplete_texts()
    ensures
        occurs_in(incomplete_text(), incomplete_text()),
        occurs_in(incomplete_text(), interval_incomplete_text()),
        occurs_in("90"@, interval_incomplete_text()),
        occurs_in("95"@, interval_incomplete_text()),
        occurs_in("99"@, interval_incomplete_text()),
{
    let head = incomplete_text();
    let lead = "\nPlease select a C-Level of"@;
    let gap = " "@;
    let comma = ","@;
    let stop = "."@;
    let whole = interval_incomplete_text();
    let none = Seq::<char>::empty();
    lemma_occurs_between(none, head, none);
    lemma_occurs_between(
        none,
        head,
        lead + gap + "90"@ + comma + gap + "95"@ + comma + gap + "99"@ + comma + stop,
    );
    assert(none + head + (lead + gap + "90"@ + comma + gap + "95"@ + comma + gap + "99"@ + comma
        + stop) =~= whole);
    lemma_occurs_between(
        head + lead + gap,
        "90"@,
        comma + gap + "95"@ + comma + gap + "99"@ + comma + stop,
    );
    assert((head + lead + gap) + "90"@ + (comma + gap + "95"@ + comma + gap + "99"@ + comma + stop)
        =~= whole);
    lemma_occurs_between(
        head + lead + gap + "90"@ + comma + gap,
        "95"@,
        comma + gap + "99"@ + comma + stop,
    );
    assert((head + lead + gap + "90"@ + comma + gap) + "95"@ + (comma + gap + "99"@ + comma + stop)
        =~= whole);
    lemma_occurs_between(
        head + lead + gap + "90"@ + comma + gap + "95"@ + comma + gap,
        "99"@,
        comma + stop,
    );
    assert((head + lead + gap + "90"@ + comma + gap + "95"@ + comma + gap) + "99"@ + (comma + stop)
        =~= whole);
}

/// A committed list that lacks a value for a field is never dispatched
/// further: whatever the name and whatever the values, the result is the
/// incomplete-input text, which says that not all inputs are filled, and
/// which for a name of the interval family also holds each of the
/// confidence levels 90, 95 and 99.
pub proof fn lemma_incomplete_dispatch(name: Seq<char>, inputs: Seq<Seq<char>>)
    requires
        inputs.len() < 1 + fields_of(name).len(),
    ensures
        dispatch_of(name, inputs) == Outcome::Diagnostic(incomplete_text_of(name)),
        occurs_in(incomplete_text(), incomplete_text_of(name)),
        is_interval_name(name) ==> occurs_in("90"@, incomplete_text_of(name)) && occurs_in(
            "95"@,
            incomplete_text_of(name),
        ) && occurs_in("99"@, incomplete_text_of(name)),
{
    lemma_incomplete_texts();
}

/// A name that the catalog does not hold is never computed: every dispatch
/// under it ends in a text, and a complete list of well-formed values ends
/// in the not-found text.
pub proof fn lemma_unknown_name(name: Seq<char>, inputs: Seq<Seq<char>>)
    requires
        formula_named(name) is None,
    ensures
        dispatch_of(name, inputs) is Diagnostic,
        route_of(name, inputs.skip(1)) == Outcome::Diagnostic(not_found_text()),
        is_complete(name, inputs) && (if is_list_name(name) {
            all_number_lists(inputs.skip(1))
        } else {
            all_numbers(inputs.skip(1))
        }) ==> dispatch_of(name, inputs) == Outcome::Diagnostic(not_found_text()),
{
}

/// No formula with a confidence level is of the regression family.
pub proof fn lemma_level_names(formula: Formula)
    requires
        has_level(formula),
    ensures
        !is_list_name(formula_name(formula)),
{
    reveal_strlit("Regression");
    reveal_strlit("z Interval");
    reveal_strlit("t Interval");
    reveal_strlit("2-Sample t Interval");
    reveal_strlit("2-Prop z Interval");
    let name = formula_name(formula);
    assert forall|i: int| 0 <= i < name.len() implies name[i] != 'R' by {}
    assert forall|i: int| 0 <= i && i + 10 <= name.len() implies #[trigger] name.subrange(i, i + 10)
        != "Regression"@ by {
        assert(name.subrange(i, i + 10)[0] == name[i]);
    }
}

/// A confidence level that is not on offer is reported whatever the other
/// fields hold, as soon as the values are routed: for a formula with a
/// confidence level and a value for each of its fields, a last value that
/// is, once trimmed, none of 90, 95 and 99 gives the level text.
pub proof fn lemma_level_not_offered(name: Seq<char>, values: Seq<Seq<char>>)
    requires
        values.len() >= fields_of(name).len(),
        formula_named(name) matches Some(formula) && has_level(formula) && !is_level(
            trimmed(values[field_labels(formula).len() - 1]),
        ),
    ensures
        route_of(name, values) == Outcome::Diagnostic(level_text()),
{
}

/// A confidence level on offer goes through: for a formula with a
/// confidence level and a value for each of its fields, all of them numbers
/// and the last of them a number with the value 90, 95 or 99, the routine of
/// the formula is asked for with the trimmed values in the order of the
/// fields.
pub proof fn lemma_level_offered(name: Seq<char>, values: Seq<Seq<char>>)
    requires
        formula_named(name) matches Some(formula) && has_level(formula) && values.len()
            >= field_labels(formula).len() && reals_given(formula, values) && is_level(
            trimmed(values[field_labels(formula).len() - 1]),
        ),
    ensures
        route_of(name, values) == Outcome::Compute(
            formula_named(name).unwrap(),
            arguments_of(formula_named(name).unwrap(), values),
        ),
{
}

/// A confidence level is a number: what is taken for a level is never
/// reported as no number.
pub proof fn lemma_level_is_a_number(text: Seq<char>)
    requires
        is_level(text),
    ensures
        is_decimal_number(text),
{
}

/// A complete committed list whose values are all numbers, dispatched under
/// a formula with a confidence level, gives the level text where the level
/// is not on offer.
pub proof fn lemma_level_dispatch(name: Seq<char>, inputs: Seq<Seq<char>>)
    requires
        formula_named(name) matches Some(formula) && has_level(formula) && !is_level(
            trimmed(inputs[field_labels(formula).len() as int]),
        ),
        is_complete(name, inputs),
        all_numbers(inputs.skip(1)),
    ensures
        dispatch_of(name, inputs) == Outcome::Diagnostic(level_text()),
{
    let formula = formula_named(name).unwrap();
    lemma_named_has_name(name, 0);
    lemma_level_names(formula);
    assert(inputs.skip(1)[field_labels(formula).len() - 1] == inputs[field_labels(
        formula,
    ).len() as int]);
}

/// To take more items than there are is never handed out: for permutations
/// and combinations with whole numbers `n` and `r`, `r` greater than `n`,
/// the result is the order text.
pub proof fn lemma_count_order(name: Seq<char>, values: Seq<Seq<char>>, n: u64, r: u64)
    requires
        formula_named(name) matches Some(formula) && takes_from_count(formula),
        values.len() >= 2,
        integer_of(values[0]) == Some(n),
        integer_of(values[1]) == Some(r),
        r > n,
    ensures
        route_of(name, values) == Outcome::Diagnostic(order_text()),
{
    let formula = formula_named(name).unwrap();
    assert(integers_given(formula, values)) by {
        assert forall|i: int|
            0 <= i < field_labels(formula).len() && integer_field(formula, i) implies (
            #[trigger] integer_of(values[i])) is Some by {}
    }
}

/// What is handed out is ready for the numeric routine: only a formula with
/// a route is handed out, with one argument per field; where the field must
/// hold a whole number the argument is that number, and everywhere else it
/// is the trimmed text of the value, a decimal number. A confidence level
/// among them is one of those on offer, and of `r` items to take out of `n`
/// there are no more than `n`.
pub proof fn lemma_request_is_valid(name: Seq<char>, values: Seq<Seq<char>>)
    ensures
        route_of(name, values) matches Outcome::Compute(formula, arguments) ==> {
            &&& formula_named(name) == Some(formula)
            &&& is_routed(formula)
            &&& arguments.len() == field_labels(formula).len()
            &&& forall|i: int|
                0 <= i < arguments.len() ==> match #[trigger] arguments[i] {
                    ArgumentView::Integer(n) => integer_field(formula, i) && integer_of(values[i])
                        == Some(n),
                    ArgumentView::Real(text) => !integer_field(formula, i) && text == trimmed(
                        values[i],
                    ) && is_decimal_number(text),
                }
            &&& has_level(formula) ==> (arguments.last() matches ArgumentView::Real(level)
                && is_level(level))
            &&& takes_from_count(formula) ==> (arguments[0] matches ArgumentView::Integer(n)
                && arguments[1] matches ArgumentView::Integer(r) && r <= n)
        },
{
    match route_of(name, values) {
        Outcome::Compute(formula, arguments) => {
            assert forall|i: int| 0 <= i < arguments.len() implies #[trigger] arguments[i]
                == argument_of(formula, values, i) by {}
        },
        _ => {},
    }
}

/// The text shown after a numeric routine has run is the text it computed,
/// unchanged.
pub proof fn lemma_computed_text_is_kept(formula: Formula, text: Seq<char>)
    ensures
        conclusion_of(formula, Some(text)) == text,
{
}

} // verus!
