//! The catalog: every formula that has a field list, its display name, and
//! the labels of its fields in the order in which values are collected.

use crate::text::str_eq;
use vstd::prelude::*;
use vstd::string::*;

verus! {

/// A formula of the catalog.
#[derive(Clone, Copy, PartialEq, Eq, Structural, Debug)]
pub enum Formula {
    Factorial,
    Permutations,
    Combinations,
    NormalPdf,
    NormalCdf,
    InverseNormal,
    TPdf,
    TCdf,
    ChiSquarePdf,
    ChiSquareCdf,
    BinomialPdf,
    BinomialCdf,
    FPdf,
    FCdf,
    GeometricPdf,
    GeometricCdf,
    PoissonPdf,
    PoissonCdf,
    ZInterval,
    TInterval,
    TwoSampleTInterval,
    TwoPropZInterval,
    ZTest,
    TTest,
    TwoSampleTTest,
    TwoPropZTest,
}

/// The display name under which `formula` is listed and looked up.
pub open spec fn formula_name(formula: Formula) -> Seq<char> {
    match formula {
        Formula::Factorial => "Factorial (!)"@,
        Formula::Permutations => "Permutations"@,
        Formula::Combinations => "Combinations"@,
        Formula::NormalPdf => "Normal Pdf"@,
        Formula::NormalCdf => "Normal Cdf"@,
        Formula::InverseNormal => "Inverse Normal"@,
        Formula::TPdf => "t Pdf"@,
        Formula::TCdf => "t Cdf"@,
        Formula::ChiSquarePdf => "χ2 Pdf"@,
        Formula::ChiSquareCdf => "χ2 Cdf"@,
        Formula::BinomialPdf => "Binomial Pdf"@,
        Formula::BinomialCdf => "Binomial Cdf"@,
        Formula::FPdf => "F Pdf"@,
        Formula::FCdf => "F Cdf"@,
        Formula::GeometricPdf => "Geometric Pdf"@,
        Formula::GeometricCdf => "Geometric Cdf"@,
        Formula::PoissonPdf => "Poisson Pdf"@,
        Formula::PoissonCdf => "Poisson Cdf"@,
        Formula::ZInterval => "z Interval"@,
        Formula::TInterval => "t Interval"@,
        Formula::TwoSampleTInterval => "2-Sample t Interval"@,
        Formula::TwoPropZInterval => "2-Prop z Interval"@,
        Formula::ZTest => "z Test"@,
        Formula::TTest => "t Test"@,
        Formula::TwoSampleTTest => "2-Sample t Test"@,
        Formula::TwoPropZTest => "2-Prop z Test"@,
    }
}

/// The catalog, in the order in which a name is looked up.
pub open spec fn catalog() -> Seq<Formula> {
    seq![
        Formula::Factorial,
        Formula::Permutations,
        Formula::Combinations,
        Formula::NormalPdf,
        Formula::NormalCdf,
        Formula::InverseNormal,
        Formula::TPdf,
        Formula::TCdf,
        Formula::ChiSquarePdf,
        Formula::ChiSquareCdf,
        Formula::BinomialPdf,
        Formula::BinomialCdf,
        Formula::FPdf,
        Formula::FCdf,
        Formula::GeometricPdf,
        Formula::GeometricCdf,
        Formula::PoissonPdf,
        Formula::PoissonCdf,
        Formula::ZInterval,
        Formula::TInterval,
        Formula::TwoSampleTInterval,
        Formula::TwoPropZInterval,
        Formula::ZTest,
        Formula::TTest,
        Formula::TwoSampleTTest,
        Formula::TwoPropZTest,
    ]
}

/// The first formula of the catalog, at or after position `from`, whose
/// display name is `name`.
pub open spec fn formula_named_from(name: Seq<char>, from: int) -> Option<Formula>
    decreases catalog().len() - from,
{
    if 0 <= from < catalog().len() {
        if formula_name(catalog()[from]) == name {
            Some(catalog()[from])
        } else {
            formula_named_from(name, from + 1)
        }
    } else {
        None
    }
}

/// The formula whose display name is `name`, if the catalog has one.
pub open spec fn formula_named(name: Seq<char>) -> Option<Formula> {
    formula_named_from(name, 0)
}

/// The labels of the fields of `formula`, in the order in which their values
/// are collected and handed to the numeric routine.
pub open spec fn field_labels(formula: Formula) -> Seq<Seq<char>> {
    match formula {
        Formula::Factorial => seq!["n"@],
        Formula::Permutations => seq!["n"@, "r"@],
        Formula::Combinations => seq!["n"@, "r"@],
        Formula::NormalPdf => seq!["x"@, "µ"@, "σ"@],
        Formula::NormalCdf => seq!["Lower Bound"@, "Upper Bound"@, "µ"@, "σ"@],
        Formula::InverseNormal => seq!["Area"@, "µ"@, "σ"@],
        Formula::TPdf => seq!["x"@, "Deg of Freedom, df"@],
        Formula::TCdf => seq!["Lower Bound"@, "Upper Bound"@, "Deg of Freedom, df"@],
        Formula::ChiSquarePdf => seq!["x"@, "Deg of Freedom, df"@],
        Formula::ChiSquareCdf => seq!["Lower Bound"@, "Upper Bound"@, "Deg of Freedom, df"@],
        Formula::BinomialPdf => seq!["Num Trials, n"@, "Prob Success, p"@, "x"@],
        Formula::BinomialCdf => seq![
            "Num Trials, n"@,
            "Prob Success, p"@,
            "Lower Bound"@,
            "Upper Bound"@,
        ],
        Formula::FPdf => seq!["x"@, "Numerator df"@, "Denominator df"@],
        Formula::FCdf => seq!["Lower Bound"@, "Upper Bound"@, "Numerator df"@, "Denominator df"@],
        Formula::GeometricPdf => seq!["Prob Success, p"@, "x"@],
        Formula::GeometricCdf => seq!["Prob Success, p"@, "Lower Bound"@, "Upper Bound"@],
        Formula::PoissonPdf => seq!["λ"@, "x"@],
        Formula::PoissonCdf => seq!["λ"@, "Lower Bound"@, "Upper Bound"@],
        Formula::ZInterval => seq!["σ"@, "x̄"@, "n"@, "C Level"@],
        Formula::TInterval => seq!["x̄"@, "σ"@, "n"@, "C Level"@],
        Formula::TwoSampleTInterval => seq!["x̄1"@, "σ1"@, "n1"@, "x̄2"@, "σ2"@, "n2"@, "C Level"@],
        Formula::TwoPropZInterval => seq![
            "Successes, x1"@,
            "n1"@,
            "Successes, x2"@,
            "n2"@,
            "C Level"@,
        ],
        Formula::ZTest => seq!["µ0"@, "σ"@, "x̄"@, "n"@, "Alternate Hyp"@],
        Formula::TTest => seq!["µ0"@, "x̄"@, "σ"@, "n"@, "Alternate Hyp"@],
        Formula::TwoSampleTTest => seq![
            "x̄1"@,
            "σ1"@,
            "n1"@,
            "x̄2"@,
            "σ2"@,
            "n2"@,
            "Alternate Hyp"@,
            "Pooled"@,
        ],
        Formula::TwoPropZTest => seq![
            "Successes, x1"@,
            "n1"@,
            "Successes, x2"@,
            "n2"@,
            "Alternate Hyp"@,
        ],
    }
}

/// The text that stands for a name that the catalog does not hold.
pub open spec fn not_found_text() -> Seq<char> {
    "No formula found with that name!"@
}

/// What is shown as the field list of `name`: the labels of the formula of
/// that name, or the one-element list that holds the not-found text.
pub open spec fn fields_of(name: Seq<char>) -> Seq<Seq<char>> {
    match formula_named(name) {
        Some(formula) => field_labels(formula),
        None => seq![not_found_text()],
    }
}

/// Every field list has at least one entry, the one of an unknown name
/// included.
pub proof fn lemma_fields_nonempty(name: Seq<char>)
    ensures
        fields_of(name).len() > 0,
        formula_named(name) is None ==> fields_of(name) == seq![not_found_text()],
{
    match formula_named(name) {
        Some(formula) => {
            lemma_labels_nonempty(formula);
        },
        None => {},
    }
}

/// The not-found list tells an unknown name from a known one: the field
/// list of a name is the one-element list with the not-found text exactly
/// when the catalog holds no formula of that name.
pub proof fn lemma_sentinel_marks_unknown(name: Seq<char>)
    ensures
        (fields_of(name) == seq![not_found_text()]) == (formula_named(name) is None),
{
    match formula_named(name) {
        Some(formula) => {
            reveal_strlit("n");
            reveal_strlit("No formula found with that name!");
            assert(field_labels(formula).len() > 1 || field_labels(formula)[0].len() == 1);
            assert(seq![not_found_text()][0].len() == 32);
        },
        None => {},
    }
}

/// Every formula of the catalog has at least one field and at most eight.
pub proof fn lemma_labels_nonempty(formula: Formula)
    ensures
        1 <= field_labels(formula).len() <= 8,
{
}

/// What tells the labels of one formula apart: the first and the last
/// character.
pub open spec fn label_mark(label: Seq<char>) -> (char, char) {
    (label[0], label[label.len() - 1])
}

/// No formula has two fields with the same label.
pub proof fn lemma_labels_differ(formula: Formula, i: int, j: int)
    requires
        0 <= i < j < field_labels(formula).len(),
    ensures
        field_labels(formula)[i] != field_labels(formula)[j],
{
    reveal_strlit("n");
    reveal_strlit("r");
    reveal_strlit("x");
    reveal_strlit("µ");
    reveal_strlit("σ");
    reveal_strlit("Lower Bound");
    reveal_strlit("Upper Bound");
    reveal_strlit("Area");
    reveal_strlit("Deg of Freedom, df");
    reveal_strlit("Num Trials, n");
    reveal_strlit("Prob Success, p");
    reveal_strlit("Numerator df");
    reveal_strlit("Denominator df");
    reveal_strlit("λ");
    reveal_strlit("x̄");
    reveal_strlit("C Level");
    reveal_strlit("x̄1");
    reveal_strlit("σ1");
    reveal_strlit("n1");
    reveal_strlit("x̄2");
    reveal_strlit("σ2");
    reveal_strlit("n2");
    reveal_strlit("Successes, x1");
    reveal_strlit("Successes, x2");
    reveal_strlit("µ0");
    reveal_strlit("Alternate Hyp");
    reveal_strlit("Pooled");
    assert(label_mark(field_labels(formula)[i]) != label_mark(field_labels(formula)[j]));
}

/// A formula that a lookup finds carries the name that was looked up.
pub proof fn lemma_named_has_name(name: Seq<char>, from: int)
    requires
        0 <= from,
    ensures
        formula_named_from(name, from) matches Some(formula) ==> formula_name(formula) == name,
    decreases catalog().len() - from,
{
    if from < catalog().len() && formula_name(catalog()[from]) != name {
        lemma_named_has_name(name, from + 1);
    }
}

/// What tells the display names apart: the length, the first character and
/// the third character from the end.
pub open spec fn name_mark(name: Seq<char>) -> (nat, char, char) {
    (name.len(), name[0], name[name.len() - 3])
}

/// The mark of each display name.
pub open spec fn formula_mark(formula: Formula) -> (nat, char, char) {
    match formula {
        Formula::Factorial => (13, 'F', '('),
        Formula::Permutations => (12, 'P', 'o'),
        Formula::Combinations => (12, 'C', 'o'),
        Formula::NormalPdf => (10, 'N', 'P'),
        Formula::NormalCdf => (10, 'N', 'C'),
        Formula::InverseNormal => (14, 'I', 'm'),
        Formula::TPdf => (5, 't', 'P'),
        Formula::TCdf => (5, 't', 'C'),
        Formula::ChiSquarePdf => (6, 'χ', 'P'),
        Formula::ChiSquareCdf => (6, 'χ', 'C'),
        Formula::BinomialPdf => (12, 'B', 'P'),
        Formula::BinomialCdf => (12, 'B', 'C'),
        Formula::FPdf => (5, 'F', 'P'),
        Formula::FCdf => (5, 'F', 'C'),
        Formula::GeometricPdf => (13, 'G', 'P'),
        Formula::GeometricCdf => (13, 'G', 'C'),
        Formula::PoissonPdf => (11, 'P', 'P'),
        Formula::PoissonCdf => (11, 'P', 'C'),
        Formula::ZInterval => (10, 'z', 'v'),
        Formula::TInterval => (10, 't', 'v'),
        Formula::TwoSampleTInterval => (19, '2', 'v'),
        Formula::TwoPropZInterval => (17, '2', 'v'),
        Formula::ZTest => (6, 'z', 'e'),
        Formula::TTest => (6, 't', 'e'),
        Formula::TwoSampleTTest => (15, '2', 'e'),
        Formula::TwoPropZTest => (13, '2', 'e'),
    }
}

proof fn lemma_marks(formula: Formula)
    ensures
        name_mark(formula_name(formula)) == formula_mark(formula),
{
    match formula {
        Formula::Factorial => {
            reveal_strlit("Factorial (!)");
        },
        Formula::Permutations => {
            reveal_strlit("Permutations");
        },
        Formula::Combinations => {
            reveal_strlit("Combinations");
        },
        Formula::NormalPdf => {
            reveal_strlit("Normal Pdf");
        },
        Formula::NormalCdf => {
            reveal_strlit("Normal Cdf");
        },
        Formula::InverseNormal => {
            reveal_strlit("Inverse Normal");
        },
        Formula::TPdf => {
            reveal_strlit("t Pdf");
        },
        Formula::TCdf => {
            reveal_strlit("t Cdf");
        },
        Formula::ChiSquarePdf => {
            reveal_strlit("χ2 Pdf");
        },
        Formula::ChiSquareCdf => {
            reveal_strlit("χ2 Cdf");
        },
        Formula::BinomialPdf => {
            reveal_strlit("Binomial Pdf");
        },
        Formula::BinomialCdf => {
            reveal_strlit("Binomial Cdf");
        },
        Formula::FPdf => {
            reveal_strlit("F Pdf");
        },
        Formula::FCdf => {
            reveal_strlit("F Cdf");
        },
        Formula::GeometricPdf => {
            reveal_strlit("Geometric Pdf");
        },
        Formula::GeometricCdf => {
            reveal_strlit("Geometric Cdf");
        },
        Formula::PoissonPdf => {
            reveal_strlit("Poisson Pdf");
        },
        Formula::PoissonCdf => {
            reveal_strlit("Poisson Cdf");
        },
        Formula::ZInterval => {
            reveal_strlit("z Interval");
        },
        Formula::TInterval => {
            reveal_strlit("t Interval");
        },
        Formula::TwoSampleTInterval => {
            reveal_strlit("2-Sample t Interval");
        },
        Formula::TwoPropZInterval => {
            reveal_strlit("2-Prop z Interval");
        },
        Formula::ZTest => {
            reveal_strlit("z Test");
        },
        Formula::TTest => {
            reveal_strlit("t Test");
        },
        Formula::TwoSampleTTest => {
            reveal_strlit("2-Sample t Test");
        },
        Formula::TwoPropZTest => {
            reveal_strlit("2-Prop z Test");
        },
    }
}

/// No two formulas of the catalog share a display name.
pub proof fn lemma_names_are_unique(a: Formula, b: Formula)
    requires
        formula_name(a) == formula_name(b),
    ensures
        a == b,
{
    lemma_marks(a);
    lemma_marks(b);
}

/// Every formula of the catalog is found under its own display name.
pub proof fn lemma_lookup_finds(formula: Formula)
    ensures
        formula_named(formula_name(formula)) == Some(formula),
{
    let name = formula_name(formula);
    lemma_named_has_name(name, 0);
    lemma_catalog_is_complete(formula);
    lemma_lookup_succeeds(formula, 0);
    lemma_names_are_unique(formula_named(name).unwrap(), formula);
}

/// A lookup that starts at or before the place of `formula` in the catalog
/// finds a formula under the display name of `formula`.
proof fn lemma_lookup_succeeds(formula: Formula, from: int)
    requires
        0 <= from,
        exists|at: int| from <= at < catalog().len() && catalog()[at] == formula,
    ensures
        formula_named_from(formula_name(formula), from) is Some,
    decreases catalog().len() - from,
{
    if formula_name(catalog()[from]) != formula_name(formula) {
        lemma_lookup_succeeds(formula, from + 1);
    }
}

/// Every formula has its place in the catalog.
pub proof fn lemma_catalog_is_complete(formula: Formula)
    ensures
        exists|at: int| 0 <= at < catalog().len() && catalog()[at] == formula,
{
    match formula {
        Formula::Factorial => {
            assert(catalog()[0] == formula);
        },
        Formula::Permutations => {
            assert(catalog()[1] == formula);
        },
        Formula::Combinations => {
            assert(catalog()[2] == formula);
        },
        Formula::NormalPdf => {
            assert(catalog()[3] == formula);
        },
        Formula::NormalCdf => {
            assert(catalog()[4] == formula);
        },
        Formula::InverseNormal => {
            assert(catalog()[5] == formula);
        },
        Formula::TPdf => {
            assert(catalog()[6] == formula);
        },
        Formula::TCdf => {
            assert(catalog()[7] == formula);
        },
        Formula::ChiSquarePdf => {
            assert(catalog()[8] == formula);
        },
        Formula::ChiSquareCdf => {
            assert(catalog()[9] == formula);
        },
        Formula::BinomialPdf => {
            assert(catalog()[10] == formula);
        },
        Formula::BinomialCdf => {
            assert(catalog()[11] == formula);
        },
        Formula::FPdf => {
            assert(catalog()[12] == formula);
        },
        Formula::FCdf => {
            assert(catalog()[13] == formula);
        },
        Formula::GeometricPdf => {
            assert(catalog()[14] == formula);
        },
        Formula::GeometricCdf => {
            assert(catalog()[15] == formula);
        },
        Formula::PoissonPdf => {
            assert(catalog()[16] == formula);
        },
        Formula::PoissonCdf => {
            assert(catalog()[17] == formula);
        },
        Formula::ZInterval => {
            assert(catalog()[18] == formula);
        },
        Formula::TInterval => {
            assert(catalog()[19] == formula);
        },
        Formula::TwoSampleTInterval => {
            assert(catalog()[20] == formula);
        },
        Formula::TwoPropZInterval => {
            assert(catalog()[21] == formula);
        },
        Formula::ZTest => {
            assert(catalog()[22] == formula);
        },
        Formula::TTest => {
            assert(catalog()[23] == formula);
        },
        Formula::TwoSampleTTest => {
            assert(catalog()[24] == formula);
        },
        Formula::TwoPropZTest => {
            assert(catalog()[25] == formula);
        },
    }
}

/// The texts `texts` as owned strings, in order.
fn labels<const N: usize>(texts: [&str; N]) -> (r: Vec<String>)
    ensures
        r.len() == N,
        forall|i: int| 0 <= i < N ==> (#[trigger] r@[i])@ == texts@[i]@,
{
    let mut list: Vec<String> = Vec::new();
    let mut i: usize = 0;
    while i < N
        invariant
            i <= N,
            list.len() == i,
            forall|k: int| 0 <= k < i ==> (#[trigger] list@[k])@ == texts@[k]@,
        decreases N - i,
    {
        list.push(texts[i].to_owned());
        i = i + 1;
    }
    list
}

impl Formula {
    /// The display name of the formula.
    pub fn name(self) -> (r: &'static str)
        ensures
            r@ == formula_name(self),
    {
        match self {
            Formula::Factorial => "Factorial (!)",
            Formula::Permutations => "Permutations",
            Formula::Combinations => "Combinations",
            Formula::NormalPdf => "Normal Pdf",
            Formula::NormalCdf => "Normal Cdf",
            Formula::InverseNormal => "Inverse Normal",
            Formula::TPdf => "t Pdf",
            Formula::TCdf => "t Cdf",
            Formula::ChiSquarePdf => "χ2 Pdf",
            Formula::ChiSquareCdf => "χ2 Cdf",
            Formula::BinomialPdf => "Binomial Pdf",
            Formula::BinomialCdf => "Binomial Cdf",
            Formula::FPdf => "F Pdf",
            Formula::FCdf => "F Cdf",
            Formula::GeometricPdf => "Geometric Pdf",
            Formula::GeometricCdf => "Geometric Cdf",
            Formula::PoissonPdf => "Poisson Pdf",
            Formula::PoissonCdf => "Poisson Cdf",
            Formula::ZInterval => "z Interval",
            Formula::TInterval => "t Interval",
            Formula::TwoSampleTInterval => "2-Sample t Interval",
            Formula::TwoPropZInterval => "2-Prop z Interval",
            Formula::ZTest => "z Test",
            Formula::TTest => "t Test",
            Formula::TwoSampleTTest => "2-Sample t Test",
            Formula::TwoPropZTest => "2-Prop z Test",
        }
    }

    /// The formula at position `at` of the catalog.
    pub fn at(at: usize) -> (r: Option<Formula>)
        ensures
            at < catalog().len() ==> r == Some(catalog()[at as int]),
            at >= catalog().len() ==> r is None,
    {
        match at {
            0 => Some(Formula::Factorial),
            1 => Some(Formula::Permutations),
            2 => Some(Formula::Combinations),
            3 => Some(Formula::NormalPdf),
            4 => Some(Formula::NormalCdf),
            5 => Some(Formula::InverseNormal),
            6 => Some(Formula::TPdf),
            7 => Some(Formula::TCdf),
            8 => Some(Formula::ChiSquarePdf),
            9 => Some(Formula::ChiSquareCdf),
            10 => Some(Formula::BinomialPdf),
            11 => Some(Formula::BinomialCdf),
            12 => Some(Formula::FPdf),
            13 => Some(Formula::FCdf),
            14 => Some(Formula::GeometricPdf),
            15 => Some(Formula::GeometricCdf),
            16 => Some(Formula::PoissonPdf),
            17 => Some(Formula::PoissonCdf),
            18 => Some(Formula::ZInterval),
            19 => Some(Formula::TInterval),
            20 => Some(Formula::TwoSampleTInterval),
            21 => Some(Formula::TwoPropZInterval),
            22 => Some(Formula::ZTest),
            23 => Some(Formula::TTest),
            24 => Some(Formula::TwoSampleTTest),
            25 => Some(Formula::TwoPropZTest),
            _ => None,
        }
    }

    /// Looks a formula up by its display name.
    pub fn from_name(name: &str) -> (r: Option<Formula>)
        ensures
            r == formula_named(name@),
    {
        let mut at: usize = 0;
        loop
            invariant
                at <= catalog().len(),
                formula_named(name@) == formula_named_from(name@, at as int),
            decreases catalog().len() - at,
        {
            match Formula::at(at) {
                Some(formula) => {
                    if str_eq(name, formula.name()) {
                        return Some(formula);
                    }
                    at = at + 1;
                },
                None => {
                    return None;
                },
            }
        }
    }

    /// The labels of the formula's fields, in order.
    pub fn fields(self) -> (r: Vec<String>)
        ensures
            r.deep_view() == field_labels(self),
            1 <= r.len() <= 8,
    {
        let v: Vec<String> = match self {
            Formula::Factorial => labels(["n"]),
            Formula::Permutations => labels(["n", "r"]),
            Formula::Combinations => labels(["n", "r"]),
            Formula::NormalPdf => labels(["x", "µ", "σ"]),
            Formula::NormalCdf => labels(["Lower Bound", "Upper Bound", "µ", "σ"]),
            Formula::InverseNormal => labels(["Area", "µ", "σ"]),
            Formula::TPdf => labels(["x", "Deg of Freedom, df"]),
            Formula::TCdf => labels(["Lower Bound", "Upper Bound", "Deg of Freedom, df"]),
            Formula::ChiSquarePdf => labels(["x", "Deg of Freedom, df"]),
            Formula::ChiSquareCdf => labels(["Lower Bound", "Upper Bound", "Deg of Freedom, df"]),
            Formula::BinomialPdf => labels(["Num Trials, n", "Prob Success, p", "x"]),
            Formula::BinomialCdf => labels([
                "Num Trials, n",
                "Prob Success, p",
                "Lower Bound",
                "Upper Bound",
            ]),
            Formula::FPdf => labels(["x", "Numerator df", "Denominator df"]),
            Formula::FCdf => labels([
                "Lower Bound",
                "Upper Bound",
                "Numerator df",
                "Denominator df",
            ]),
            Formula::GeometricPdf => labels(["Prob Success, p", "x"]),
            Formula::GeometricCdf => labels(["Prob Success, p", "Lower Bound", "Upper Bound"]),
            Formula::PoissonPdf => labels(["λ", "x"]),
            Formula::PoissonCdf => labels(["λ", "Lower Bound", "Upper Bound"]),
            Formula::ZInterval => labels(["σ", "x̄", "n", "C Level"]),
            Formula::TInterval => labels(["x̄", "σ", "n", "C Level"]),
            Formula::TwoSampleTInterval => labels([
                "x̄1",
                "σ1",
                "n1",
                "x̄2",
                "σ2",
                "n2",
                "C Level",
            ]),
            Formula::TwoPropZInterval => labels([
                "Successes, x1",
                "n1",
                "Successes, x2",
                "n2",
                "C Level",
            ]),
            Formula::ZTest => labels(["µ0", "σ", "x̄", "n", "Alternate Hyp"]),
            Formula::TTest => labels(["µ0", "x̄", "σ", "n", "Alternate Hyp"]),
            Formula::TwoSampleTTest => labels([
                "x̄1",
                "σ1",
                "n1",
                "x̄2",
                "σ2",
                "n2",
                "Alternate Hyp",
                "Pooled",
            ]),
            Formula::TwoPropZTest => labels([
                "Successes, x1",
                "n1",
                "Successes, x2",
                "n2",
                "Alternate Hyp",
            ]),
        };
        assert(v.deep_view() =~= field_labels(self));
        v
    }
}

/// The field list of the formula called `formula_name`: its labels in order,
/// or, for a name that the catalog does not hold, the one-element list with
/// the not-found text. The list is never empty.
pub fn match_formula_inputs(formula_name: &str) -> (r: Vec<String>)
    ensures
        r.deep_view() == fields_of(formula_name@),
        r.len() == fields_of(formula_name@).len(),
        r.len() > 0,
{
    let v: Vec<String> = match Formula::from_name(formula_name) {
        Some(formula) => formula.fields(),
        None => labels(["No formula found with that name!"]),
    };
    assert(v.deep_view() =~= fields_of(formula_name@));
    v
}

/// The field list that the catalog holds for `formula_name`.
pub fn retrieve_formula(formula_name: &str) -> (r: Vec<String>)
    ensures
        r.deep_view() == fields_of(formula_name@),
        r.len() == fields_of(formula_name@).len(),
        r.len() > 0,
{
    match_formula_inputs(formula_name)
}

/// How many fields the formula called `formula_name` asks for; one for a name
/// that the catalog does not hold.
pub fn field_count(formula_name: &str) -> (r: usize)
    ensures
        r == fields_of(formula_name@).len(),
        1 <= r <= 8,
{
    match Formula::from_name(formula_name) {
        Some(formula) => formula.fields().len(),
        None => 1,
    }
}

/// The names among `names` that the catalog holds no formula for, in the
/// order of `names`.
pub open spec fn without_entry(names: Seq<Seq<char>>) -> Seq<Seq<char>>
    decreases names.len(),
{
    if names.len() == 0 {
        Seq::empty()
    } else if formula_named(names.last()) is None {
        without_entry(names.drop_last()).push(names.last())
    } else {
        without_entry(names.drop_last())
    }
}

/// Whether the catalog holds a formula called `formula_name`. A list of
/// formulas may offer names that the catalog does not hold; their field list
/// is the not-found text.
pub fn is_registered(formula_name: &str) -> (r: bool)
    ensures
        r == formula_named(formula_name@) is Some,
{
    Formula::from_name(formula_name).is_some()
}

} // verus!
