//! The calculator's state: the tabs with their lists of formulas, and for
//! each tab the values being collected for its formula, one text buffer per
//! field and the values committed so far. What was collected is cleared
//! whenever another formula is selected or another tab is opened.

use crate::catalog::{
    field_count, fields_of, formula_name, formula_named, is_registered, lemma_lookup_finds,
    lemma_named_has_name, without_entry, Formula,
};
use crate::dispatch::is_complete;
use crate::selection::{
    position_after, position_before, selection_after, selection_before, StatefulList, TabsState,
};
use crate::text::{str_eq, string_pop, string_push, trim, trimmed};
use vstd::prelude::*;
use vstd::string::*;

verus! {

/// Whether keys move the selection or edit a field.
#[derive(Clone, Copy, PartialEq, Eq, Structural, Debug)]
pub enum InputMode {
    Normal,
    Editing,
}

/// A key, as far as the calculator tells keys apart.
#[derive(Clone, Copy, PartialEq, Eq, Structural, Debug)]
pub enum Key {
    Enter,
    Char(char),
    Backspace,
    Esc,
    Left,
    Right,
    Up,
    Down,
    Other,
}

/// What a key asks of the source of events: while a field is edited, the key
/// that quits is an ordinary character.
#[derive(Clone, Copy, PartialEq, Eq, Structural, Debug)]
pub enum ExitKey {
    Unchanged,
    Enabled,
    Disabled,
}

pub struct App<'a> {
    pub items: Vec<StatefulList<'a>>,
    pub input: Vec<(usize, Vec<String>)>,
    pub title: &'a str,
    pub input_mode: InputMode,
    pub entered_inputs: Vec<Vec<String>>,
    pub should_quit: bool,
    pub tabs: TabsState<'a>,
}

pub open spec fn tab_titles() -> Seq<&'static str> {
    seq!["Probability", "Intervals", "Tests", "Regressions"]
}

pub open spec fn probability_items() -> Seq<&'static str> {
    seq![
        "Factorial (!)",
        "Permutations",
        "Combinations",
        "Normal Pdf",
        "Normal Cdf",
        "Inverse Normal",
        "t Pdf",
        "t Cdf",
        "Inverse t",
        "χ2 Pdf",
        "χ2 Cdf",
        "Inverse χ2",
        "Binomial Pdf",
        "Binomial Cdf",
        "Inverse Binomial",
        "Inverse Binomial N",
        "F Pdf",
        "F Cdf",
        "Inverse F",
        "Geometric Pdf",
        "Geometric Cdf",
        "Poisson Pdf",
        "Poisson Cdf",
    ]
}

pub open spec fn interval_items() -> Seq<&'static str> {
    seq![
        "z Interval",
        "t Interval",
        "2-Sample z Interval",
        "2-Sample t Interval",
        "1-Prop z Interval",
        "2-Prop z Interval",
    ]
}

pub open spec fn test_items() -> Seq<&'static str> {
    seq![
        "z Test",
        "t Test",
        "2-Sample z Test",
        "2-Sample t Test",
        "1-Prop z Test",
        "2-Prop z Test",
        "χ2 GOF",
        "χ2 2-way Test",
        "2-Sample F Test",
        "ANOVA",
    ]
}

pub open spec fn regression_items() -> Seq<&'static str> {
    seq![
        "Linear Regression (mx+b)",
        "Linear Regression (a+bx)",
        "Median-Median Line",
        "Quadratic Regression",
        "Cubic Regression",
        "Quartic Regression",
        "Power Regression",
        "Exponential Regression",
        "Logarithmic Regression",
        "Sinusoidal Regression",
        "Logistic Regression (d=0)",
        "Logistic Regression (d!=0)",
        "Multiple Linear Regression",
        "Correlation Matrix",
    ]
}

/// The formulas listed under the tab at `tab`.
pub open spec fn tab_items(tab: int) -> Seq<&'static str> {
    if tab == 0 {
        probability_items()
    } else if tab == 1 {
        interval_items()
    } else if tab == 2 {
        test_items()
    } else {
        regression_items()
    }
}

/// Every name that a tab lists, tab by tab.
pub open spec fn listed_names() -> Seq<&'static str> {
    probability_items() + interval_items() + test_items() + regression_items()
}

/// What tells the listed names apart: the length, the first and the last
/// character, the third character from the end, and the tenth character
/// where there is one.
pub open spec fn item_mark(name: Seq<char>) -> (nat, char, char, char, char) {
    (
        name.len(),
        name[0],
        name[name.len() - 1],
        name[name.len() - 3],
        if name.len() > 9 {
            name[9]
        } else {
            ' '
        },
    )
}

/// The mark of each listed name, in the order of `listed_names`.
pub open spec fn listed_marks() -> Seq<(nat, char, char, char, char)> {
    seq![
        (13, 'F', ')', '(', ' '),
        (12, 'P', 's', 'o', 'o'),
        (12, 'C', 's', 'o', 'o'),
        (10, 'N', 'f', 'P', 'f'),
        (10, 'N', 'f', 'C', 'f'),
        (14, 'I', 'l', 'm', 'o'),
        (5, 't', 'f', 'P', ' '),
        (5, 't', 'f', 'C', ' '),
        (9, 'I', 't', 'e', ' '),
        (6, 'χ', 'f', 'P', ' '),
        (6, 'χ', 'f', 'C', ' '),
        (10, 'I', '2', ' ', '2'),
        (12, 'B', 'f', 'P', 'P'),
        (12, 'B', 'f', 'C', 'C'),
        (16, 'I', 'l', 'i', 'i'),
        (18, 'I', 'N', 'l', 'i'),
        (5, 'F', 'f', 'P', ' '),
        (5, 'F', 'f', 'C', ' '),
        (9, 'I', 'F', 'e', ' '),
        (13, 'G', 'f', 'P', ' '),
        (13, 'G', 'f', 'C', ' '),
        (11, 'P', 'f', 'P', 'd'),
        (11, 'P', 'f', 'C', 'd'),
        (10, 'z', 'l', 'v', 'l'),
        (10, 't', 'l', 'v', 'l'),
        (19, '2', 'l', 'v', 'z'),
        (19, '2', 'l', 'v', 't'),
        (17, '1', 'l', 'v', 'I'),
        (17, '2', 'l', 'v', 'I'),
        (6, 'z', 't', 'e', ' '),
        (6, 't', 't', 'e', ' '),
        (15, '2', 't', 'e', 'z'),
        (15, '2', 't', 'e', 't'),
        (13, '1', 't', 'e', 'T'),
        (13, '2', 't', 'e', 'T'),
        (6, 'χ', 'F', 'G', ' '),
        (13, 'χ', 't', 'e', 'T'),
        (15, '2', 't', 'e', 'F'),
        (5, 'A', 'A', 'O', ' '),
        (24, 'L', ')', '+', 'g'),
        (24, 'L', ')', 'b', 'g'),
        (18, 'M', 'e', 'i', 'd'),
        (20, 'Q', 'n', 'i', ' '),
        (16, 'C', 'n', 'i', 'r'),
        (18, 'Q', 'n', 'i', 'e'),
        (16, 'P', 'n', 'i', 'r'),
        (22, 'E', 'n', 'i', 'a'),
        (22, 'L', 'n', 'i', 'i'),
        (21, 'S', 'n', 'i', 'l'),
        (25, 'L', ')', '=', 'R'),
        (26, 'L', ')', '=', 'R'),
        (26, 'M', 'n', 'i', 'L'),
        (18, 'C', 'x', 'r', 'o'),
    ]
}

proof fn lemma_marks_of_probability_items(at: int)
    requires
        0 <= at < probability_items().len(),
    ensures
        item_mark(probability_items()[at]@) == listed_marks()[at],
{
    reveal_strlit("Factorial (!)");
    reveal_strlit("Permutations");
    reveal_strlit("Combinations");
    reveal_strlit("Normal Pdf");
    reveal_strlit("Normal Cdf");
    reveal_strlit("Inverse Normal");
    reveal_strlit("t Pdf");
    reveal_strlit("t Cdf");
    reveal_strlit("Inverse t");
    reveal_strlit("χ2 Pdf");
    reveal_strlit("χ2 Cdf");
    reveal_strlit("Inverse χ2");
    reveal_strlit("Binomial Pdf");
    reveal_strlit("Binomial Cdf");
    reveal_strlit("Inverse Binomial");
    reveal_strlit("Inverse Binomial N");
    reveal_strlit("F Pdf");
    reveal_strlit("F Cdf");
    reveal_strlit("Inverse F");
    reveal_strlit("Geometric Pdf");
    reveal_strlit("Geometric Cdf");
    reveal_strlit("Poisson Pdf");
    reveal_strlit("Poisson Cdf");
}

proof fn lemma_marks_of_interval_items(at: int)
    requires
        0 <= at < interval_items().len(),
    ensures
        item_mark(interval_items()[at]@) == listed_marks()[at + 23],
{
    reveal_strlit("z Interval");
    reveal_strlit("t Interval");
    reveal_strlit("2-Sample z Interval");
    reveal_strlit("2-Sample t Interval");
    reveal_strlit("1-Prop z Interval");
    reveal_strlit("2-Prop z Interval");
}

proof fn lemma_marks_of_test_items(at: int)
    requires
        0 <= at < test_items().len(),
    ensures
        item_mark(test_items()[at]@) == listed_marks()[at + 29],
{
    reveal_strlit("z Test");
    reveal_strlit("t Test");
    reveal_strlit("2-Sample z Test");
    reveal_strlit("2-Sample t Test");
    reveal_strlit("1-Prop z Test");
    reveal_strlit("2-Prop z Test");
    reveal_strlit("χ2 GOF");
    reveal_strlit("χ2 2-way Test");
    reveal_strlit("2-Sample F Test");
    reveal_strlit("ANOVA");
}

proof fn lemma_marks_of_regression_items(at: int)
    requires
        0 <= at < regression_items().len(),
    ensures
        item_mark(regression_items()[at]@) == listed_marks()[at + 39],
{
    reveal_strlit("Linear Regression (mx+b)");
    reveal_strlit("Linear Regression (a+bx)");
    reveal_strlit("Median-Median Line");
    reveal_strlit("Quadratic Regression");
    reveal_strlit("Cubic Regression");
    reveal_strlit("Quartic Regression");
    reveal_strlit("Power Regression");
    reveal_strlit("Exponential Regression");
    reveal_strlit("Logarithmic Regression");
    reveal_strlit("Sinusoidal Regression");
    reveal_strlit("Logistic Regression (d=0)");
    reveal_strlit("Logistic Regression (d!=0)");
    reveal_strlit("Multiple Linear Regression");
    reveal_strlit("Correlation Matrix");
}

/// No name is listed twice, neither within a tab nor in two tabs: a name
/// stands for one formula wherever it is shown.
pub proof fn lemma_listed_names_differ(i: int, j: int)
    requires
        0 <= i < j < listed_names().len(),
    ensures
        listed_names()[i]@ != listed_names()[j]@,
{
    lemma_mark_of_listed(i);
    lemma_mark_of_listed(j);
    assert(listed_marks()[i] != listed_marks()[j]);
}

proof fn lemma_mark_of_listed(at: int)
    requires
        0 <= at < listed_names().len(),
    ensures
        item_mark(listed_names()[at]@) == listed_marks()[at],
{
    assert(probability_items().len() == 23 && interval_items().len() == 6 && test_items().len()
        == 10 && regression_items().len() == 14);
    if at < 23 {
        assert(listed_names()[at] == probability_items()[at]);
        lemma_marks_of_probability_items(at);
    } else if at < 29 {
        assert(listed_names()[at] == interval_items()[at - 23]);
        lemma_marks_of_interval_items(at - 23);
    } else if at < 39 {
        assert(listed_names()[at] == test_items()[at - 29]);
        lemma_marks_of_test_items(at - 29);
    } else {
        assert(listed_names()[at] == regression_items()[at - 39]);
        lemma_marks_of_regression_items(at - 39);
    }
}

/// The names in the list `list`, in order.
pub open spec fn item_names<'a>(list: StatefulList<'a>) -> Seq<Seq<char>> {
    Seq::new(list.items.len() as nat, |i: int| list.items@[i]@)
}

/// The names that the first `tabs` of the lists `lists` hold, tab by tab.
pub open spec fn names_before<'a>(lists: Seq<StatefulList<'a>>, tabs: int) -> Seq<Seq<char>>
    decreases tabs,
{
    if tabs <= 0 {
        Seq::empty()
    } else {
        names_before(lists, tabs - 1) + item_names(lists[tabs - 1])
    }
}

/// The names in `names`, in order.
pub open spec fn names_of<'a>(names: Seq<&'a str>) -> Seq<Seq<char>> {
    Seq::new(names.len(), |i: int| names[i]@)
}

/// The formula that the catalog holds for the listed name at `at`. The
/// names without one stay in their lists; their field list is the not-found
/// text, and so is the result of their dispatch.
pub open spec fn entry_at(at: int) -> Option<Formula> {
    if at == 0 {
        Some(Formula::Factorial)
    } else if at == 1 {
        Some(Formula::Permutations)
    } else if at == 2 {
        Some(Formula::Combinations)
    } else if at == 3 {
        Some(Formula::NormalPdf)
    } else if at == 4 {
        Some(Formula::NormalCdf)
    } else if at == 5 {
        Some(Formula::InverseNormal)
    } else if at == 6 {
        Some(Formula::TPdf)
    } else if at == 7 {
        Some(Formula::TCdf)
    } else if at == 9 {
        Some(Formula::ChiSquarePdf)
    } else if at == 10 {
        Some(Formula::ChiSquareCdf)
    } else if at == 12 {
        Some(Formula::BinomialPdf)
    } else if at == 13 {
        Some(Formula::BinomialCdf)
    } else if at == 16 {
        Some(Formula::FPdf)
    } else if at == 17 {
        Some(Formula::FCdf)
    } else if at == 19 {
        Some(Formula::GeometricPdf)
    } else if at == 20 {
        Some(Formula::GeometricCdf)
    } else if at == 21 {
        Some(Formula::PoissonPdf)
    } else if at == 22 {
        Some(Formula::PoissonCdf)
    } else if at == 23 {
        Some(Formula::ZInterval)
    } else if at == 24 {
        Some(Formula::TInterval)
    } else if at == 26 {
        Some(Formula::TwoSampleTInterval)
    } else if at == 28 {
        Some(Formula::TwoPropZInterval)
    } else if at == 29 {
        Some(Formula::ZTest)
    } else if at == 30 {
        Some(Formula::TTest)
    } else if at == 32 {
        Some(Formula::TwoSampleTTest)
    } else if at == 34 {
        Some(Formula::TwoPropZTest)
    } else {
        None
    }
}

/// The place of each formula of the catalog among the listed names.
pub open spec fn listed_place(formula: Formula) -> int {
    match formula {
        Formula::Factorial => 0,
        Formula::Permutations => 1,
        Formula::Combinations => 2,
        Formula::NormalPdf => 3,
        Formula::NormalCdf => 4,
        Formula::InverseNormal => 5,
        Formula::TPdf => 6,
        Formula::TCdf => 7,
        Formula::ChiSquarePdf => 9,
        Formula::ChiSquareCdf => 10,
        Formula::BinomialPdf => 12,
        Formula::BinomialCdf => 13,
        Formula::FPdf => 16,
        Formula::FCdf => 17,
        Formula::GeometricPdf => 19,
        Formula::GeometricCdf => 20,
        Formula::PoissonPdf => 21,
        Formula::PoissonCdf => 22,
        Formula::ZInterval => 23,
        Formula::TInterval => 24,
        Formula::TwoSampleTInterval => 26,
        Formula::TwoPropZInterval => 28,
        Formula::ZTest => 29,
        Formula::TTest => 30,
        Formula::TwoSampleTTest => 32,
        Formula::TwoPropZTest => 34,
    }
}

/// Every formula of the catalog is listed, under its own name, at its place.
pub proof fn lemma_formula_is_listed(formula: Formula)
    ensures
        0 <= listed_place(formula) < listed_names().len(),
        listed_names()[listed_place(formula)]@ == formula_name(formula),
        entry_at(listed_place(formula)) == Some(formula),
{
    assert(probability_items().len() == 23 && interval_items().len() == 6 && test_items().len()
        == 10 && regression_items().len() == 14);
    let at = listed_place(formula);
    if at < 23 {
        assert(listed_names()[at] == probability_items()[at]);
    } else if at < 29 {
        assert(listed_names()[at] == interval_items()[at - 23]);
    } else {
        assert(listed_names()[at] == test_items()[at - 29]);
    }
}

/// Which listed names the catalog holds a formula for: the lookup of the
/// listed name at `at` finds the formula that `entry_at` gives, and finds
/// none for each of the other names.
pub proof fn lemma_entries_of_listed_names(at: int)
    requires
        0 <= at < listed_names().len(),
    ensures
        formula_named(listed_names()[at]@) == entry_at(at),
{
    let name = listed_names()[at]@;
    match entry_at(at) {
        Some(formula) => {
            lemma_formula_is_listed(formula);
            lemma_lookup_finds(formula);
        },
        None => {
            match formula_named(name) {
                Some(found) => {
                    lemma_named_has_name(name, 0);
                    lemma_formula_is_listed(found);
                    let place = listed_place(found);
                    if place < at {
                        lemma_listed_names_differ(place, at);
                    } else {
                        lemma_listed_names_differ(at, place);
                    }
                },
                None => {},
            }
        },
    }
}

/// The buffers `buffers`, with empty ones added at the end as far as needed
/// for a buffer at `index` to exist.
pub open spec fn padded(buffers: Seq<Seq<char>>, index: int) -> Seq<Seq<char>> {
    if index < buffers.len() {
        buffers
    } else {
        buffers + Seq::new((index + 1 - buffers.len()) as nat, |i: int| Seq::<char>::empty())
    }
}

/// The field that is being edited: the first one without a committed value,
/// or the first of all where nothing is committed or every field has its
/// value. `committed` counts the committed list with its leading tag.
pub open spec fn active_index(committed: int, fields: int) -> int {
    if committed > 0 && committed - 1 < fields {
        committed - 1
    } else {
        0
    }
}

/// The committed list that a new value is added to: `committed` itself where
/// it is tagged with `formula`, and a fresh list with that tag alone where it
/// is empty or tagged with another formula.
pub open spec fn guarded(committed: Seq<Seq<char>>, formula: Seq<char>) -> Seq<Seq<char>> {
    if committed.len() == 0 || committed[0] != formula {
        seq![formula]
    } else {
        committed
    }
}

/// The buffers joined into one text, a space between each two.
pub open spec fn joined(parts: Seq<Seq<char>>) -> Seq<char>
    decreases parts.len(),
{
    if parts.len() == 0 {
        Seq::empty()
    } else if parts.len() == 1 {
        parts[0]
    } else {
        joined(parts.drop_last()).push(' ') + parts.last()
    }
}

/// The tab that is open after the character key `c`: `p`, `i`, `t` and `r`
/// open the first four tabs, as far as there are that many.
pub open spec fn shortcut_tab(c: char, open: usize, tabs: usize) -> usize {
    let target: usize = if c == 'p' {
        0
    } else if c == 'i' {
        1
    } else if c == 't' {
        2
    } else if c == 'r' {
        3
    } else {
        open
    };
    if target < tabs {
        target
    } else {
        open
    }
}

/// `text` without its last character; the empty text stays empty.
pub open spec fn without_last(text: Seq<char>) -> Seq<char> {
    if text.len() > 0 {
        text.drop_last()
    } else {
        text
    }
}

/// The field whose buffer a commit reads, for the committed list `committed`
/// and the formula in focus `formula`.
pub open spec fn commit_index(committed: Seq<Seq<char>>, formula: Seq<char>) -> int {
    active_index(guarded(committed, formula).len() as int, fields_of(formula).len() as int)
}

/// The committed list after a commit.
pub open spec fn committed_after(
    committed: Seq<Seq<char>>,
    buffers: Seq<Seq<char>>,
    formula: Seq<char>,
) -> Seq<Seq<char>> {
    let at = commit_index(committed, formula);
    guarded(committed, formula).push(trimmed(padded(buffers, at)[at]))
}

/// After a commit the committed list is tagged with the formula in focus,
/// holds one value more than the list that the value was added to, and ends
/// with the trimmed text of the buffer of the field that was being edited;
/// the next commit adds to it and discards nothing.
pub proof fn lemma_commit_adds_one(
    committed: Seq<Seq<char>>,
    buffers: Seq<Seq<char>>,
    formula: Seq<char>,
)
    ensures
        committed_after(committed, buffers, formula).len() == guarded(committed, formula).len()
            + 1,
        committed_after(committed, buffers, formula)[0] == formula,
        committed_after(committed, buffers, formula).last() == trimmed(
            padded(buffers, commit_index(committed, formula))[commit_index(committed, formula)],
        ),
        guarded(committed_after(committed, buffers, formula), formula) == committed_after(
            committed,
            buffers,
            formula,
        ),
{
}

/// Values committed for another formula are never kept: a commit on a list
/// that is empty or tagged with another formula leaves the tag of the
/// formula in focus and the value of its first field, and nothing else.
pub proof fn lemma_stale_is_discarded(
    committed: Seq<Seq<char>>,
    buffers: Seq<Seq<char>>,
    formula: Seq<char>,
)
    requires
        committed.len() == 0 || committed[0] != formula,
    ensures
        commit_index(committed, formula) == 0,
        committed_after(committed, buffers, formula) == seq![
            formula,
            trimmed(padded(buffers, 0)[0]),
        ],
{
    crate::catalog::lemma_fields_nonempty(formula);
}

/// While fields are missing, each commit moves on to the next field: on a
/// list tagged with the formula in focus that holds values for the first
/// `filled` fields, not all of them, the buffer of the field at `filled` is
/// committed.
pub proof fn lemma_commit_takes_next_field(
    committed: Seq<Seq<char>>,
    formula: Seq<char>,
    filled: int,
)
    requires
        committed.len() == filled + 1,
        committed[0] == formula,
        0 <= filled < fields_of(formula).len(),
    ensures
        commit_index(committed, formula) == filled,
{
}

/// The committed list after `times` commits in a row for the formula
/// `formula`, each of them reading the buffers `buffers`.
pub open spec fn committed_after_times(
    committed: Seq<Seq<char>>,
    buffers: Seq<Seq<char>>,
    formula: Seq<char>,
    times: nat,
) -> Seq<Seq<char>>
    decreases times,
{
    if times == 0 {
        committed
    } else {
        committed_after(
            committed_after_times(committed, buffers, formula, (times - 1) as nat),
            buffers,
            formula,
        )
    }
}

/// Collecting runs from empty to complete: commits in a row, the first of
/// them on an empty list or on values of another formula, leave a list that
/// is tagged with the formula in focus and holds one value for each commit.
/// The dispatcher takes it for complete as soon as there were as many commits
/// as the formula has fields, and not before.
pub proof fn lemma_collecting_completes(
    committed: Seq<Seq<char>>,
    buffers: Seq<Seq<char>>,
    formula: Seq<char>,
    times: nat,
)
    requires
        committed.len() == 0 || committed[0] != formula,
        times > 0,
    ensures
        committed_after_times(committed, buffers, formula, times).len() == 1 + times,
        committed_after_times(committed, buffers, formula, times)[0] == formula,
        is_complete(formula, committed_after_times(committed, buffers, formula, times)) == (
        times >= fields_of(formula).len()),
    decreases times,
{
    if times > 1 {
        lemma_collecting_completes(committed, buffers, formula, (times - 1) as nat);
    }
    lemma_commit_adds_one(
        committed_after_times(committed, buffers, formula, (times - 1) as nat),
        buffers,
        formula,
    );
}

/// Keys keep the sessions sound: whatever key is taken in whatever mode, no
/// tab comes to hold values of another formula than the one in focus there,
/// or more values than that formula has fields.
pub proof fn lemma_keys_keep_sessions_sound<'a>(
    before: App<'a>,
    after: App<'a>,
    key: Key,
    action: ExitKey,
)
    requires
        before.is_sound(),
        after.wf(),
        after.is_after_key(&before, key, action),
    ensures
        after.is_sound(),
{
    crate::catalog::lemma_fields_nonempty(before.formula());
    assert(before.session_is_sound(before.tab()));
    assert forall|t: int| 0 <= t < after.entered_inputs.len() implies #[trigger] after.session_is_sound(
        t,
    ) by {
        assert(before.session_is_sound(t));
        if t == before.tab() {
            lemma_commit_adds_one(before.committed(), before.buffers(), before.formula());
        }
    }
}

impl<'a> App<'a> {
    /// A tab is open, every tab has its list and its session, every list has
    /// an item, and every session has a buffer.
    pub open spec fn wf(&self) -> bool {
        &&& self.tabs.wf()
        &&& self.items.len() == self.tabs.titles.len()
        &&& self.input.len() == self.tabs.titles.len()
        &&& self.entered_inputs.len() == self.tabs.titles.len()
        &&& forall|t: int| 0 <= t < self.items.len() ==> (#[trigger] self.items@[t]).wf()
        &&& forall|t: int| 0 <= t < self.input.len() ==> (#[trigger] self.input@[t]).1.len() > 0
    }

    /// The open tab.
    pub open spec fn tab(&self) -> int {
        self.tabs.index as int
    }

    /// The list of the open tab.
    pub open spec fn list(&self) -> StatefulList<'a> {
        self.items@[self.tab()]
    }

    /// The name of the formula in focus.
    pub open spec fn formula(&self) -> Seq<char> {
        self.list().items@[self.list().focus()]@
    }

    /// The field buffers of the open tab.
    pub open spec fn buffers(&self) -> Seq<Seq<char>> {
        self.input@[self.tab()].1.deep_view()
    }

    /// The committed list of the open tab: empty, or the tag of a formula and
    /// then the values committed for it.
    pub open spec fn committed(&self) -> Seq<Seq<char>> {
        self.entered_inputs@[self.tab()].deep_view()
    }

    /// The field that is being edited.
    pub open spec fn active_field(&self) -> int {
        active_index(self.committed().len() as int, fields_of(self.formula()).len() as int)
    }

    /// Every field of the formula in focus has its committed value.
    pub open spec fn is_complete(&self) -> bool {
        self.committed().len() == fields_of(self.formula()).len() + 1
    }

    /// The committed list of the tab at `t`.
    pub open spec fn committed_at(&self, t: int) -> Seq<Seq<char>> {
        self.entered_inputs@[t].deep_view()
    }

    /// The name of the formula in focus in the tab at `t`.
    pub open spec fn formula_at(&self, t: int) -> Seq<char> {
        self.items@[t].items@[self.items@[t].focus()]@
    }

    /// The committed list of the tab at `t` is empty, or it is tagged with
    /// the formula in focus in that tab and holds no more values than the
    /// formula has fields.
    pub open spec fn session_is_sound(&self, t: int) -> bool {
        self.committed_at(t).len() == 0 || (self.committed_at(t)[0] == self.formula_at(t)
            && self.committed_at(t).len() <= 1 + fields_of(self.formula_at(t)).len())
    }

    /// No tab holds values that were collected for another formula than the
    /// one in focus there, or more values than that formula has fields; and
    /// while a field is edited, a field of the formula in focus still lacks
    /// its value.
    pub open spec fn is_sound(&self) -> bool {
        &&& self.wf()
        &&& forall|t: int|
            0 <= t < self.entered_inputs.len() ==> #[trigger] self.session_is_sound(t)
        &&& self.input_mode == InputMode::Editing ==> self.committed().len() <= fields_of(
            self.formula(),
        ).len()
    }

    /// The tabs, their lists and the selection are those of `before`.
    pub open spec fn same_selection(&self, before: &App<'a>) -> bool {
        &&& self.tabs == before.tabs
        &&& self.items == before.items
    }

    /// The title and the wish to quit are those of `before`.
    pub open spec fn same_frame(&self, before: &App<'a>) -> bool {
        &&& self.title == before.title
        &&& self.should_quit == before.should_quit
    }

    /// The sessions of all tabs are those of `before`.
    pub open spec fn same_sessions(&self, before: &App<'a>) -> bool {
        &&& self.input == before.input
        &&& self.entered_inputs == before.entered_inputs
    }

    /// The sessions of all tabs but the one at `tab` are those of `before`.
    pub open spec fn same_sessions_but(&self, before: &App<'a>, tab: int) -> bool {
        &&& self.input.len() == before.input.len()
        &&& self.entered_inputs.len() == before.entered_inputs.len()
        &&& forall|t: int|
            0 <= t < before.input.len() && t != tab ==> #[trigger] self.input@[t]
                == before.input@[t]
        &&& forall|t: int|
            0 <= t < before.entered_inputs.len() && t != tab
                ==> #[trigger] self.entered_inputs@[t] == before.entered_inputs@[t]
    }

    /// The sessions of all tabs but the one that is open in `before` are
    /// those of `before`.
    pub open spec fn same_other_sessions(&self, before: &App<'a>) -> bool {
        self.same_sessions_but(before, before.tab())
    }

    /// Nothing but the session of the open tab, and perhaps the mode, differs
    /// from `before`.
    pub open spec fn same_but_session(&self, before: &App<'a>) -> bool {
        &&& self.same_selection(before)
        &&& self.same_frame(before)
        &&& self.same_other_sessions(before)
    }

    /// The session of the open tab is as after a reset: one empty buffer and
    /// nothing committed.
    pub open spec fn session_is_fresh(&self) -> bool {
        &&& self.input@[self.tab()].0 == 0
        &&& self.buffers() == seq![Seq::<char>::empty()]
        &&& self.committed() == Seq::<Seq<char>>::empty()
    }

    /// `self` is `before` after a reset of the session of the open tab.
    pub open spec fn is_reset_of(&self, before: &App<'a>) -> bool {
        &&& self.same_but_session(before)
        &&& self.session_is_fresh()
    }

    /// `self` is `before` after its selection moved, forward or backward:
    /// the item after or before the selected one is selected, round the ends
    /// of the list, or the first item where none was; the session of the
    /// open tab is fresh; nothing else differs.
    pub open spec fn is_positioned_of(&self, before: &App<'a>, forward: bool) -> bool {
        &&& self.same_frame(before)
        &&& self.same_other_sessions(before)
        &&& self.tabs == before.tabs
        &&& self.items.len() == before.items.len()
        &&& forall|t: int|
            0 <= t < before.items.len() && t != before.tab() ==> #[trigger] self.items@[t]
                == before.items@[t]
        &&& self.list().items == before.list().items
        &&& self.list().state.selected == Some(
            if forward {
                selection_after(before.list().state.selected, before.list().items.len() as int)
            } else {
                selection_before(before.list().state.selected, before.list().items.len() as int)
            } as usize,
        )
        &&& self.session_is_fresh()
    }

    /// `self` is `before` with the tab at `tab` opened: that tab is open and
    /// its session is fresh, whatever it held from an earlier visit; the
    /// lists, the selections and the sessions of the other tabs are those of
    /// `before`.
    pub open spec fn is_opened_of(&self, before: &App<'a>, tab: int) -> bool {
        &&& self.items == before.items
        &&& self.tabs.titles == before.tabs.titles
        &&& self.tabs.index == tab
        &&& self.same_sessions_but(before, tab)
        &&& self.session_is_fresh()
    }

    /// `self` is `before` with the tab after the open one opened, or the one
    /// before it.
    pub open spec fn is_turned_of(&self, before: &App<'a>, forward: bool) -> bool {
        &&& self.same_frame(before)
        &&& self.is_opened_of(
            before,
            if forward {
                position_after(before.tab(), before.tabs.titles.len() as int)
            } else {
                position_before(before.tab(), before.tabs.titles.len() as int)
            },
        )
    }

    /// `self` is `before` after the character key `c` outside a field: `q`
    /// asks to quit; a key that stands for another tab than the open one
    /// opens that tab; nothing else differs.
    pub open spec fn is_shortcut_of(&self, before: &App<'a>, c: char) -> bool {
        let tab = shortcut_tab(c, before.tabs.index, before.tabs.titles.len());
        &&& self.title == before.title
        &&& self.should_quit == (before.should_quit || c == 'q')
        &&& if tab == before.tabs.index {
            self.same_selection(before) && self.same_sessions(before)
        } else {
            self.is_opened_of(before, tab as int)
        }
    }

    /// `self` is `before` with the buffer of the field that is being edited
    /// replaced by `text`; buffers come into being as far as that field.
    pub open spec fn is_edited_of(&self, before: &App<'a>, text: Seq<char>) -> bool {
        &&& self.same_but_session(before)
        &&& self.entered_inputs == before.entered_inputs
        &&& self.input@[self.tab()].0 == before.input@[before.tab()].0
        &&& self.buffers() == padded(before.buffers(), before.active_field()).update(
            before.active_field(),
            text,
        )
    }

    /// The text in the buffer of the field that is being edited; empty where
    /// that buffer has not come into being.
    pub open spec fn active_text(&self) -> Seq<char> {
        padded(self.buffers(), self.active_field())[self.active_field()]
    }

    /// `self` is `before` after a commit of the field that is being edited.
    pub open spec fn is_committed_of(&self, before: &App<'a>) -> bool {
        &&& self.same_but_session(before)
        &&& self.input@[self.tab()].0 == before.input@[before.tab()].0
        &&& self.committed() == committed_after(
            before.committed(),
            before.buffers(),
            before.formula(),
        )
        &&& self.buffers() == padded(
            before.buffers(),
            commit_index(before.committed(), before.formula()),
        )
    }

    /// `self` is `before` made ready for editing: where every field had its
    /// committed value the session of the open tab is fresh, else nothing
    /// differs.
    pub open spec fn is_started_of(&self, before: &App<'a>) -> bool {
        &&& self.same_but_session(before)
        &&& before.is_complete() ==> self.session_is_fresh()
        &&& !before.is_complete() ==> self.same_sessions(before)
    }

    /// `self` is what the key `key` makes of `before`, and `action` is what
    /// the key asks of the source of events.
    ///
    /// Outside a field: Enter begins editing; the arrows and `h`, `l`, `j`,
    /// `k` move between tabs and items; every other character is a shortcut.
    /// In a field: Enter commits and leaves the field, Esc leaves it, a
    /// character is typed, Backspace removes one.
    pub open spec fn is_after_key(&self, before: &App<'a>, key: Key, action: ExitKey) -> bool {
        match before.input_mode {
            InputMode::Normal => match key {
                Key::Enter => {
                    &&& self.is_started_of(before)
                    &&& self.input_mode == InputMode::Editing
                    &&& action == ExitKey::Disabled
                },
                Key::Left | Key::Char('h') => {
                    &&& self.is_turned_of(before, false)
                    &&& self.input_mode == before.input_mode
                    &&& action == ExitKey::Unchanged
                },
                Key::Right | Key::Char('l') => {
                    &&& self.is_turned_of(before, true)
                    &&& self.input_mode == before.input_mode
                    &&& action == ExitKey::Unchanged
                },
                Key::Down | Key::Char('j') => {
                    &&& self.is_positioned_of(before, true)
                    &&& self.input_mode == before.input_mode
                    &&& action == ExitKey::Unchanged
                },
                Key::Up | Key::Char('k') => {
                    &&& self.is_positioned_of(before, false)
                    &&& self.input_mode == before.input_mode
                    &&& action == ExitKey::Unchanged
                },
                Key::Char(c) => {
                    &&& self.is_shortcut_of(before, c)
                    &&& self.input_mode == before.input_mode
                    &&& action == ExitKey::Unchanged
                },
                _ => *self == *before && action == ExitKey::Unchanged,
            },
            InputMode::Editing => match key {
                Key::Enter => {
                    &&& self.is_committed_of(before)
                    &&& self.input_mode == InputMode::Normal
                    &&& action == ExitKey::Enabled
                },
                Key::Char(c) => {
                    &&& self.is_edited_of(before, before.active_text().push(c))
                    &&& self.input_mode == before.input_mode
                    &&& action == ExitKey::Unchanged
                },
                Key::Backspace => {
                    &&& self.is_edited_of(before, without_last(before.active_text()))
                    &&& self.input_mode == before.input_mode
                    &&& action == ExitKey::Unchanged
                },
                Key::Esc => {
                    &&& self.same_selection(before)
                    &&& self.same_frame(before)
                    &&& self.same_sessions(before)
                    &&& self.input_mode == InputMode::Normal
                    &&& action == ExitKey::Enabled
                },
                _ => *self == *before && action == ExitKey::Unchanged,
            },
        }
    }

    /// The calculator at its start: the first tab open, nothing selected,
    /// nothing typed and nothing committed.
    pub fn new(title: &'a str) -> (r: App<'a>)
        ensures
            r.wf(),
            r.is_sound(),
            names_before(r.items@, 4) == names_of(listed_names()),
            r.title == title,
            r.input_mode == InputMode::Normal,
            !r.should_quit,
            r.tabs.index == 0,
            r.tabs.titles@ == tab_titles(),
            r.items.len() == 4,
            forall|t: int|
                0 <= t < 4 ==> (#[trigger] r.items@[t]).items@ == tab_items(t)
                    && r.items@[t].state.selected is None,
            forall|t: int|
                0 <= t < 4 ==> (#[trigger] r.input@[t]).0 == 0 && r.input@[t].1.deep_view()
                    == seq![Seq::<char>::empty()],
            forall|t: int| 0 <= t < 4 ==> (#[trigger] r.entered_inputs@[t]).len() == 0,
    {
        let probability: Vec<&'a str> = vec![
            "Factorial (!)",
            "Permutations",
            "Combinations",
            "Normal Pdf",
            "Normal Cdf",
            "Inverse Normal",
            "t Pdf",
            "t Cdf",
            "Inverse t",
            "χ2 Pdf",
            "χ2 Cdf",
            "Inverse χ2",
            "Binomial Pdf",
            "Binomial Cdf",
            "Inverse Binomial",
            "Inverse Binomial N",
            "F Pdf",
            "F Cdf",
            "Inverse F",
            "Geometric Pdf",
            "Geometric Cdf",
            "Poisson Pdf",
            "Poisson Cdf",
        ];
        let intervals: Vec<&'a str> = vec![
            "z Interval",
            "t Interval",
            "2-Sample z Interval",
            "2-Sample t Interval",
            "1-Prop z Interval",
            "2-Prop z Interval",
        ];
        let tests: Vec<&'a str> = vec![
            "z Test",
            "t Test",
            "2-Sample z Test",
            "2-Sample t Test",
            "1-Prop z Test",
            "2-Prop z Test",
            "χ2 GOF",
            "χ2 2-way Test",
            "2-Sample F Test",
            "ANOVA",
        ];
        let regressions: Vec<&'a str> = vec![
            "Linear Regression (mx+b)",
            "Linear Regression (a+bx)",
            "Median-Median Line",
            "Quadratic Regression",
            "Cubic Regression",
            "Quartic Regression",
            "Power Regression",
            "Exponential Regression",
            "Logarithmic Regression",
            "Sinusoidal Regression",
            "Logistic Regression (d=0)",
            "Logistic Regression (d!=0)",
            "Multiple Linear Regression",
            "Correlation Matrix",
        ];
        let titles: Vec<&'a str> = vec!["Probability", "Intervals", "Tests", "Regressions"];
        let mut items: Vec<StatefulList<'a>> = Vec::new();
        items.push(StatefulList::with_items(probability));
        items.push(StatefulList::with_items(intervals));
        items.push(StatefulList::with_items(tests));
        items.push(StatefulList::with_items(regressions));
        let mut input: Vec<(usize, Vec<String>)> = Vec::new();
        let mut entered_inputs: Vec<Vec<String>> = Vec::new();
        let mut t: usize = 0;
        while t < 4
            invariant
                t <= 4,
                input.len() == t,
                entered_inputs.len() == t,
                forall|k: int|
                    0 <= k < t ==> (#[trigger] input@[k]).0 == 0 && input@[k].1.deep_view()
                        == seq![Seq::<char>::empty()],
                forall|k: int| 0 <= k < t ==> (#[trigger] entered_inputs@[k]).len() == 0,
            decreases 4 - t,
        {
            let mut buffers: Vec<String> = Vec::new();
            buffers.push(String::new());
            input.push((0, buffers));
            entered_inputs.push(Vec::new());
            t = t + 1;
        }
        assert forall|k: int| 0 <= k < 4 implies (#[trigger] input@[k]).1.len() > 0 by {
            assert(input@[k].1.deep_view().len() == 1);
        }
        proof {
            reveal_with_fuel(names_before, 5);
            assert(names_before(items@, 4) =~= item_names(items@[0]) + item_names(items@[1])
                + item_names(items@[2]) + item_names(items@[3]));
            assert(item_names(items@[0]) =~= names_of(probability_items()));
            assert(item_names(items@[1]) =~= names_of(interval_items()));
            assert(item_names(items@[2]) =~= names_of(test_items()));
            assert(item_names(items@[3]) =~= names_of(regression_items()));
            assert(names_of(listed_names()) =~= names_of(probability_items()) + names_of(
                interval_items(),
            ) + names_of(test_items()) + names_of(regression_items()));
        }
        App {
            title,
            input,
            input_mode: InputMode::Normal,
            entered_inputs,
            should_quit: false,
            tabs: TabsState::new(titles),
            items,
        }
    }

    /// Whether a tab is open, every tab has its list and its session, every
    /// list has an item and a selection within it, and every session has a
    /// buffer. Every other operation asks for this and keeps it.
    pub fn is_valid(&self) -> (r: bool)
        ensures
            r == self.wf(),
    {
        let count: usize = self.tabs.titles.len();
        if !self.tabs.is_valid() || self.items.len() != count || self.input.len() != count
            || self.entered_inputs.len() != count {
            return false;
        }
        let mut t: usize = 0;
        while t < count
            invariant
                t <= count,
                count == self.tabs.titles.len(),
                self.items.len() == count,
                self.input.len() == count,
                forall|k: int| 0 <= k < t ==> (#[trigger] self.items@[k]).wf(),
                forall|k: int| 0 <= k < t ==> (#[trigger] self.input@[k]).1.len() > 0,
            decreases count - t,
        {
            if !self.items[t].is_valid() || self.input[t].1.len() == 0 {
                return false;
            }
            t = t + 1;
        }
        true
    }

    /// The listed names that the catalog holds no formula for, tab by tab
    /// and in the order of the lists. They are offered all the same; to
    /// dispatch one gives the not-found text.
    pub fn unregistered_items(&self) -> (r: Vec<&'a str>)
        ensures
            names_of(r@) == without_entry(names_before(self.items@, self.items.len() as int)),
    {
        let mut found: Vec<&'a str> = Vec::new();
        let mut t: usize = 0;
        assert(names_of(found@) =~= Seq::<Seq<char>>::empty());
        while t < self.items.len()
            invariant
                t <= self.items.len(),
                names_of(found@) == without_entry(names_before(self.items@, t as int)),
            decreases self.items.len() - t,
        {
            let ghost before = names_before(self.items@, t as int);
            let ghost here = item_names(self.items@[t as int]);
            let mut k: usize = 0;
            assert(before + here.take(0) =~= before);
            while k < self.items[t].items.len()
                invariant
                    t < self.items.len(),
                    k <= self.items@[t as int].items.len(),
                    before == names_before(self.items@, t as int),
                    here == item_names(self.items@[t as int]),
                    names_of(found@) == without_entry(before + here.take(k as int)),
                decreases self.items@[t as int].items.len() - k,
            {
                let name: &'a str = self.items[t].items[k];
                let ghost was = names_of(found@);
                proof {
                    let longer = before + here.take(k + 1);
                    assert(longer.drop_last() =~= before + here.take(k as int));
                    assert(longer.last() == name@);
                }
                if !is_registered(name) {
                    found.push(name);
                    assert(names_of(found@) =~= was.push(name@));
                }
                k = k + 1;
            }
            assert(here.take(k as int) == here);
            t = t + 1;
        }
        found
    }

    /// The list of the open tab.
    pub fn current_items(&mut self) -> (r: &mut StatefulList<'a>)
        requires
            old(self).wf(),
        ensures
            *r == old(self).list(),
            final(self).items@ == old(self).items@.update(old(self).tab(), *final(r)),
            final(self).tabs == old(self).tabs,
            final(self).same_sessions(old(self)),
            final(self).same_frame(old(self)),
            final(self).input_mode == old(self).input_mode,
    {
        let t: usize = self.tabs.index;
        &mut self.items[t]
    }

    /// Clears the session of the open tab: one empty buffer is left, and
    /// nothing committed.
    pub fn reset(&mut self)
        requires
            old(self).wf(),
        ensures
            final(self).wf(),
            final(self).is_reset_of(old(self)),
            final(self).input_mode == old(self).input_mode,
    {
        let t: usize = self.tabs.index;
        self.input[t].0 = 0;
        self.input[t].1.clear();
        self.input[t].1.push(String::new());
        self.entered_inputs[t].clear();
        assert(self.input@[t as int].1.deep_view() =~= seq![Seq::<char>::empty()]);
        assert(self.entered_inputs@[t as int].deep_view() =~= Seq::<Seq<char>>::empty());
    }

    /// Moves the selection of the open tab: `"next"` selects the item after
    /// the selected one, `"previous"` the one before it, both round the ends
    /// of the list, and both the first item where nothing was selected. The
    /// session of the tab is cleared, so that no value collected for one
    /// formula is taken for another.
    pub fn position(&mut self, position: &str)
        requires
            old(self).wf(),
            position@ == "next"@ || position@ == "previous"@,
        ensures
            final(self).wf(),
            final(self).is_positioned_of(old(self), position@ == "next"@),
            final(self).input_mode == old(self).input_mode,
    {
        self.reset();
        let t: usize = self.tabs.index;
        if str_eq(position, "next") {
            self.items[t].next();
        } else {
            self.items[t].previous();
        }
    }

    /// The title of the open tab.
    pub fn current_title(&mut self) -> (r: &'a str)
        requires
            old(self).wf(),
        ensures
            r == old(self).tabs.titles@[old(self).tab()],
            *final(self) == *old(self),
    {
        self.tabs.titles[self.tabs.index]
    }

    /// The name of the formula in focus in the open tab: the selected one, or
    /// the first of the list where nothing is selected.
    pub fn current_formula(&self) -> (r: &'a str)
        requires
            self.wf(),
        ensures
            r@ == self.formula(),
    {
        let t: usize = self.tabs.index;
        self.items[t].current_item()
    }

    /// The buffers of the open tab, with their cursor.
    pub fn current_input(&mut self) -> (r: &mut (usize, Vec<String>))
        requires
            old(self).wf(),
        ensures
            *r == old(self).input@[old(self).tab()],
            final(self).input@ == old(self).input@.update(old(self).tab(), *final(r)),
            final(self).entered_inputs == old(self).entered_inputs,
            final(self).same_selection(old(self)),
            final(self).same_frame(old(self)),
            final(self).input_mode == old(self).input_mode,
    {
        let t: usize = self.tabs.index;
        &mut self.input[t]
    }

    /// Adds empty buffers to the open tab as far as needed for a buffer at
    /// `index` to exist.
    pub fn grow_input(&mut self, index: usize)
        requires
            old(self).wf(),
        ensures
            final(self).wf(),
            final(self).same_but_session(old(self)),
            final(self).input_mode == old(self).input_mode,
            final(self).entered_inputs == old(self).entered_inputs,
            final(self).input@[final(self).tab()].0 == old(self).input@[old(self).tab()].0,
            final(self).buffers() == padded(old(self).buffers(), index as int),
            index < final(self).input@[final(self).tab()].1.len(),
    {
        let t: usize = self.tabs.index;
        let ghost before = self.buffers();
        while self.input[t].1.len() <= index
            invariant
                self.wf(),
                t == self.tabs.index,
                self.same_but_session(old(self)),
                self.input_mode == old(self).input_mode,
                self.entered_inputs == old(self).entered_inputs,
                self.input@[t as int].0 == old(self).input@[t as int].0,
                before == old(self).buffers(),
                before.len() <= self.buffers().len(),
                self.buffers().len() == self.input@[t as int].1.len(),
                self.buffers().len() > before.len() ==> self.buffers().len() <= index + 1,
                forall|k: int| 0 <= k < before.len() ==> self.buffers()[k] == before[k],
                forall|k: int|
                    before.len() <= k < self.buffers().len() ==> self.buffers()[k]
                        == Seq::<char>::empty(),
            decreases index + 1 - self.input@[t as int].1.len(),
        {
            let ghost current = self.buffers();
            self.input[t].1.push(String::new());
            assert(self.buffers() =~= current.push(Seq::<char>::empty()));
        }
    }

    /// The buffer of the field at `index` in the open tab. Buffers come into
    /// being as they are asked for: where there is none at `index` yet, empty
    /// ones are added up to it, and no further.
    pub fn current_input_text(&mut self, index: usize) -> (r: &mut String)
        requires
            old(self).wf(),
        ensures
            r@ == padded(old(self).buffers(), index as int)[index as int],
            final(self).buffers() == padded(old(self).buffers(), index as int).update(
                index as int,
                final(r)@,
            ),
            final(self).input@[final(self).tab()].0 == old(self).input@[old(self).tab()].0,
            final(self).same_but_session(old(self)),
            final(self).input_mode == old(self).input_mode,
            final(self).entered_inputs == old(self).entered_inputs,
            final(self).wf(),
    {
        self.grow_input(index);
        let t: usize = self.tabs.index;
        &mut self.input[t].1[index]
    }

    /// The committed list of the open tab.
    pub fn current_stored_input(&mut self) -> (r: &mut Vec<String>)
        requires
            old(self).wf(),
        ensures
            *r == old(self).entered_inputs@[old(self).tab()],
            final(self).entered_inputs@ == old(self).entered_inputs@.update(
                old(self).tab(),
                *final(r),
            ),
            final(self).input == old(self).input,
            final(self).same_selection(old(self)),
            final(self).same_frame(old(self)),
            final(self).input_mode == old(self).input_mode,
    {
        let t: usize = self.tabs.index;
        &mut self.entered_inputs[t]
    }

    /// The buffers of the open tab as one text, a space between each two.
    pub fn current_input_text_ref(&mut self) -> (r: String)
        requires
            old(self).wf(),
        ensures
            r@ == joined(old(self).buffers()),
            *final(self) == *old(self),
    {
        let t: usize = self.tabs.index;
        let mut text: String = String::new();
        let mut i: usize = 0;
        let ghost parts = self.buffers();
        while i < self.input[t].1.len()
            invariant
                *self == *old(self),
                t == self.tabs.index,
                self.wf(),
                parts == self.buffers(),
                i <= self.input@[t as int].1.len(),
                parts.len() == self.input@[t as int].1.len(),
                text@ == joined(parts.take(i as int)),
            decreases self.input@[t as int].1.len() - i,
        {
            assert(parts.take(i + 1).drop_last() == parts.take(i as int));
            if i > 0 {
                string_push(&mut text, ' ');
            }
            text.append(self.input[t].1[i].as_str());
            i = i + 1;
        }
        assert(parts.take(i as int) == parts);
        text
    }

    /// The committed list of the open tab, to read.
    pub fn current_stored_input_ref(&mut self) -> (r: &Vec<String>)
        requires
            old(self).wf(),
        ensures
            *r == old(self).entered_inputs@[old(self).tab()],
            r.deep_view() == old(self).committed(),
            *final(self) == *old(self),
    {
        &self.entered_inputs[self.tabs.index]
    }

    /// Opens the tab after the open one, the first after the last. The
    /// session of the tab that is opened is cleared.
    pub fn on_right(&mut self)
        requires
            old(self).wf(),
        ensures
            final(self).wf(),
            final(self).is_turned_of(old(self), true),
            final(self).input_mode == old(self).input_mode,
    {
        self.tabs.next();
        self.reset();
    }

    /// Opens the tab before the open one, the last before the first. The
    /// session of the tab that is opened is cleared.
    pub fn on_left(&mut self)
        requires
            old(self).wf(),
        ensures
            final(self).wf(),
            final(self).is_turned_of(old(self), false),
            final(self).input_mode == old(self).input_mode,
    {
        self.tabs.previous();
        self.reset();
    }

    /// A character key outside a field: `q` asks to quit; `p`, `i`, `t` and
    /// `r` open the first, second, third and fourth tab; every other key
    /// does nothing. Where another tab than the open one is opened, its
    /// session is cleared.
    pub fn on_key(&mut self, c: char)
        requires
            old(self).wf(),
        ensures
            final(self).wf(),
            final(self).is_shortcut_of(old(self), c),
            final(self).input_mode == old(self).input_mode,
    {
        let open: usize = self.tabs.index;
        match c {
            'q' => {
                self.should_quit = true;
            },
            'p' => {
                self.tabs.set_index(0);
            },
            'i' => {
                self.tabs.set_index(1);
            },
            't' => {
                self.tabs.set_index(2);
            },
            'r' => {
                self.tabs.set_index(3);
            },
            _ => {},
        }
        if self.tabs.index != open {
            self.reset();
        }
    }

    /// The field that is being edited: the first one without a committed
    /// value, or the first of all where nothing is committed or every field
    /// has its value.
    pub fn active_field_index(&self) -> (r: usize)
        requires
            self.wf(),
        ensures
            r == self.active_field(),
            r < fields_of(self.formula()).len(),
    {
        let t: usize = self.tabs.index;
        let fields: usize = field_count(self.current_formula());
        let committed: usize = self.entered_inputs[t].len();
        if committed > 0 && committed - 1 < fields {
            committed - 1
        } else {
            0
        }
    }

    /// Appends `c` to the buffer of the field that is being edited.
    pub fn push_char(&mut self, c: char)
        requires
            old(self).wf(),
        ensures
            final(self).wf(),
            final(self).is_edited_of(old(self), old(self).active_text().push(c)),
            final(self).input_mode == old(self).input_mode,
    {
        let at: usize = self.active_field_index();
        let buffer: &mut String = self.current_input_text(at);
        string_push(buffer, c);
    }

    /// Removes the last character of the buffer of the field that is being
    /// edited; an empty buffer stays empty.
    pub fn pop_char(&mut self)
        requires
            old(self).wf(),
        ensures
            final(self).wf(),
            final(self).is_edited_of(old(self), without_last(old(self).active_text())),
            final(self).input_mode == old(self).input_mode,
    {
        let at: usize = self.active_field_index();
        let buffer: &mut String = self.current_input_text(at);
        let _ = string_pop(buffer);
    }

    /// Commits the field that is being edited. A committed list that is empty
    /// or tagged with another formula than the one in focus is first replaced
    /// by the tag of the formula in focus; then the trimmed text of the
    /// buffer of the field that is being edited is added at the end.
    pub fn commit_current_field(&mut self)
        requires
            old(self).wf(),
        ensures
            final(self).wf(),
            final(self).is_committed_of(old(self)),
            final(self).input_mode == old(self).input_mode,
    {
        let t: usize = self.tabs.index;
        let formula: &'a str = self.current_formula();
        let ghost before = self.committed();
        let stale: bool = if self.entered_inputs[t].len() == 0 {
            true
        } else {
            !str_eq(self.entered_inputs[t][0].as_str(), formula)
        };
        if stale {
            self.entered_inputs[t].clear();
            self.entered_inputs[t].push(formula.to_owned());
        }
        assert(self.committed() == guarded(before, formula@));
        let at: usize = self.active_field_index();
        self.grow_input(at);
        let text: String = trim(self.input[t].1[at].as_str()).to_owned();
        let ghost tagged = self.committed();
        self.entered_inputs[t].push(text);
        assert(self.committed() =~= tagged.push(text@));
    }

    /// Enter outside a field: editing begins. Where every field of the
    /// formula in focus has its committed value, the session is cleared
    /// first, and collecting starts over.
    pub fn start_editing(&mut self)
        requires
            old(self).wf(),
        ensures
            final(self).wf(),
            final(self).is_started_of(old(self)),
            final(self).input_mode == InputMode::Editing,
    {
        let t: usize = self.tabs.index;
        let fields: usize = field_count(self.current_formula());
        if self.entered_inputs[t].len() == fields + 1 {
            self.reset();
        }
        self.input_mode = InputMode::Editing;
    }

    /// Leaves the field that is being edited; what was typed stays in its
    /// buffer.
    pub fn stop_editing(&mut self)
        ensures
            final(self).input_mode == InputMode::Normal,
            final(self).same_frame(old(self)),
            final(self).same_selection(old(self)),
            final(self).same_sessions(old(self)),
    {
        self.input_mode = InputMode::Normal;
    }

    /// Takes one key: changes the state as the key asks in the mode the
    /// calculator is in, and says what the key asks of the source of events.
    pub fn on_event(&mut self, key: Key) -> (action: ExitKey)
        requires
            old(self).wf(),
        ensures
            final(self).wf(),
            final(self).is_after_key(old(self), key, action),
    {
        match self.input_mode {
            InputMode::Normal => match key {
                Key::Enter => {
                    self.start_editing();
                    ExitKey::Disabled
                },
                Key::Left | Key::Char('h') => {
                    self.on_left();
                    ExitKey::Unchanged
                },
                Key::Right | Key::Char('l') => {
                    self.on_right();
                    ExitKey::Unchanged
                },
                Key::Down | Key::Char('j') => {
                    self.position("next");
                    ExitKey::Unchanged
                },
                Key::Up | Key::Char('k') => {
                    proof {
                        reveal_strlit("next");
                        reveal_strlit("previous");
                        assert("next"@.len() != "previous"@.len());
                    }
                    self.position("previous");
                    ExitKey::Unchanged
                },
                Key::Char(c) => {
                    self.on_key(c);
                    ExitKey::Unchanged
                },
                _ => ExitKey::Unchanged,
            },
            InputMode::Editing => match key {
                Key::Enter => {
                    self.commit_current_field();
                    self.input_mode = InputMode::Normal;
                    ExitKey::Enabled
                },
                Key::Char(c) => {
                    self.push_char(c);
                    ExitKey::Unchanged
                },
                Key::Backspace => {
                    self.pop_char();
                    ExitKey::Unchanged
                },
                Key::Esc => {
                    self.stop_editing();
                    ExitKey::Enabled
                },
                _ => ExitKey::Unchanged,
            },
        }
    }
}

} // verus!
