use festats::catalog::{field_count, is_registered, match_formula_inputs, retrieve_formula, Formula};

const NOT_FOUND: &str = "No formula found with that name!";

fn strings(items: &[&str]) -> Vec<String> {
    items.iter().map(|s| s.to_string()).collect()
}

#[test]
fn factorial_has_one_field() {
    assert_eq!(retrieve_formula("Factorial (!)"), strings(&["n"]));
    assert_eq!(match_formula_inputs("Factorial (!)"), strings(&["n"]));
}

#[test]
fn fields_come_in_the_order_of_the_arguments() {
    assert_eq!(
        retrieve_formula("Normal Cdf"),
        strings(&["Lower Bound", "Upper Bound", "µ", "σ"])
    );
    assert_eq!(
        retrieve_formula("Binomial Pdf"),
        strings(&["Num Trials, n", "Prob Success, p", "x"])
    );
    assert_eq!(retrieve_formula("F Pdf"), strings(&["x", "Numerator df", "Denominator df"]));
    assert_eq!(retrieve_formula("z Interval"), strings(&["σ", "x̄", "n", "C Level"]));
    assert_eq!(retrieve_formula("t Interval"), strings(&["x̄", "σ", "n", "C Level"]));
    assert_eq!(
        retrieve_formula("2-Sample t Interval"),
        strings(&["x̄1", "σ1", "n1", "x̄2", "σ2", "n2", "C Level"])
    );
    assert_eq!(
        retrieve_formula("2-Sample t Test"),
        strings(&["x̄1", "σ1", "n1", "x̄2", "σ2", "n2", "Alternate Hyp", "Pooled"])
    );
    assert_eq!(retrieve_formula("χ2 Pdf"), strings(&["x", "Deg of Freedom, df"]));
    assert_eq!(retrieve_formula("Poisson Cdf"), strings(&["λ", "Lower Bound", "Upper Bound"]));
}

#[test]
fn unknown_name_gives_the_sentinel_list() {
    assert_eq!(retrieve_formula("Not A Formula"), strings(&[NOT_FOUND]));
    assert_eq!(retrieve_formula(""), strings(&[NOT_FOUND]));
    assert_eq!(retrieve_formula("factorial (!)"), strings(&[NOT_FOUND]));
    assert_eq!(retrieve_formula("Inverse t"), strings(&[NOT_FOUND]));
    assert_eq!(field_count("Not A Formula"), 1);
}

#[test]
fn every_formula_is_found_under_its_name() {
    let mut at = 0;
    let mut seen: Vec<&str> = Vec::new();
    while let Some(formula) = Formula::at(at) {
        let name = formula.name();
        assert_eq!(Formula::from_name(name), Some(formula));
        assert!(!seen.contains(&name), "{} is listed twice", name);
        seen.push(name);
        let fields = formula.fields();
        assert!(!fields.is_empty());
        assert!(fields.len() <= 8);
        assert_eq!(retrieve_formula(name), fields);
        assert_eq!(field_count(name), fields.len());
        assert!(is_registered(name));
        at += 1;
    }
    assert_eq!(at, 26);
    assert_eq!(Formula::at(26), None);
}

#[test]
fn field_list_is_never_empty() {
    for name in ["Factorial (!)", "z Test", "", "Correlation Matrix", "2-Prop z Interval"] {
        assert!(!retrieve_formula(name).is_empty());
    }
}

#[test]
fn registration_is_by_exact_name() {
    assert!(is_registered("Permutations"));
    assert!(!is_registered("Permutations "));
    assert!(!is_registered("Linear Regression (mx+b)"));
    assert_eq!(Formula::from_name("t Pdf"), Some(Formula::TPdf));
    assert_eq!(Formula::from_name("F Pdf"), Some(Formula::FPdf));
    assert_eq!(Formula::from_name("T Pdf"), None);
}
