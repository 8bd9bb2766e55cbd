use relay_wright::compile::{compile_rule_set, RuleLookup, ValueModeChoice};
use relay_wright::rule_engine::{EdgeMode, Operator};

fn lookup(edge: &str, tags: Vec<i64>) -> RuleLookup {
    RuleLookup {
        edge_mode: edge.to_string(),
        target_is_string: Some(false),
        mode: "constant".to_string(),
        has_constant: true,
        has_constant_text: false,
        source_tag: None,
        operators: tags.iter().map(|_| "gt".to_string()).collect(),
        sources_resolved: tags.iter().map(|_| true).collect(),
        copy_source_resolved: false,
        polled_tags: tags,
    }
}

#[test]
fn a_rule_set_compiles_rule_by_rule_and_polls_each_tag_once() {
    let mut unresolved = lookup("rising", vec![9]);
    unresolved.sources_resolved = vec![false];
    let mut mixed = lookup("rising", vec![1, 2, 1]);
    mixed.operators = vec!["gt".to_string(), "eq".to_string(), "bit_is".to_string()];
    let rules = vec![
        mixed,
        lookup("level", vec![4]),
        unresolved,
        lookup("change", vec![2, 3]),
    ];
    let (plans, fresh, polled) = compile_rule_set(&rules);
    assert_eq!(plans.len(), 4);
    let first = plans[0].as_ref().expect("compiles");
    assert_eq!(first.edge_mode, EdgeMode::Rising);
    assert_eq!(first.value_mode, ValueModeChoice::Constant);
    assert_eq!(first.operators, vec![Operator::Gt, Operator::Eq, Operator::BitIs]);
    assert!(plans[1].is_none(), "a bad edge mode drops the rule");
    assert!(plans[2].is_none(), "an unresolved source drops the rule");
    assert_eq!(plans[3].as_ref().map(|p| p.edge_mode), Some(EdgeMode::Change));
    assert_eq!(fresh, vec![vec![true, true, false], vec![], vec![], vec![false, true]]);
    let mut tags: Vec<i64> = polled.into_iter().collect();
    tags.sort();
    assert_eq!(tags, vec![1, 2, 3], "dropped rules poll nothing");
}
