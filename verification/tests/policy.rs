use agent_matrix::ethics::{EthicalGuard, PolicyViolation};

fn guard_with(names: &[&str]) -> EthicalGuard {
    EthicalGuard { constraints: names.iter().map(|s| s.to_string()).collect() }
}

#[test]
fn forbidden_term_always_rejects() {
    let cmd = "run bias_inducing_term now";
    let guards = [
        guard_with(&[]),
        guard_with(&["disparity_analysis"]),
        guard_with(&["bias_check", "disparity_analysis"]),
        guard_with(&["disparity_analysis", "bias_check", "other"]),
    ];
    for g in guards.iter() {
        assert_eq!(g.check_command(cmd), Err(PolicyViolation::ForbiddenTerm));
    }
}

#[test]
fn forbidden_term_rejects_regardless_of_call_order() {
    let g = guard_with(&["disparity_analysis"]);
    let cmd = "bias_inducing_term: X";
    assert_eq!(g.check_command(cmd), Err(PolicyViolation::ForbiddenTerm));
    assert_eq!(g.check_command("ls"), Ok(()));
    assert_eq!(g.check_command(cmd), Err(PolicyViolation::ForbiddenTerm));
}

#[test]
fn forbidden_term_beats_length_rule() {
    let g = guard_with(&["disparity_analysis"]);
    let long_forbidden = format!("bias_inducing_term {}", "x".repeat(64));
    assert_eq!(g.check_command(&long_forbidden), Err(PolicyViolation::ForbiddenTerm));
}

#[test]
fn length_rule_only_when_constraint_present() {
    let long_cmd = "x".repeat(51);
    let with = guard_with(&["disparity_analysis"]);
    let without = guard_with(&["bias_check"]);
    assert_eq!(with.check_command(&long_cmd), Err(PolicyViolation::LengthDisparity));
    assert_eq!(without.check_command(&long_cmd), Ok(()));
}

#[test]
fn length_rule_boundary() {
    let g = guard_with(&["disparity_analysis"]);
    assert_eq!(g.check_command(&"x".repeat(50)), Ok(()));
    assert_eq!(g.check_command(&"x".repeat(51)), Err(PolicyViolation::LengthDisparity));
}

#[test]
fn benign_command_passes() {
    let g = guard_with(&["bias_check", "disparity_analysis"]);
    assert_eq!(g.check_command("git status"), Ok(()));
    assert_eq!(g.check_command(""), Ok(()));
}

#[test]
fn add_constraint_switches_rule_on() {
    let mut g = EthicalGuard::new();
    let long_cmd = "x".repeat(51);
    assert_eq!(g.check_command(&long_cmd), Ok(()));
    g.add_constraint("disparity_analysis".to_string());
    assert_eq!(g.check_command(&long_cmd), Err(PolicyViolation::LengthDisparity));
}

#[test]
fn remove_constraint_switches_rule_off() {
    let mut g = guard_with(&["bias_check", "disparity_analysis"]);
    let long_cmd = "x".repeat(51);
    assert_eq!(g.check_command(&long_cmd), Err(PolicyViolation::LengthDisparity));
    g.remove_constraint(&"disparity_analysis".to_string());
    assert_eq!(g.check_command(&long_cmd), Ok(()));
    assert_eq!(g.constraints, vec!["bias_check".to_string()]);
}

#[test]
fn remove_constraint_removes_first_occurrence_only() {
    let mut g = guard_with(&["a", "b", "a"]);
    g.remove_constraint(&"a".to_string());
    assert_eq!(g.constraints, vec!["b".to_string(), "a".to_string()]);
    g.remove_constraint(&"missing".to_string());
    assert_eq!(g.constraints, vec!["b".to_string(), "a".to_string()]);
}

#[test]
fn substring_match_is_anywhere() {
    let g = EthicalGuard::new();
    assert_eq!(
        g.check_command("prefix bias_inducing_term suffix"),
        Err(PolicyViolation::ForbiddenTerm)
    );
    assert_eq!(g.check_command("bias_inducing_term"), Err(PolicyViolation::ForbiddenTerm));
    // A fragment of the term is not the term.
    assert_eq!(g.check_command("bias_inducing"), Ok(()));
}
