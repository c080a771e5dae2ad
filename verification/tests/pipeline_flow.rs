use std::sync::Arc;

use agent_matrix::agents::{AgentError, AgentImpl, ComputeAgent, EthicalAgent, TaskOutcome};
use agent_matrix::agents::aggregate;
use agent_matrix::ethics::{EthicalGuard, PolicyViolation};
use agent_matrix::pipeline::{process_command, PipelineError};

fn key_a() -> Vec<u8> {
    (0u8..32).collect()
}

fn batch(guard: &EthicalGuard) -> Vec<AgentImpl> {
    vec![
        AgentImpl::Ethical(EthicalAgent::new(guard.clone(), 300)),
        AgentImpl::Compute(ComputeAgent::new(false)),
    ]
}

#[test]
fn pipeline_approved_command_runs_all_agents() {
    let guard = EthicalGuard { constraints: vec!["disparity_analysis".to_string()] };
    let agents = batch(&guard);
    assert_eq!(
        process_command(&guard, &agents, "ls", &key_a()),
        Ok("Ethically approved (score: 0.300): ls | CPU fallback processed: ls".to_string())
    );
}

#[test]
fn pipeline_rejects_forbidden_before_any_crypto() {
    let guard = EthicalGuard { constraints: vec![] };
    let agents = batch(&guard);
    assert_eq!(
        process_command(&guard, &agents, "bias_inducing_term: X", &key_a()),
        Err(PipelineError::Policy(PolicyViolation::ForbiddenTerm))
    );
}

#[test]
fn pipeline_surfaces_agent_failure() {
    let guard = EthicalGuard { constraints: vec![] };
    let agents = vec![AgentImpl::Ethical(EthicalAgent::new(guard.clone(), 901))];
    let r = process_command(&guard, &agents, "ls", &key_a());
    assert!(matches!(
        r,
        Err(PipelineError::Dispatch(agent_matrix::agents::DispatchError::Agent(
            AgentError::ScoreExceeded
        )))
    ));
}

#[test]
fn concurrent_checks_never_observe_torn_constraints() {
    let rt = tokio::runtime::Builder::new_multi_thread().worker_threads(4).enable_all().build()
        .unwrap();
    rt.block_on(async {
        let guard = Arc::new(tokio::sync::Mutex::new(EthicalGuard {
            constraints: vec!["disparity_analysis".to_string()],
        }));
        let long_cmd = "x".repeat(60);
        let mut handles = Vec::new();
        for k in 0..10u32 {
            let g = Arc::clone(&guard);
            handles.push(tokio::spawn(async move {
                let mut gd = g.lock().await;
                if k % 2 == 0 {
                    gd.remove_constraint(&"disparity_analysis".to_string());
                } else {
                    gd.add_constraint("disparity_analysis".to_string());
                }
            }));
        }
        for _ in 0..100u32 {
            let g = Arc::clone(&guard);
            let cmd = long_cmd.clone();
            handles.push(tokio::spawn(async move {
                let gd = g.lock().await;
                // Each call sees a fully-before or fully-after snapshot: the
                // only admissible outcomes for this command are approval (no
                // constraint) or the length rule (constraint present).
                match gd.check_command(&cmd) {
                    Ok(()) => {}
                    Err(PolicyViolation::LengthDisparity) => {}
                    Err(PolicyViolation::ForbiddenTerm) => {
                        panic!("forbidden-term rule cannot fire on this command")
                    }
                }
            }));
        }
        for h in handles {
            h.await.unwrap();
        }
    });
}

#[test]
fn concurrent_dispatch_fail_fast_with_fault() {
    let rt = tokio::runtime::Builder::new_multi_thread().worker_threads(4).enable_all().build()
        .unwrap();
    rt.block_on(async {
        let guard = EthicalGuard { constraints: vec![] };
        let agents = vec![
            AgentImpl::Ethical(EthicalAgent::new(guard.clone(), 200)),
            AgentImpl::Compute(ComputeAgent::new(false)),
        ];
        let task = "ls".to_string();
        let mut handles = Vec::new();
        for a in agents {
            let t = task.clone();
            handles.push(tokio::spawn(async move { a.execute(&t) }));
        }
        // One more task that terminates abnormally.
        handles.push(tokio::spawn(async { panic!("agent crashed") }));
        let mut outcomes = Vec::new();
        for h in handles {
            match h.await {
                Ok(res) => outcomes.push(TaskOutcome::Completed(res)),
                Err(_) => outcomes.push(TaskOutcome::Faulted),
            }
        }
        assert_eq!(
            aggregate(&outcomes),
            Err(agent_matrix::agents::DispatchError::AgentFault)
        );
    });
}

#[test]
fn concurrent_dispatch_all_succeed_in_submission_order() {
    let rt = tokio::runtime::Builder::new_multi_thread().worker_threads(4).enable_all().build()
        .unwrap();
    rt.block_on(async {
        let guard = EthicalGuard { constraints: vec![] };
        let agents = vec![
            AgentImpl::Ethical(EthicalAgent::new(guard.clone(), 300)),
            AgentImpl::Compute(ComputeAgent::new(false)),
            AgentImpl::Compute(ComputeAgent::new(true)),
        ];
        let task = "ls".to_string();
        let mut handles = Vec::new();
        for a in agents {
            let t = task.clone();
            handles.push(tokio::spawn(async move { a.execute(&t) }));
        }
        let mut outcomes = Vec::new();
        for h in handles {
            match h.await {
                Ok(res) => outcomes.push(TaskOutcome::Completed(res)),
                Err(_) => outcomes.push(TaskOutcome::Faulted),
            }
        }
        assert_eq!(
            aggregate(&outcomes),
            Ok(
                "Ethically approved (score: 0.300): ls | CPU fallback processed: ls | GPU processed: ls"
                    .to_string()
            )
        );
    });
}
