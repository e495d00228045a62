//! The interaction loop: generation, confirmation, regeneration, the
//! model-pull recovery path, and failure classification.

use commit_generator::machine::Event;
use commit_generator::machine::FailureKind;
use commit_generator::machine::Session;
use commit_generator::machine::State;

fn fresh_session() -> Session {
    Session::new(String::from("gemma3:latest"), String::from("prompt"))
}

#[test]
fn generated_text_is_presented_trimmed() {
    let mut s = fresh_session();
    s.step(Event::Generated {
        text: String::from("  feat: add avatar component \n"),
    });
    match &s.state {
        State::Presenting { suggestion } => {
            assert_eq!(suggestion, "feat: add avatar component");
        }
        _ => panic!("expected a presented suggestion"),
    }
}

#[test]
fn confirmed_suggestion_is_committed_verbatim() {
    let mut s = fresh_session();
    s.step(Event::Generated {
        text: String::from("\nfix: handle empty index\t"),
    });
    s.step(Event::CommitChoice {
        commit: true,
        regenerate: false,
    });
    match &s.state {
        State::Committing { message } => {
            assert_eq!(message, "fix: handle empty index");
        }
        _ => panic!("expected the commit step"),
    }
    s.step(Event::CommitFinished);
    assert!(matches!(&s.state, State::Committed { message } if message == "fix: handle empty index"));
    assert!(s.is_done());
}

#[test]
fn model_not_found_pulls_once_then_retries() {
    let mut s = fresh_session();
    s.step(Event::GenerationFailed {
        kind: FailureKind::ModelNotFound,
    });
    assert!(matches!(s.state, State::ModelMissing));
    assert!(!s.is_done());
    s.step(Event::PullFinished { success: true });
    assert!(matches!(s.state, State::Generating));
    assert!(!s.is_done());
}

#[test]
fn failed_pull_ends_the_run() {
    let mut s = fresh_session();
    s.step(Event::GenerationFailed {
        kind: FailureKind::ModelNotFound,
    });
    s.step(Event::PullFinished { success: false });
    assert!(matches!(s.state, State::PullFailed));
    assert!(s.is_done());
}

#[test]
fn other_failure_ends_the_run_with_its_message() {
    let mut s = fresh_session();
    s.step(Event::GenerationFailed {
        kind: FailureKind::Other {
            message: String::from("connection refused"),
        },
    });
    assert!(matches!(&s.state, State::Failed { message } if message == "connection refused"));
    assert!(s.is_done());
}

#[test]
fn declining_commit_and_regeneration_cancels() {
    let mut s = fresh_session();
    s.step(Event::Generated {
        text: String::from("docs: update readme"),
    });
    s.step(Event::CommitChoice {
        commit: false,
        regenerate: false,
    });
    assert!(matches!(s.state, State::Canceled));
    assert!(s.is_done());
}

#[test]
fn declining_commit_but_regenerating_keeps_model_and_prompt() {
    let mut s = fresh_session();
    s.step(Event::Generated {
        text: String::from("docs: update readme"),
    });
    s.step(Event::CommitChoice {
        commit: false,
        regenerate: true,
    });
    assert!(matches!(s.state, State::Generating));
    assert!(!s.is_done());
    assert_eq!(s.model, "gemma3:latest");
    assert_eq!(s.prompt, "prompt");
}

#[test]
fn unasked_events_change_nothing() {
    let mut s = fresh_session();
    s.step(Event::PullFinished { success: false });
    assert!(matches!(s.state, State::Generating));
    s.step(Event::CommitFinished);
    assert!(matches!(s.state, State::Generating));
}

#[test]
fn classify_spots_a_missing_model() {
    let kind = commit_generator::machine::classify_failure(String::from(
        "error: model \"gemma3:latest\" not found, try pulling it first",
    ));
    assert!(matches!(kind, FailureKind::ModelNotFound));
}

#[test]
fn classify_needs_both_phrases() {
    let kind = commit_generator::machine::classify_failure(String::from(
        "model is overloaded",
    ));
    assert!(matches!(&kind, FailureKind::Other { message } if message == "model is overloaded"));
    let kind = commit_generator::machine::classify_failure(String::from(
        "page not found",
    ));
    assert!(matches!(&kind, FailureKind::Other { message } if message == "page not found"));
}

#[test]
fn full_scenario_two_staged_files() {
    let files = vec![String::from("feat.ts"), String::from("Avatar.tsx")];
    let template = commit_generator::prompt::default_template();
    let plan = commit_generator::prompt::plan_run(template.as_str(), &files);
    let prompt = match plan {
        commit_generator::prompt::RunPlan::Generate { prompt } => prompt,
        _ => panic!("two staged files must lead to a generation round"),
    };
    assert!(prompt.contains("feat.ts"));
    assert!(prompt.contains("Avatar.tsx"));

    let mut s = Session::new(String::from("gemma3:latest"), prompt);
    s.step(Event::Generated {
        text: String::from("feat: add avatar component"),
    });
    s.step(Event::CommitChoice {
        commit: true,
        regenerate: false,
    });
    match &s.state {
        State::Committing { message } => {
            assert_eq!(message, "feat: add avatar component");
        }
        _ => panic!("expected the commit step"),
    }
    s.step(Event::CommitFinished);
    assert!(s.is_done());
}
