//! The run plan, the built-in template, and endpoint resolution against
//! the real URL parser.

use commit_generator::endpoint::resolve_endpoint;
use commit_generator::prompt::default_template;
use commit_generator::prompt::plan_run;
use commit_generator::prompt::RunPlan;

#[test]
fn empty_staged_list_means_nothing_to_do() {
    let template = default_template();
    let plan = plan_run(template.as_str(), &Vec::new());
    assert!(matches!(plan, RunPlan::NothingStaged));
}

#[test]
fn built_prompt_contains_every_file_name() {
    let template = default_template();
    let files = vec![
        String::from("src/user/profile.ts"),
        String::from("README.md"),
        String::from("a file with spaces.txt"),
    ];
    match plan_run(template.as_str(), &files) {
        RunPlan::Generate { prompt } => {
            for f in &files {
                assert!(prompt.contains(f.as_str()));
            }
        }
        _ => panic!("a non-empty list must lead to a generation round"),
    }
}

#[test]
fn template_placeholders_are_substituted() {
    let files = vec![String::from("x.rs")];
    match plan_run("before {} after {}", &files) {
        RunPlan::Generate { prompt } => {
            assert_eq!(prompt, "before x.rs after x.rs");
        }
        _ => panic!("a non-empty list must lead to a generation round"),
    }
}

#[test]
fn template_without_placeholder_degrades_to_itself() {
    let files = vec![String::from("x.rs")];
    match plan_run("fixed text", &files) {
        RunPlan::Generate { prompt } => {
            assert_eq!(prompt, "fixed text");
        }
        _ => panic!("a non-empty list must lead to a generation round"),
    }
}

#[test]
fn default_template_holds_the_placeholder() {
    let t = default_template();
    assert!(t.contains("{}"));
    assert!(t.starts_with("Action:"));
}

#[test]
fn endpoint_with_explicit_port() {
    let (host, port) = resolve_endpoint("http://127.0.0.1:8080");
    assert_eq!(host, "http://127.0.0.1");
    assert_eq!(port, 8080);
}

#[test]
fn endpoint_without_port_uses_default() {
    let (host, port) = resolve_endpoint("http://example.com");
    assert_eq!(host, "http://example.com");
    assert_eq!(port, 11434);
}

#[test]
fn malformed_endpoint_falls_back_to_local_default() {
    let (host, port) = resolve_endpoint("not a url");
    assert_eq!(host, "http://localhost");
    assert_eq!(port, 11434);
}

#[test]
fn https_scheme_is_kept() {
    let (host, port) = resolve_endpoint("https://ollama.internal:8443");
    assert_eq!(host, "https://ollama.internal");
    assert_eq!(port, 8443);
}
