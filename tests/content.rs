use liminal_english_core::{
    default_ping_max, default_ping_min, get_arg_value, Answer, Difficulty, RolePath, RunnerState,
    Step, StepType, ValidationReport,
};
use liminal_english_core::validator::{occurs, ContentValidator, ScriptOutline};
use liminal_english_core::Role;

#[test]
fn test_validation_report_creation() {
    let report = ValidationReport::new();
    assert!(report.valid);
    assert_eq!(report.errors.len(), 0);
    assert_eq!(report.warnings.len(), 0);
}

#[test]
fn test_validation_report_errors() {
    let mut report = ValidationReport::new();
    assert!(report.valid);

    report.add_error("Test error".to_string());
    assert!(!report.valid);
    assert_eq!(report.errors.len(), 1);
}

#[test]
fn test_validation_report_warnings() {
    let mut report = ValidationReport::new();
    report.add_warning("Test warning".to_string());

    assert!(report.valid);
    assert_eq!(report.warnings.len(), 1);
}

fn path() -> RolePath {
    RolePath {
        id: "work-abroad".to_string(),
        title: "Work Abroad".to_string(),
        description: "Path to working professionally in English".to_string(),
        role_ids: vec![
            "visa-applicant".to_string(),
            "job-seeker".to_string(),
            "qa-engineer".to_string(),
        ],
    }
}

#[test]
fn next_role_follows_the_path() {
    let p = path();
    assert_eq!(p.next_role("visa-applicant"), Some("job-seeker"));
    assert_eq!(p.next_role("job-seeker"), Some("qa-engineer"));
    assert_eq!(p.next_role("qa-engineer"), None);
    assert_eq!(p.next_role("astronaut"), None);
}

#[test]
fn completed_roles_are_counted() {
    let p = path();
    let completed = vec!["visa-applicant".to_string(), "job-seeker".to_string(), "x".to_string()];
    assert_eq!(p.completed_count(&completed), 2);
    assert_eq!(p.completed_count(&Vec::new()), 0);
}

#[test]
fn difficulty_defaults_to_intermediate() {
    assert_eq!(Difficulty::default(), Difficulty::Intermediate);
}

fn step(t: StepType) -> Step {
    Step {
        step_type: t,
        prompt: "p".to_string(),
        content: None,
        ref_text: None,
        question: None,
        answers: None,
        hints: None,
    }
}

#[test]
fn runner_walks_and_completes() {
    let steps = vec![step(StepType::Listen), step(StepType::SpeakCheck)];
    let mut r = RunnerState::new("test-01".to_string());
    assert_eq!(r.current_step_type(&steps), Some(StepType::Listen));
    r.next(steps.len());
    assert_eq!(r.current_index, 1);
    assert!(!r.completed);
    r.next(steps.len());
    assert!(r.completed);
    assert_eq!(r.current_index, 1);
    r.next(steps.len());
    assert_eq!(r.current_index, 1);
    r.prev();
    assert_eq!(r.current_index, 0);
    r.prev();
    assert_eq!(r.current_index, 0);
    r.reset();
    assert!(!r.completed);
    assert!(r.current_step(&steps).is_some());
    assert_eq!(r.current_step_type(&Vec::new()), None);
}

#[test]
fn runner_with_no_steps_completes_at_once() {
    let mut r = RunnerState::new("empty".to_string());
    r.next(0);
    assert!(r.completed);
}

#[test]
fn answers() {
    let simple = Answer::Simple("yes".to_string());
    assert_eq!(simple.text(), "yes");
    assert!(!simple.is_correct());
    assert_eq!(simple.explanation(), None);
    let rich = Answer::Rich {
        text: "no".to_string(),
        correct: true,
        explanation: Some("because".to_string()),
    };
    assert_eq!(rich.text(), "no");
    assert!(rich.is_correct());
    assert_eq!(rich.explanation(), Some("because"));
}

#[test]
fn ping_defaults() {
    assert_eq!(default_ping_min(), 90);
    assert_eq!(default_ping_max(), 3600);
}

#[test]
fn arg_values() {
    let args: Vec<String> = ["db", "--path", "a.db", "--path"].iter().map(|s| s.to_string()).collect();
    assert_eq!(get_arg_value(&args, "--path"), Some("a.db".to_string()));
    assert_eq!(get_arg_value(&args, "--other"), None);
    let tail: Vec<String> = vec!["--path".to_string()];
    assert_eq!(get_arg_value(&tail, "--path"), None);
}

fn role(id: &str, title: &str, description: &str, scenarios: &[&str]) -> Role {
    Role {
        id: id.to_string(),
        title: title.to_string(),
        description: description.to_string(),
        goal: None,
        icon: None,
        benchmarks: Vec::new(),
        scenario_ids: scenarios.iter().map(|s| s.to_string()).collect(),
        difficulty: Difficulty::default(),
    }
}

fn outline(id: &str, title: &str, steps: Vec<Step>) -> ScriptOutline {
    ScriptOutline { id: id.to_string(), title: title.to_string(), steps }
}

#[test]
fn clean_content_validates() {
    let mut v = ContentValidator::new();
    v.add_script(outline("qa-interview-01", "Interview", vec![step(StepType::Listen)]));
    v.add_role(role("qa", "QA", "Tester abroad", &["qa-interview-01"]));
    let r = v.validate();
    assert!(r.valid);
    assert_eq!(r.scripts_count, 1);
    assert_eq!(r.roles_count, 1);
    assert!(r.errors.is_empty());
    assert!(r.warnings.is_empty());
}

#[test]
fn findings_are_reported_in_order() {
    let mut v = ContentValidator::new();
    let mut blank = step(StepType::Contrast);
    blank.prompt = String::new();
    blank.content = Some(String::new());
    v.add_script(outline("s1", "", vec![step(StepType::Listen), blank]));
    v.add_script(outline("", "T", Vec::new()));
    v.add_role(role("r1", "", "", &["files/s1.yaml", "ghost"]));
    let r = v.validate();
    assert!(!r.valid);
    assert_eq!(
        r.errors,
        vec![
            "Script 's1' has empty title".to_string(),
            "Script has empty ID".to_string(),
            "Script '' has no steps".to_string(),
            "Role 'r1' has empty title".to_string(),
        ]
    );
    assert_eq!(
        r.warnings,
        vec![
            "Script 's1' step 1 has empty content".to_string(),
            "Script 's1' step 1 has empty prompt".to_string(),
            "Role 'r1' has empty description".to_string(),
        ]
    );
}

#[test]
fn unknown_scenarios_are_warned() {
    let mut v = ContentValidator::new();
    v.add_script(outline("s1", "T", vec![step(StepType::Listen)]));
    v.add_role(role("r1", "R", "D", &["s1", "s2"]));
    let r = v.validate();
    assert!(r.valid);
    assert_eq!(
        r.warnings,
        vec!["Role 'r1' references scenario 's2' which was not found".to_string()]
    );
    let empty_role = role("r2", "R", "D", &[]);
    let mut w = ContentValidator::new();
    w.add_role(empty_role);
    assert_eq!(w.validate().errors, vec!["Role 'r2' has no scenarios".to_string()]);
}

#[test]
fn adding_the_same_id_replaces() {
    let mut v = ContentValidator::new();
    v.add_script(outline("s", "old", vec![step(StepType::Listen)]));
    v.add_script(outline("s", "new", vec![step(StepType::Listen)]));
    assert_eq!(v.scripts().len(), 1);
    assert_eq!(v.scripts()[0].title, "new");
    v.add_role(role("r", "a", "d", &["s"]));
    v.add_role(role("r", "b", "d", &["s"]));
    assert_eq!(v.roles().len(), 1);
    assert_eq!(v.roles()[0].title, "b");
}

#[test]
fn substring_search() {
    assert!(occurs("", ""));
    assert!(occurs("ab", "xaby"));
    assert!(occurs("é", "café"));
    assert!(!occurs("abc", "ab"));
    assert!(!occurs("bb", "abab_"));
}

#[test]
fn test_role_path_progression() {
    let path = RolePath {
        id: "work-abroad".to_string(),
        title: "Work Abroad".to_string(),
        description: "Path to working professionally in English".to_string(),
        role_ids: vec![
            "visa-applicant".to_string(),
            "job-seeker".to_string(),
            "qa-engineer".to_string(),
        ],
    };

    assert_eq!(path.next_role("visa-applicant"), Some("job-seeker"));

    let completed = vec!["visa-applicant".to_string(), "job-seeker".to_string()];
    let progress = path.completed_count(&completed) as f32 / path.role_ids.len() as f32;
    assert!((progress - 0.666).abs() < 0.01);
}

#[test]
fn test_runner_progress() {
    let steps = vec![step(StepType::Listen), step(StepType::SpeakCheck)];
    let mut runner = RunnerState::new("test-01".to_string());
    let progress = |r: &RunnerState| ((r.current_index + 1) as f32 / steps.len().max(1) as f32).clamp(0.0, 1.0);

    assert_eq!(progress(&runner), 0.5);
    assert!(!runner.completed);

    runner.next(steps.len());
    assert_eq!(progress(&runner), 1.0);

    runner.next(steps.len());
    assert!(runner.completed);
}
