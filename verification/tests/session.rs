use wand::project::Project;
use wand::registry::ScanOutcome;
use wand::session::{ProjectWand, SessionAction, SessionEvent, SessionState};
use wand::template::{TemplateConfig, TemplateEntryOption};

fn api_template() -> ScanOutcome {
    ScanOutcome::Template {
        config: TemplateConfig {
            id: "api".to_string(),
            name: "API".to_string(),
            options: vec![TemplateEntryOption {
                id: "workers".to_string(),
                name: "Workers".to_string(),
                default: Some("4".to_string()),
                required: false,
            }],
        },
        path: "templates/api".to_string(),
    }
}

fn wand_with_api() -> ProjectWand {
    let mut wand = ProjectWand::new();
    assert!(wand.template_list.add_scanned_root(vec![api_template()]).is_ok());
    wand
}

#[test]
fn a_new_wand_scans_the_fixed_internal_root() {
    let wand = ProjectWand::new();
    assert_eq!(wand.internal_path, "templates/");
    assert!(wand.external_paths.is_empty());
    assert!(wand.projects.is_empty());
    assert_eq!(wand.template_list.keys, vec!["Exit"]);
}

#[test]
fn choosing_the_sentinel_ends_the_session() {
    let wand = wand_with_api();
    let (state, action) = wand.session_step(
        SessionState::Listing,
        SessionEvent::ProjectRequest { name: "demo".to_string(), choice: 0 },
    );
    assert!(matches!(state, SessionState::Finished));
    assert!(matches!(action, SessionAction::Exit));
}

#[test]
fn choosing_a_template_asks_for_its_first_option() {
    let wand = wand_with_api();
    let (state, action) = wand.session_step(
        SessionState::Listing,
        SessionEvent::ProjectRequest { name: "demo".to_string(), choice: 1 },
    );
    match state {
        SessionState::Collecting { ref project, template_index, next_option } => {
            assert_eq!(project.name, "demo");
            assert_eq!(project.template_id, Some("api".to_string()));
            assert_eq!(template_index, 1);
            assert_eq!(next_option, 0);
        }
        _ => panic!("a template choice must start collecting"),
    }
    match action {
        SessionAction::PromptOption { label, prefill } => {
            assert_eq!(label, "Workers");
            assert_eq!(prefill, "4");
        }
        _ => panic!("the first parameter must be asked for"),
    }
}

#[test]
fn a_template_without_options_renders_at_once() {
    let mut wand = ProjectWand::new();
    let outcome = ScanOutcome::Template {
        config: TemplateConfig { id: "bare".to_string(), name: "Bare".to_string(), options: vec![] },
        path: "templates/bare".to_string(),
    };
    assert!(wand.template_list.add_scanned_root(vec![outcome]).is_ok());
    let (state, action) = wand.session_step(
        SessionState::Listing,
        SessionEvent::ProjectRequest { name: "demo".to_string(), choice: 1 },
    );
    assert!(matches!(state, SessionState::Listing));
    match action {
        SessionAction::Render { project } => assert_eq!(project.name, "demo"),
        _ => panic!("a template without parameters goes straight to rendering"),
    }
}

#[test]
fn accepting_the_default_renders_the_declared_value() {
    let wand = wand_with_api();
    let (state, _) = wand.session_step(
        SessionState::Listing,
        SessionEvent::ProjectRequest { name: "demo".to_string(), choice: 1 },
    );
    let (state, action) = wand.session_step(
        state,
        SessionEvent::OptionResponse { value: "".to_string() },
    );
    assert!(matches!(state, SessionState::Listing));
    let project = match action {
        SessionAction::Render { project } => project,
        _ => panic!("the last response must hand the project over for rendering"),
    };

    let plan = project.render_plan(&vec!["README.md".to_string()]);
    assert_eq!(plan.len(), 1);
    assert_eq!(plan[0].dest, "./output/demo/README.md");

    let mut tera = tera::Tera::default();
    tera.add_raw_template("README.md", "workers={{ workers }}").unwrap();
    let context = project.context.clone().unwrap();
    let rendered = tera.render("README.md", &context).unwrap();
    assert_eq!(rendered, "workers=4");
}

#[test]
fn an_explicit_response_overrides_the_default() {
    let wand = wand_with_api();
    let (state, _) = wand.session_step(
        SessionState::Listing,
        SessionEvent::ProjectRequest { name: "demo".to_string(), choice: 1 },
    );
    let (_, action) = wand.session_step(
        state,
        SessionEvent::OptionResponse { value: "16".to_string() },
    );
    let project = match action {
        SessionAction::Render { project } => project,
        _ => panic!("the last response must hand the project over for rendering"),
    };
    let mut tera = tera::Tera::default();
    tera.add_raw_template("w", "{{ workers }}").unwrap();
    let rendered = tera.render("w", &project.context.clone().unwrap()).unwrap();
    assert_eq!(rendered, "16");
}

#[test]
fn storing_projects_keys_them_by_name() {
    let mut wand = ProjectWand::new();
    wand.store_project(Project::new("demo".to_string()));
    wand.store_project(Project::new("other".to_string()));
    assert_eq!(wand.projects.len(), 2);
    assert_eq!(wand.projects[0].name, "demo");
    assert_eq!(wand.projects[1].name, "other");
}

#[test]
fn reusing_a_project_name_overwrites_the_earlier_entry() {
    let mut wand = ProjectWand::new();
    wand.store_project(Project::new("demo".to_string()));
    let mut replacement = Project::new("demo".to_string());
    replacement.template_id = Some("api".to_string());
    wand.store_project(replacement);
    assert_eq!(wand.projects.len(), 1);
    assert_eq!(wand.projects[0].template_id, Some("api".to_string()));
}
