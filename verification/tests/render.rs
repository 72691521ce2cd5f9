use wand::project::{join_path, parent_of, template_glob, trim_trailing_slashes, Project};
use wand::template::{option_prefill, resolve_option_value, TemplateEntryOption};

fn option(id: &str, name: &str, default: Option<&str>) -> TemplateEntryOption {
    TemplateEntryOption {
        id: id.to_string(),
        name: name.to_string(),
        default: default.map(|d| d.to_string()),
        required: false,
    }
}

#[test]
fn empty_response_falls_back_to_the_declared_default() {
    let workers = option("workers", "Workers", Some("4"));
    assert_eq!(resolve_option_value(&workers, &"".to_string()), "4");
}

#[test]
fn empty_response_without_a_default_yields_the_empty_string() {
    let token = option("token", "Token", None);
    assert_eq!(resolve_option_value(&token, &"".to_string()), "");
}

#[test]
fn explicit_response_stands_as_given() {
    let workers = option("workers", "Workers", Some("4"));
    assert_eq!(resolve_option_value(&workers, &"16".to_string()), "16");
}

#[test]
fn prompts_prefill_the_default_or_nothing() {
    assert_eq!(option_prefill(&option("workers", "Workers", Some("4"))), "4");
    assert_eq!(option_prefill(&option("token", "Token", None)), "");
}

#[test]
fn trailing_separators_are_trimmed() {
    assert_eq!(trim_trailing_slashes(&"./output/".to_string()), "./output");
    assert_eq!(trim_trailing_slashes(&"./output///".to_string()), "./output");
    assert_eq!(trim_trailing_slashes(&"./output".to_string()), "./output");
    assert_eq!(trim_trailing_slashes(&"/".to_string()), "");
    assert_eq!(trim_trailing_slashes(&"".to_string()), "");
}

#[test]
fn joining_normalizes_the_root_first() {
    assert_eq!(join_path(&"./output/".to_string(), &"demo".to_string()), "./output/demo");
    assert_eq!(join_path(&"./output".to_string(), &"demo".to_string()), "./output/demo");
}

#[test]
fn parent_runs_to_the_last_separator() {
    assert_eq!(parent_of(&"./output/demo/src/main.rs".to_string()), "./output/demo/src");
    assert_eq!(parent_of(&"./output/demo/README.md".to_string()), "./output/demo");
}

#[test]
fn the_engine_glob_covers_the_whole_tree() {
    assert_eq!(template_glob(&"templates/actix-web".to_string()), "templates/actix-web**/*");
    assert_eq!(template_glob(&"templates/".to_string()), "templates**/*");
}

#[test]
fn a_fresh_project_uses_the_fixed_output_root() {
    let p = Project::new("demo".to_string());
    assert_eq!(p.name, "demo");
    assert!(p.template_id.is_none());
    assert!(p.context.is_none());
    assert_eq!(p.output_path, Some("./output".to_string()));
}

#[test]
fn the_plan_covers_every_file_exactly_once() {
    let p = Project::new("demo".to_string());
    let files = vec!["README.md".to_string(), "src/main.rs".to_string(), "src/routes.rs".to_string()];
    let plan = p.render_plan(&files);
    assert_eq!(plan.len(), files.len());
    assert_eq!(plan[0].name, "README.md");
    assert_eq!(plan[0].dest, "./output/demo/README.md");
    assert_eq!(plan[0].dest_dir, "./output/demo");
    assert_eq!(plan[1].name, "src/main.rs");
    assert_eq!(plan[1].dest, "./output/demo/src/main.rs");
    assert_eq!(plan[1].dest_dir, "./output/demo/src");
    assert_eq!(plan[2].dest, "./output/demo/src/routes.rs");
    assert_eq!(plan[2].dest_dir, "./output/demo/src");
}

#[test]
fn the_output_directory_joins_root_and_name() {
    let mut p = Project::new("demo".to_string());
    p.output_path = Some("out///".to_string());
    assert_eq!(p.output_dir(), "out/demo");
}
