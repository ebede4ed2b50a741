use arqen::generate::{
    agent_guide, asks_options, check_project_name, feature_text, features, generated_files, job_source, main_source, module_source,
    package_name, project_config, project_manifest, project_readme, to_pascal_case, tool_source, yes_no_answer, ProjectOptions,
};

#[test]
fn pascal_case_of_snake_case_names() {
    assert_eq!(to_pascal_case("user_profile"), "UserProfile");
    assert_eq!(to_pascal_case("send_email"), "SendEmail");
    assert_eq!(to_pascal_case("USERS"), "Users");
    assert_eq!(to_pascal_case("a__b"), "AB");
    assert_eq!(to_pascal_case(""), "");
    assert_eq!(to_pascal_case("ß_x"), "SSX");
}

#[test]
fn package_names_use_underscores() {
    assert_eq!(package_name("my-app", Some("dir-name"), false), "dir_name");
    assert_eq!(package_name("my-app", Some("dir-name"), true), "my_app");
    assert_eq!(package_name("my-app", None, false), "my_app");
}

#[test]
fn project_names_are_checked() {
    assert_eq!(check_project_name("  ", "x", false), Some("Project name must be a non-empty package name".to_string()));
    assert_eq!(
        check_project_name("a/b", "a/b", true),
        Some("Project name must not contain a path separator when --output is used".to_string())
    );
    assert_eq!(check_project_name("a/b", "b", false), None);
    assert_eq!(check_project_name(".x", ".x", false), Some("Project name must be a valid Rust package name".to_string()));
    assert_eq!(check_project_name("a b", "a b", true), Some("Project name must be a valid Rust package name".to_string()));
    assert_eq!(check_project_name("app", "app", true), None);
}

#[test]
fn default_project_features_and_files() {
    let o = ProjectOptions::default();
    assert_eq!(features(&o), vec!["http-server", "advanced-transport", "logging"]);
    assert_eq!(feature_text(&o), "\"http-server\", \"advanced-transport\", \"logging\"");
    let files = generated_files(&o);
    assert_eq!(files.len(), 9);
    assert_eq!(files[8], "src/app/mod.rs");
    assert_eq!(project_config(&o), "[storage]\nmode = \"memory\"\n");
    let manifest = project_manifest("demo", "0.1.0", &o);
    assert!(manifest.starts_with("[package]\nname = \"demo\"\n"));
    assert!(manifest.contains(
        "arqen = { version = \"0.1.0\", default-features = false, features = [\"http-server\", \"advanced-transport\", \"logging\"] }\n"
    ));
    assert!(main_source(&o).contains("    arqen::logging::init_logging(\"info\", \"compact\");\n    let config"));
    let readme = project_readme("demo", "0.1.0", &o);
    assert!(readme.starts_with("# demo\n"));
    assert!(readme.contains("The server starts on http://127.0.0.1:8888 with memory storage."));
    assert!(readme.contains("- GET /api/hello - Example application route"));
}

#[test]
fn all_options_project() {
    let o = ProjectOptions {
        output_dir: None,
        yes: true,
        http: false,
        thingd: true,
        logging: false,
        examples: true,
        nice_code: true,
    };
    assert_eq!(features(&o), vec!["thingd-native"]);
    assert_eq!(feature_text(&o), "\"thingd-native\"");
    let files = generated_files(&o);
    assert_eq!(files.len(), 11);
    assert_eq!(files[8], "examples/README.md");
    assert_eq!(files[10], ".github/workflows/nice-code.yml");
    assert!(project_config(&o).contains("persistent_path = \".data/thingd\""));
    assert!(main_source(&o).starts_with("use arqen::config::{AppConfig, CliOverrides};\n\nfn main()"));
    assert!(project_readme("demo", "1", &o).contains("library-ready command-line application"));
}

#[test]
fn generated_sources_use_pascal_case_names() {
    assert!(module_source("user_profile").contains("pub struct UserProfileModule;"));
    assert!(module_source("user_profile").contains("        \"user_profile\"\n"));
    assert!(job_source("send_email").contains("impl JobHandler for SendEmailHandler {"));
    assert!(tool_source("get_user").contains("name: \"get_user\".to_string(),"));
    assert!(agent_guide().starts_with("# Project guidance"));
}

#[test]
fn yes_no_answers_follow_the_prompt_rules() {
    assert_eq!(yes_no_answer(" YES\n", false), Ok(true));
    assert_eq!(yes_no_answer("y", false), Ok(true));
    assert_eq!(yes_no_answer("No", true), Ok(false));
    assert_eq!(yes_no_answer("\n", true), Ok(true));
    assert_eq!(yes_no_answer("", false), Ok(false));
    assert_eq!(yes_no_answer("maybe", true), Err("Please answer yes or no".to_string()));
}

#[test]
fn options_are_asked_only_interactively() {
    let o = ProjectOptions::default();
    assert!(asks_options(&o, false, false, true));
    assert!(!asks_options(&o, true, false, true));
    assert!(!asks_options(&o, false, true, true));
    assert!(!asks_options(&o, false, false, false));
    let accepted = ProjectOptions { yes: true, ..ProjectOptions::default() };
    assert!(!asks_options(&accepted, false, false, true));
}
