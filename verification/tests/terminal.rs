use icpad::error::ServiceError;
use icpad::projects::{create_project, get_project, ProjectStore};
use icpad::terminal::{execute_terminal_command, run_command};

fn workspace(language: &str, code: &str) -> (ProjectStore, Option<String>) {
    let mut store = ProjectStore::new();
    let id = create_project(
        &mut store,
        "demo".to_string(),
        language.to_string(),
        code.to_string(),
        1,
    )
    .unwrap();
    (store, Some(id))
}

fn run(store: &mut ProjectStore, line: &str, project: &Option<String>) -> Result<String, ServiceError> {
    execute_terminal_command(store, line, project.clone(), 77)
}

#[test]
fn empty_line_prints_nothing() {
    let mut store = ProjectStore::new();
    assert_eq!(run(&mut store, "", &None), Ok(String::new()));
    assert_eq!(run(&mut store, "   \t ", &None), Ok(String::new()));
}

#[test]
fn help_lists_the_commands() {
    let mut store = ProjectStore::new();
    assert_eq!(
        run(&mut store, "help", &None).unwrap(),
        "Available commands: help, ls, cat, rust, motoko, dfx, compile, deploy, test"
    );
    assert_eq!(
        run(&mut store, "  help  me ", &None).unwrap(),
        "Available commands: help, ls, cat, rust, motoko, dfx, compile, deploy, test"
    );
}

#[test]
fn ls_and_dir_list_the_files() {
    let mut store = ProjectStore::new();
    assert_eq!(run(&mut store, "ls", &None).unwrap(), "src/\nCargo.toml\ndfx.json\nREADME.md");
    assert_eq!(run(&mut store, "dir", &None).unwrap(), "src/\nCargo.toml\ndfx.json\nREADME.md");
}

#[test]
fn unknown_command_is_named() {
    let mut store = ProjectStore::new();
    assert_eq!(run(&mut store, "rm -rf /", &None).unwrap(), "Command not found: rm");
    assert_eq!(run(&mut store, "Help", &None).unwrap(), "Command not found: Help");
}

#[test]
fn cat_shows_the_code_of_the_selected_project() {
    let (mut store, project) = workspace("rust", "fn main() {}");
    assert_eq!(run(&mut store, "cat", &project).unwrap(), "Usage: cat <filename>");
    assert_eq!(run(&mut store, "cat src/lib.rs", &project).unwrap(), "fn main() {}");
    assert_eq!(run(&mut store, "cat src/main.rs extra", &project).unwrap(), "fn main() {}");
    assert_eq!(run(&mut store, "cat README.md", &project).unwrap(), "File not found: README.md");
    assert_eq!(run(&mut store, "cat src/lib.rs", &None).unwrap(), "No project selected");
    assert_eq!(
        run(&mut store, "cat src/lib.rs", &Some("gone".to_string())).unwrap(),
        "Project not found"
    );
}

#[test]
fn rust_commands_compile_and_test() {
    let (mut store, project) = workspace("rust", "fn main() { greet(); }");
    assert_eq!(run(&mut store, "rust", &project).unwrap(), "Rust commands: new, build, check, test");
    assert_eq!(
        run(&mut store, "rust build", &project).unwrap(),
        "Rust compilation successful! No errors found."
    );
    assert_eq!(
        run(&mut store, "rust check", &project).unwrap(),
        "Rust compilation successful! No errors found."
    );
    assert_eq!(run(&mut store, "rust test", &project).unwrap(), "Hello, test! Welcome to ICPad!");
    assert_eq!(run(&mut store, "rust new", &project).unwrap(), "Unknown Rust command");
    assert_eq!(run(&mut store, "rust build", &None).unwrap(), "No project selected");
    assert_eq!(run(&mut store, "rust test", &None).unwrap(), "No project selected");
    assert_eq!(
        run(&mut store, "rust build", &Some("gone".to_string())),
        Err(ServiceError::NotFound)
    );
}

#[test]
fn motoko_commands_point_to_the_editor() {
    let mut store = ProjectStore::new();
    assert_eq!(run(&mut store, "motoko", &None).unwrap(), "Motoko commands: new, check, compile");
    let hint = "Motoko compilation is handled by the frontend WebAssembly compiler. Use the Compile button in the IDE.";
    assert_eq!(run(&mut store, "motoko check", &None).unwrap(), hint);
    assert_eq!(run(&mut store, "motoko compile", &None).unwrap(), hint);
    assert_eq!(run(&mut store, "motoko new", &None).unwrap(), "Unknown Motoko command");
}

#[test]
fn dfx_commands_read_all_their_words() {
    let (mut store, project) = workspace("rust", "fn main() {}");
    assert_eq!(run(&mut store, "dfx", &project).unwrap(), "DFX commands: start, deploy, generate");
    assert_eq!(run(&mut store, "dfx start", &project).unwrap(), "DFX replica started");
    assert_eq!(run(&mut store, "dfx generate", &project).unwrap(), "Candid files generated");
    assert_eq!(
        run(&mut store, "dfx   start   --clean", &project).unwrap(),
        "DFX command: start --clean"
    );
    assert_eq!(run(&mut store, "dfx deploy", &None).unwrap(), "No project selected");
    assert!(!get_project(&store, project.as_ref().unwrap()).unwrap().deployed);
    assert_eq!(
        run(&mut store, "dfx deploy", &project).unwrap(),
        "Successfully deployed demo to Internet Computer"
    );
    let deployed = get_project(&store, project.as_ref().unwrap()).unwrap();
    assert!(deployed.deployed);
    assert_eq!(deployed.canister_id, Some("canister_77".to_string()));
}

#[test]
fn dfx_deploy_with_more_words_deploys_nothing() {
    let (mut store, project) = workspace("rust", "fn main() {}");
    assert_eq!(
        run(&mut store, "dfx deploy --network ic", &project).unwrap(),
        "DFX command: deploy --network ic"
    );
    assert!(!get_project(&store, project.as_ref().unwrap()).unwrap().deployed);
}

#[test]
fn compile_deploy_and_test_work_on_the_selected_project() {
    let (mut store, project) = workspace("javascript", "const greet = 1;");
    assert_eq!(run(&mut store, "compile", &project).unwrap(), "JavaScript validation failed!");
    assert_eq!(
        run(&mut store, "test Ada  Lovelace", &project).unwrap(),
        "Hello, Ada Lovelace! Welcome to ICPad!"
    );
    assert_eq!(run(&mut store, "test", &project).unwrap(), "Hello, ! Welcome to ICPad!");
    assert_eq!(
        run(&mut store, "deploy now", &project).unwrap(),
        "Successfully deployed demo to Internet Computer"
    );
    assert!(get_project(&store, project.as_ref().unwrap()).unwrap().deployed);
    for line in ["compile", "deploy", "test x"] {
        assert_eq!(run(&mut store, line, &None).unwrap(), "No project selected");
        assert_eq!(run(&mut store, line, &Some("gone".to_string())), Err(ServiceError::NotFound));
    }
}

#[test]
fn test_command_reports_a_missing_greet() {
    let (mut store, project) = workspace("rust", "fn main() {}");
    assert_eq!(
        run(&mut store, "test Ada", &project).unwrap(),
        "Test failed: No greet function found"
    );
}

#[test]
fn run_command_takes_the_words_as_they_are() {
    let (mut store, project) = workspace("rust", "fn main() {}");
    let line = vec!["cat".to_string(), "src/lib.rs".to_string()];
    assert_eq!(run_command(&mut store, &line, &project, 1).unwrap(), "fn main() {}");
    assert_eq!(run_command(&mut store, &vec![], &project, 1).unwrap(), "");
}
