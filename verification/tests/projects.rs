use icpad::error::ServiceError;
use icpad::projects::{
    answer_call, call_function, check_connection, compile_project, compile_source, create_project,
    deploy_project, deploy_project_with_wasm, get_project, greet, list_projects, test_project,
    test_source, update_project_code, CallResult, CompileResult, DeployResult, Project,
    ProjectStore, TestResult, WasmDeployResult,
};

fn store_with(language: &str, code: &str, now: u64) -> (ProjectStore, String) {
    let mut store = ProjectStore::new();
    let id = create_project(
        &mut store,
        "demo".to_string(),
        language.to_string(),
        code.to_string(),
        now,
    )
    .unwrap();
    (store, id)
}

fn failed(output: &str, error: &str) -> CompileResult {
    CompileResult {
        success: false,
        output: output.to_string(),
        errors: vec![error.to_string()],
        wasm: None,
        candid: None,
    }
}

fn passed(output: &str) -> CompileResult {
    CompileResult { success: true, output: output.to_string(), errors: vec![], wasm: None, candid: None }
}

#[test]
fn create_project_files_a_new_project() {
    let mut store = ProjectStore::new();
    let id = create_project(
        &mut store,
        "demo".to_string(),
        "rust".to_string(),
        "fn main() {}".to_string(),
        1700,
    )
    .unwrap();
    assert_eq!(id, "proj_1700");
    assert_eq!(store.len(), 1);
    let expected = Project {
        id: "proj_1700".to_string(),
        name: "demo".to_string(),
        language: "rust".to_string(),
        code: "fn main() {}".to_string(),
        created_at: 1700,
        updated_at: 1700,
        deployed: false,
        canister_id: None,
    };
    assert_eq!(get_project(&store, "proj_1700"), Ok(expected));
}

#[test]
fn create_project_at_the_same_time_replaces() {
    let (mut store, id) = store_with("rust", "one", 5);
    let again =
        create_project(&mut store, "other".to_string(), "motoko".to_string(), "two".to_string(), 5)
            .unwrap();
    assert_eq!(id, again);
    assert_eq!(store.len(), 1);
    assert_eq!(get_project(&store, &id).unwrap().name, "other");
}

#[test]
fn get_project_of_an_unknown_id_is_not_found() {
    let store = ProjectStore::new();
    let failure = get_project(&store, "proj_1").unwrap_err();
    assert_eq!(failure, ServiceError::NotFound);
    assert_eq!(failure.message(), "Project not found");
}

#[test]
fn list_projects_lists_each_project_once() {
    let mut store = ProjectStore::new();
    assert_eq!(list_projects(&store), Ok(vec![]));
    for now in [3u64, 1, 2] {
        create_project(&mut store, format!("p{}", now), "rust".to_string(), String::new(), now)
            .unwrap();
    }
    let mut ids: Vec<String> = list_projects(&store).unwrap().into_iter().map(|p| p.id).collect();
    ids.sort();
    assert_eq!(ids, vec!["proj_1".to_string(), "proj_2".to_string(), "proj_3".to_string()]);
}

#[test]
fn update_project_code_changes_code_and_time() {
    let (mut store, id) = store_with("rust", "old", 10);
    let text = update_project_code(&mut store, &id, "new".to_string(), 20).unwrap();
    assert_eq!(text, "Code updated successfully");
    let project = get_project(&store, &id).unwrap();
    assert_eq!(project.code, "new");
    assert_eq!(project.updated_at, 20);
    assert_eq!(project.created_at, 10);
    assert_eq!(project.name, "demo");
    assert_eq!(store.len(), 1);
}

#[test]
fn update_project_code_of_an_unknown_id_is_not_found() {
    let (mut store, id) = store_with("rust", "old", 10);
    assert_eq!(
        update_project_code(&mut store, "proj_11", "new".to_string(), 20),
        Err(ServiceError::NotFound)
    );
    assert_eq!(get_project(&store, &id).unwrap().code, "old");
}

#[test]
fn compile_source_leaves_motoko_to_the_editor() {
    assert_eq!(
        compile_source("motoko", "actor {}"),
        failed(
            "Motoko compilation should be handled by the frontend WebAssembly compiler",
            "Use frontend compilation for Motoko projects"
        )
    );
}

#[test]
fn compile_source_looks_for_an_entry_point_in_rust() {
    assert_eq!(
        compile_source("rust", "fn main() {}"),
        passed("Rust compilation successful! No errors found.")
    );
    assert_eq!(
        compile_source("rust", "#[update]\nfn f() {}"),
        passed("Rust compilation successful! No errors found.")
    );
    assert_eq!(
        compile_source("rust", "fn  main() {}"),
        failed("Rust compilation failed!", "Missing main function or update handler")
    );
}

#[test]
fn compile_source_looks_for_an_export_in_javascript() {
    assert_eq!(
        compile_source("javascript", "export const x = 1;"),
        passed("JavaScript validation successful!")
    );
    assert_eq!(
        compile_source("javascript", "const x = 1;"),
        failed("JavaScript validation failed!", "Missing export statements")
    );
}

#[test]
fn compile_source_knows_no_other_language() {
    assert_eq!(
        compile_source("Rust", "fn main() {}"),
        failed("Unsupported language", "Language not supported")
    );
    assert_eq!(compile_source("", ""), failed("Unsupported language", "Language not supported"));
}

#[test]
fn compile_project_compiles_what_the_store_holds() {
    let (store, id) = store_with("rust", "fn main() {}", 1);
    assert_eq!(
        compile_project(&store, &id),
        Ok(passed("Rust compilation successful! No errors found."))
    );
    assert_eq!(compile_project(&store, "nope"), Err(ServiceError::NotFound));
}

#[test]
fn test_source_greets_where_the_code_can() {
    for language in ["rust", "motoko", "javascript"] {
        assert_eq!(
            test_source(language, "fn greet() {}", "Ada"),
            TestResult {
                success: true,
                output: "Test passed!".to_string(),
                result: "Hello, Ada! Welcome to ICPad!".to_string(),
            }
        );
        assert_eq!(
            test_source(language, "fn hello() {}", "Ada"),
            TestResult {
                success: false,
                output: "Test failed!".to_string(),
                result: "Test failed: No greet function found".to_string(),
            }
        );
    }
}

#[test]
fn test_source_knows_no_other_language() {
    assert_eq!(
        test_source("python", "def greet(): pass", "Ada"),
        TestResult {
            success: false,
            output: "Test failed!".to_string(),
            result: "Unsupported language for testing".to_string(),
        }
    );
}

#[test]
fn test_project_tests_what_the_store_holds() {
    let (store, id) = store_with("motoko", "func greet() {}", 1);
    assert_eq!(test_project(&store, &id, "you").unwrap().result, "Hello, you! Welcome to ICPad!");
    assert_eq!(test_project(&store, "nope", "you"), Err(ServiceError::NotFound));
}

#[test]
fn greet_writes_the_greeting() {
    assert_eq!(greet("World"), "Hello, World! Welcome to ICPad!");
    assert_eq!(greet(""), "Hello, ! Welcome to ICPad!");
}

#[test]
fn deploy_project_makes_up_a_canister() {
    let (mut store, id) = store_with("rust", "fn main() {}", 1);
    let result = deploy_project(&mut store, &id, 42).unwrap();
    assert_eq!(
        result,
        DeployResult {
            success: true,
            canister_id: Some("canister_42".to_string()),
            url: Some("https://canister_42.ic0.app".to_string()),
            output: "Successfully deployed demo to Internet Computer".to_string(),
        }
    );
    let project = get_project(&store, &id).unwrap();
    assert!(project.deployed);
    assert_eq!(project.canister_id, Some("canister_42".to_string()));
    assert_eq!(project.updated_at, 1);
    assert_eq!(project.code, "fn main() {}");
}

#[test]
fn deploy_project_of_an_unknown_id_is_not_found() {
    let (mut store, id) = store_with("rust", "fn main() {}", 1);
    assert_eq!(deploy_project(&mut store, "nope", 42), Err(ServiceError::NotFound));
    assert!(!get_project(&store, &id).unwrap().deployed);
}

#[test]
fn deploy_project_with_wasm_reports_the_size() {
    let (mut store, id) = store_with("rust", "fn main() {}", 1);
    let result =
        deploy_project_with_wasm(&mut store, &id, vec![0; 1234], "service : {}".to_string(), 9)
            .unwrap();
    assert_eq!(
        result,
        WasmDeployResult {
            success: true,
            canister_id: "canister_9".to_string(),
            url: "https://canister_9.ic0.app".to_string(),
            wasm_size: 1234,
            candid: "service : {}".to_string(),
            output: "Successfully deployed demo to Internet Computer with 1234 bytes of WASM"
                .to_string(),
        }
    );
    assert!(get_project(&store, &id).unwrap().deployed);
    assert_eq!(
        deploy_project_with_wasm(&mut store, "nope", vec![], String::new(), 9),
        Err(ServiceError::NotFound)
    );
}

#[test]
fn call_function_needs_a_deployed_project() {
    let (mut store, id) = store_with("rust", "fn main() {}", 1);
    let failure = call_function(&store, &id, "greet", &vec![]).unwrap_err();
    assert_eq!(failure, ServiceError::NotDeployed);
    assert_eq!(failure.message(), "Project not deployed");
    assert_eq!(call_function(&store, "nope", "greet", &vec![]), Err(ServiceError::NotFound));
    deploy_project(&mut store, &id, 2).unwrap();
    assert_eq!(
        call_function(&store, &id, "greet", &vec!["Ada".to_string(), "x".to_string()]),
        Ok(CallResult {
            success: true,
            result: "Hello, Ada! Welcome to ICPad!".to_string(),
            error: None,
        })
    );
}

#[test]
fn answer_call_knows_three_functions() {
    assert_eq!(
        answer_call("getMessage", &vec![]),
        CallResult { success: true, result: "Hello from ICPad!".to_string(), error: None }
    );
    assert_eq!(
        answer_call("greet", &vec![]),
        CallResult {
            success: true,
            result: "Hello, World! Welcome to ICPad!".to_string(),
            error: None,
        }
    );
    assert_eq!(
        answer_call("whoami", &vec!["x".to_string()]),
        CallResult { success: true, result: "Principal from actor".to_string(), error: None }
    );
    assert_eq!(
        answer_call("launch", &vec![]),
        CallResult {
            success: false,
            result: String::new(),
            error: Some("Function 'launch' not found".to_string()),
        }
    );
}

#[test]
fn check_connection_answers_true() {
    assert_eq!(check_connection(), Ok("true".to_string()));
}

#[test]
fn project_store_puts_and_gets() {
    let mut store = ProjectStore::new();
    assert_eq!(store.len(), 0);
    assert!(store.get("a").is_none());
    let project = Project {
        id: "a".to_string(),
        name: "n".to_string(),
        language: "rust".to_string(),
        code: String::new(),
        created_at: 1,
        updated_at: 2,
        deployed: true,
        canister_id: Some("c".to_string()),
    };
    store.put(project.clone());
    assert_eq!(store.get("a"), Some(&project));
    assert_eq!(store.list(), vec![project]);
}
