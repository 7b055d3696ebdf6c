//! The editor's terminal: a line of text in, a line of text out.
//!
//! A command line is split into words. The first word names the command and
//! the others are its arguments. Commands that work on a project take the
//! project that is selected in the editor, if one is.

use crate::error::{FailureKind, ServiceError};
use crate::projects::{
    compile_project, compile_verdict, deploy_project, deploy_verdict, deployed_project,
    test_project, test_verdict, ProjectStore, StoreModel,
};
use crate::text::{join_words, joined, split_words, str_eq, texts, words};
use vstd::prelude::*;
use vstd::string::*;

verus! {

/// The answer where a command needs a project and none is selected.
pub open spec fn no_project() -> Seq<char> {
    "No project selected"@
}

/// What a command that works on the selected project answers: `found` of
/// the project where it is there, a failure where the selected project is
/// not in the store, and a hint where no project is selected.
pub open spec fn on_selected(
    store: StoreModel,
    project_id: Option<Seq<char>>,
    found: Seq<char>,
) -> Result<Seq<char>, FailureKind> {
    match project_id {
        None => Ok(no_project()),
        Some(id) => if store.contains_key(id) {
            Ok(found)
        } else {
            Err(FailureKind::NotFound)
        },
    }
}

/// What `compile` answers.
pub open spec fn compile_reply(store: StoreModel, project_id: Option<Seq<char>>) -> Result<
    Seq<char>,
    FailureKind,
> {
    on_selected(
        store,
        project_id,
        compile_verdict(store[project_id->0].language, store[project_id->0].code).output,
    )
}

/// What `test` answers for the input `input`.
pub open spec fn test_reply(
    store: StoreModel,
    project_id: Option<Seq<char>>,
    input: Seq<char>,
) -> Result<Seq<char>, FailureKind> {
    on_selected(
        store,
        project_id,
        test_verdict(store[project_id->0].language, store[project_id->0].code, input).result,
    )
}

/// What `deploy` answers at the time `now`.
pub open spec fn deploy_reply(store: StoreModel, project_id: Option<Seq<char>>, now: u64) -> Result<
    Seq<char>,
    FailureKind,
> {
    on_selected(store, project_id, deploy_verdict(store[project_id->0].name, now).output)
}

/// What `cat` answers for the file `filename`. Only the source file of the
/// selected project can be shown.
pub open spec fn cat_reply(
    store: StoreModel,
    project_id: Option<Seq<char>>,
    filename: Seq<char>,
) -> Seq<char> {
    if filename == "src/lib.rs"@ || filename == "src/main.rs"@ {
        match project_id {
            None => no_project(),
            Some(id) => if store.contains_key(id) {
                store[id].code
            } else {
                "Project not found"@
            },
        }
    } else {
        "File not found: "@ + filename
    }
}

/// Whether the command line asks for a deployment of the selected project.
pub open spec fn asks_deploy(line: Seq<Seq<char>>) -> bool {
    line.len() > 0 && (line[0] == "deploy"@ || (line[0] == "dfx"@ && line.len() > 1 && joined(
        line.skip(1),
    ) == "deploy"@))
}

/// The store after the command line `line`: a deployment that finds its
/// project marks it as deployed, and nothing else changes anything.
pub open spec fn store_after_command(
    store: StoreModel,
    line: Seq<Seq<char>>,
    project_id: Option<Seq<char>>,
    now: u64,
) -> StoreModel {
    if asks_deploy(line) && project_id is Some && store.contains_key(project_id->0) {
        store.insert(project_id->0, deployed_project(store[project_id->0], now))
    } else {
        store
    }
}

/// What the terminal answers to the words `line`.
pub open spec fn command_reply(
    store: StoreModel,
    line: Seq<Seq<char>>,
    project_id: Option<Seq<char>>,
    now: u64,
) -> Result<Seq<char>, FailureKind> {
    if line.len() == 0 {
        Ok(Seq::empty())
    } else {
        let command = line[0];
        let args = line.skip(1);
        if command == "help"@ {
            Ok("Available commands: help, ls, cat, rust, motoko, dfx, compile, deploy, test"@)
        } else if command == "ls"@ || command == "dir"@ {
            Ok("src/\nCargo.toml\ndfx.json\nREADME.md"@)
        } else if command == "cat"@ {
            if args.len() == 0 {
                Ok("Usage: cat <filename>"@)
            } else {
                Ok(cat_reply(store, project_id, args[0]))
            }
        } else if command == "rust"@ {
            if args.len() == 0 {
                Ok("Rust commands: new, build, check, test"@)
            } else if args[0] == "build"@ || args[0] == "check"@ {
                compile_reply(store, project_id)
            } else if args[0] == "test"@ {
                test_reply(store, project_id, "test"@)
            } else {
                Ok("Unknown Rust command"@)
            }
        } else if command == "motoko"@ {
            if args.len() == 0 {
                Ok("Motoko commands: new, check, compile"@)
            } else if args[0] == "check"@ || args[0] == "compile"@ {
                Ok(
                    "Motoko compilation is handled by the frontend WebAssembly compiler. Use the Compile button in the IDE."@,
                )
            } else {
                Ok("Unknown Motoko command"@)
            }
        } else if command == "dfx"@ {
            if args.len() == 0 {
                Ok("DFX commands: start, deploy, generate"@)
            } else if joined(args) == "start"@ {
                Ok("DFX replica started"@)
            } else if joined(args) == "deploy"@ {
                deploy_reply(store, project_id, now)
            } else if joined(args) == "generate"@ {
                Ok("Candid files generated"@)
            } else {
                Ok("DFX command: "@ + joined(args))
            }
        } else if command == "compile"@ {
            compile_reply(store, project_id)
        } else if command == "deploy"@ {
            deploy_reply(store, project_id, now)
        } else if command == "test"@ {
            test_reply(store, project_id, joined(args))
        } else {
            Ok("Command not found: "@ + command)
        }
    }
}

fn text(literal: &str) -> (res: Result<String, ServiceError>)
    ensures
        res matches Ok(s) && s@ == literal@,
{
    Ok(String::from_str(literal))
}

fn with_prefix(prefix: &str, rest: &str) -> (res: Result<String, ServiceError>)
    ensures
        res matches Ok(s) && s@ == prefix@ + rest@,
{
    let mut s = String::from_str(prefix);
    s.append(rest);
    Ok(s)
}

/// Whether `res` is what `verdict` asks for: the same text, or the failure
/// of a lookup that found nothing.
pub open spec fn answers(
    res: Result<String, ServiceError>,
    verdict: Result<Seq<char>, FailureKind>,
) -> bool {
    match verdict {
        Ok(reply) => res matches Ok(s) && s@ == reply,
        Err(kind) => res matches Err(e) && e == ServiceError::NotFound && kind
            == FailureKind::NotFound,
    }
}

fn run_compile(store: &ProjectStore, project_id: &Option<String>) -> (res: Result<
    String,
    ServiceError,
>)
    ensures
        answers(res, compile_reply(store@, selected(*project_id))),
{
    match project_id {
        None => text("No project selected"),
        Some(id) => match compile_project(store, id.as_str()) {
            Ok(result) => Ok(result.output),
            Err(e) => Err(e),
        },
    }
}

fn run_test(store: &ProjectStore, project_id: &Option<String>, input: &str) -> (res: Result<
    String,
    ServiceError,
>)
    ensures
        answers(res, test_reply(store@, selected(*project_id), input@)),
{
    match project_id {
        None => text("No project selected"),
        Some(id) => match test_project(store, id.as_str(), input) {
            Ok(result) => Ok(result.result),
            Err(e) => Err(e),
        },
    }
}

fn run_deploy(store: &mut ProjectStore, project_id: &Option<String>, now: u64) -> (res: Result<
    String,
    ServiceError,
>)
    ensures
        answers(res, deploy_reply(old(store)@, selected(*project_id), now)),
        final(store)@ == (if project_id is Some && old(store)@.contains_key(project_id->0@) {
            old(store)@.insert(project_id->0@, deployed_project(old(store)@[project_id->0@], now))
        } else {
            old(store)@
        }),
{
    match project_id {
        None => text("No project selected"),
        Some(id) => match deploy_project(store, id.as_str(), now) {
            Ok(result) => Ok(result.output),
            Err(e) => Err(e),
        },
    }
}

fn run_cat(store: &ProjectStore, project_id: &Option<String>, filename: &str) -> (res: Result<
    String,
    ServiceError,
>)
    ensures
        res matches Ok(s) && s@ == cat_reply(store@, selected(*project_id), filename@),
{
    if str_eq(filename, "src/lib.rs") || str_eq(filename, "src/main.rs") {
        match project_id {
            None => text("No project selected"),
            Some(id) => match store.get(id.as_str()) {
                Some(project) => Ok(project.code.clone()),
                None => text("Project not found"),
            },
        }
    } else {
        with_prefix("File not found: ", filename)
    }
}

/// The id of the selected project, as a text.
pub open spec fn selected(project_id: Option<String>) -> Option<Seq<char>> {
    match project_id {
        Some(id) => Some(id@),
        None => None,
    }
}

proof fn lemma_only_deploy_deploys()
    ensures
        "help"@ != "deploy"@ && "help"@ != "dfx"@,
        "ls"@ != "deploy"@ && "ls"@ != "dfx"@,
        "dir"@ != "deploy"@ && "dir"@ != "dfx"@,
        "cat"@ != "deploy"@ && "cat"@ != "dfx"@,
        "rust"@ != "deploy"@ && "rust"@ != "dfx"@,
        "motoko"@ != "deploy"@ && "motoko"@ != "dfx"@,
        "compile"@ != "deploy"@ && "compile"@ != "dfx"@,
        "test"@ != "deploy"@ && "test"@ != "dfx"@,
        "dfx"@ != "deploy"@,
        "start"@ != "deploy"@,
        "generate"@ != "deploy"@,
{
    reveal_strlit("help");
    reveal_strlit("ls");
    reveal_strlit("dir");
    reveal_strlit("cat");
    reveal_strlit("rust");
    reveal_strlit("motoko");
    reveal_strlit("dfx");
    reveal_strlit("compile");
    reveal_strlit("deploy");
    reveal_strlit("test");
    reveal_strlit("start");
    reveal_strlit("generate");
    assert("help"@[0] != "deploy"@[0]);
    assert("motoko"@[0] != "deploy"@[0]);
    assert("dir"@[1] != "dfx"@[1]);
    assert("cat"@[0] != "dfx"@[0]);
}

/// Runs the words of a command line.
pub fn run_command(
    store: &mut ProjectStore,
    line: &Vec<String>,
    project_id: &Option<String>,
    now: u64,
) -> (res: Result<String, ServiceError>)
    ensures
        answers(res, command_reply(old(store)@, texts(line@), selected(*project_id), now)),
        final(store)@ == store_after_command(
            old(store)@,
            texts(line@),
            selected(*project_id),
            now,
        ),
{
    if line.len() == 0 {
        return Ok(String::new());
    }
    let ghost args = texts(line@).skip(1);
    let command = line[0].as_str();
    assert(texts(line@)[0] == command@);
    if line.len() > 1 {
        assert(args[0] == line@[1]@);
    }
    proof {
        lemma_only_deploy_deploys();
    }
    if str_eq(command, "help") {
        text("Available commands: help, ls, cat, rust, motoko, dfx, compile, deploy, test")
    } else if str_eq(command, "ls") || str_eq(command, "dir") {
        text("src/\nCargo.toml\ndfx.json\nREADME.md")
    } else if str_eq(command, "cat") {
        if line.len() == 1 {
            text("Usage: cat <filename>")
        } else {
            run_cat(store, project_id, line[1].as_str())
        }
    } else if str_eq(command, "rust") {
        if line.len() == 1 {
            text("Rust commands: new, build, check, test")
        } else if str_eq(line[1].as_str(), "build") || str_eq(line[1].as_str(), "check") {
            run_compile(store, project_id)
        } else if str_eq(line[1].as_str(), "test") {
            run_test(store, project_id, "test")
        } else {
            text("Unknown Rust command")
        }
    } else if str_eq(command, "motoko") {
        if line.len() == 1 {
            text("Motoko commands: new, check, compile")
        } else if str_eq(line[1].as_str(), "check") || str_eq(line[1].as_str(), "compile") {
            text(
                "Motoko compilation is handled by the frontend WebAssembly compiler. Use the Compile button in the IDE.",
            )
        } else {
            text("Unknown Motoko command")
        }
    } else if str_eq(command, "dfx") {
        if line.len() == 1 {
            text("DFX commands: start, deploy, generate")
        } else {
            let rest = join_words(line, 1);
            if str_eq(rest.as_str(), "start") {
                text("DFX replica started")
            } else if str_eq(rest.as_str(), "deploy") {
                run_deploy(store, project_id, now)
            } else if str_eq(rest.as_str(), "generate") {
                text("Candid files generated")
            } else {
                with_prefix("DFX command: ", rest.as_str())
            }
        }
    } else if str_eq(command, "compile") {
        run_compile(store, project_id)
    } else if str_eq(command, "deploy") {
        run_deploy(store, project_id, now)
    } else if str_eq(command, "test") {
        let input = join_words(line, 1);
        run_test(store, project_id, input.as_str())
    } else {
        with_prefix("Command not found: ", command)
    }
}

/// Runs a command line of the editor's terminal and hands back what it
/// prints. An empty line prints nothing.
pub fn execute_terminal_command(
    store: &mut ProjectStore,
    command: &str,
    project_id: Option<String>,
    now: u64,
) -> (res: Result<String, ServiceError>)
    ensures
        answers(res, command_reply(old(store)@, words(command@), selected(project_id), now)),
        final(store)@ == store_after_command(
            old(store)@,
            words(command@),
            selected(project_id),
            now,
        ),
{
    let line = split_words(command);
    run_command(store, &line, &project_id, now)
}

} // verus!
