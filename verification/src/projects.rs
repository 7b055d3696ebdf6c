//! The project store and the operations of the editor on it.
//!
//! A project is a piece of source code in one language. The store keeps the
//! projects by id. Compiling, testing and deploying are simulated: they look
//! at the language and at the text of the code and answer at once.

use crate::error::ServiceError;
use crate::keyed;
use crate::keyed::{as_map, distinct_keys, key_at, Keyed};
use crate::text::{contains, decimal, decimal_string, has_substring, str_eq};
use vstd::prelude::*;
use vstd::string::*;

verus! {

/// A project of the editor.
#[derive(Debug, PartialEq, Eq)]
pub struct Project {
    pub id: String,
    pub name: String,
    pub language: String,
    pub code: String,
    pub created_at: u64,
    pub updated_at: u64,
    pub deployed: bool,
    pub canister_id: Option<String>,
}

/// A project as plain mathematical values.
pub struct ProjectModel {
    pub id: Seq<char>,
    pub name: Seq<char>,
    pub language: Seq<char>,
    pub code: Seq<char>,
    pub created_at: u64,
    pub updated_at: u64,
    pub deployed: bool,
    pub canister_id: Option<Seq<char>>,
}

/// The text inside an optional string.
pub open spec fn text_of(s: Option<String>) -> Option<Seq<char>> {
    match s {
        Some(text) => Some(text@),
        None => None,
    }
}

impl View for Project {
    type V = ProjectModel;

    open spec fn view(&self) -> ProjectModel {
        ProjectModel {
            id: self.id@,
            name: self.name@,
            language: self.language@,
            code: self.code@,
            created_at: self.created_at,
            updated_at: self.updated_at,
            deployed: self.deployed,
            canister_id: text_of(self.canister_id),
        }
    }
}

impl Clone for Project {
    fn clone(&self) -> (copy: Project)
        ensures
            copy@ == self@,
    {
        let canister_id = match &self.canister_id {
            Some(id) => Some(id.clone()),
            None => None,
        };
        Project {
            id: self.id.clone(),
            name: self.name.clone(),
            language: self.language.clone(),
            code: self.code.clone(),
            created_at: self.created_at,
            updated_at: self.updated_at,
            deployed: self.deployed,
            canister_id,
        }
    }
}

/// What a compilation answers.
#[derive(Clone, Debug, PartialEq, Eq)]
pub struct CompileResult {
    pub success: bool,
    pub output: String,
    pub errors: Vec<String>,
    pub wasm: Option<Vec<u8>>,
    pub candid: Option<String>,
}

/// What a deployment answers.
#[derive(Clone, Debug, PartialEq, Eq)]
pub struct DeployResult {
    pub success: bool,
    pub canister_id: Option<String>,
    pub url: Option<String>,
    pub output: String,
}

/// What a test run answers.
#[derive(Clone, Debug, PartialEq, Eq)]
pub struct TestResult {
    pub success: bool,
    pub output: String,
    pub result: String,
}

/// The model of a project store: projects by id.
pub type StoreModel = Map<Seq<char>, ProjectModel>;

/// Every project is filed under its own id.
pub open spec fn keyed_by_id(m: StoreModel) -> bool {
    forall|id: Seq<char>| #[trigger] m.contains_key(id) ==> m[id].id == id
}

/// Whether `all` holds the projects of `m`, each of them once.
pub open spec fn holds_each_once(all: Seq<Project>, m: StoreModel) -> bool {
    &&& all.len() == m.len()
    &&& forall|i: int|
        0 <= i < all.len() ==> m.contains_key(#[trigger] all[i].id@) && m[all[i].id@] == all[i]@
    &&& forall|i: int, j: int| 0 <= i < j < all.len() ==> all[i].id@ != all[j].id@
}

spec fn keyed_projects(s: Seq<Project>) -> Seq<Keyed<ProjectModel>> {
    Seq::new(s.len(), |i: int| (s[i].id@, s[i]@))
}

spec fn projects_map(s: Seq<Project>) -> StoreModel {
    as_map(keyed_projects(s))
}

fn find_project(entries: &Vec<Project>, project_id: &str) -> (found: Option<usize>)
    ensures
        match found {
            Some(i) => key_at(keyed_projects(entries@), project_id@, i as int),
            None => !projects_map(entries@).contains_key(project_id@),
        },
{
    let mut i: usize = 0;
    while i < entries.len()
        invariant
            i <= entries.len(),
            forall|k: int| 0 <= k < i ==> !key_at(keyed_projects(entries@), project_id@, k),
        decreases entries.len() - i,
    {
        if str_eq(entries[i].id.as_str(), project_id) {
            return Some(i);
        }
        i += 1;
    }
    None
}

/// The projects of the editor, at most one per id.
pub struct ProjectStore {
    entries: Vec<Project>,
}

impl View for ProjectStore {
    type V = StoreModel;

    closed spec fn view(&self) -> StoreModel {
        projects_map(self.entries@)
    }
}

impl ProjectStore {
    /// No two projects have the same id.
    #[verifier::type_invariant]
    pub closed spec fn wf(&self) -> bool {
        distinct_keys(keyed_projects(self.entries@))
    }

    /// A well-formed store is a finite map in which every project is filed
    /// under its own id.
    pub proof fn lemma_model(self)
        requires
            self.wf(),
        ensures
            self@.dom().finite(),
            keyed_by_id(self@),
    {
        let s = keyed_projects(self.entries@);
        keyed::lemma_len(s);
        let m = self@;
        assert forall|id: Seq<char>| #[trigger] m.contains_key(id) implies m[id].id == id by {
            let i = keyed::lemma_index_of(s, id);
        }
    }

    /// An empty store.
    pub fn new() -> (store: ProjectStore)
        ensures
            store.wf(),
            store@ == Map::<Seq<char>, ProjectModel>::empty(),
    {
        let store = ProjectStore { entries: Vec::new() };
        assert(store@ =~= Map::<Seq<char>, ProjectModel>::empty());
        store
    }

    /// Number of projects.
    pub fn len(&self) -> (n: usize)
        ensures
            n == self@.len(),
    {
        proof {
            use_type_invariant(self);
            keyed::lemma_len(keyed_projects(self.entries@));
        }
        self.entries.len()
    }

    /// The project with the id `project_id`, if there is one.
    pub fn get(&self, project_id: &str) -> (found: Option<&Project>)
        ensures
            match found {
                Some(project) => self@.contains_key(project_id@) && self@[project_id@]
                    == project@ && project.id@ == project_id@,
                None => !self@.contains_key(project_id@),
            },
    {
        match find_project(&self.entries, project_id) {
            Some(i) => {
                proof {
                    use_type_invariant(self);
                    keyed::lemma_lookup(keyed_projects(self.entries@), i as int);
                }
                Some(&self.entries[i])
            },
            None => None,
        }
    }

    /// Files `project` under its id, in place of any project with that id.
    pub fn put(&mut self, project: Project)
        ensures
            final(self).wf(),
            final(self)@ == old(self)@.insert(project.id@, project@),
    {
        proof {
            use_type_invariant(&*self);
        }
        let mut entries: Vec<Project> = Vec::new();
        core::mem::swap(&mut self.entries, &mut entries);
        let ghost before = entries@;
        match find_project(&entries, project.id.as_str()) {
            Some(i) => {
                proof {
                    keyed::lemma_lookup(keyed_projects(before), i as int);
                    keyed::lemma_remove(keyed_projects(before), i as int);
                    assert(keyed_projects(before.remove(i as int)) =~= keyed_projects(
                        before,
                    ).remove(i as int));
                }
                entries.remove(i);
            },
            None => {},
        }
        proof {
            keyed::lemma_push(keyed_projects(entries@), (project.id@, project@));
            assert(keyed_projects(entries@.push(project)) =~= keyed_projects(entries@).push(
                (project.id@, project@),
            ));
            assert(old(self)@.remove(project.id@).insert(project.id@, project@) =~= old(
                self,
            )@.insert(project.id@, project@));
        }
        entries.push(project);
        self.entries = entries;
    }

    /// All projects, each once, in no particular order.
    pub fn list(&self) -> (all: Vec<Project>)
        ensures
            holds_each_once(all@, self@),
    {
        proof {
            use_type_invariant(self);
            keyed::lemma_len(keyed_projects(self.entries@));
        }
        let mut all: Vec<Project> = Vec::new();
        let mut i: usize = 0;
        while i < self.entries.len()
            invariant
                i <= self.entries.len(),
                all.len() == i,
                forall|k: int| 0 <= k < i ==> #[trigger] all[k]@ == self.entries[k]@,
            decreases self.entries.len() - i,
        {
            all.push(self.entries[i].clone());
            i += 1;
        }
        proof {
            let s = keyed_projects(self.entries@);
            assert forall|k: int| 0 <= k < all.len() implies self@.contains_key(
                #[trigger] all[k].id@,
            ) && self@[all[k].id@] == all[k]@ by {
                assert(all[k]@ == self.entries[k]@);
                keyed::lemma_lookup(s, k);
            }
            assert forall|a: int, b: int| 0 <= a < b < all.len() implies all[a].id@ != all[b].id@ by {
                assert(all[a]@ == self.entries[a]@);
                assert(all[b]@ == self.entries[b]@);
                assert(s[a].0 != s[b].0);
            }
        }
        all
    }
}

/// A compilation result as plain mathematical values.
pub struct CompileModel {
    pub success: bool,
    pub output: Seq<char>,
    pub errors: Seq<Seq<char>>,
    pub wasm: Option<Seq<u8>>,
    pub candid: Option<Seq<char>>,
}

impl View for CompileResult {
    type V = CompileModel;

    open spec fn view(&self) -> CompileModel {
        CompileModel {
            success: self.success,
            output: self.output@,
            errors: Seq::new(self.errors@.len(), |i: int| self.errors@[i]@),
            wasm: match self.wasm {
                Some(bytes) => Some(bytes@),
                None => None,
            },
            candid: text_of(self.candid),
        }
    }
}

/// A deployment result as plain mathematical values.
pub struct DeployModel {
    pub success: bool,
    pub canister_id: Option<Seq<char>>,
    pub url: Option<Seq<char>>,
    pub output: Seq<char>,
}

impl View for DeployResult {
    type V = DeployModel;

    open spec fn view(&self) -> DeployModel {
        DeployModel {
            success: self.success,
            canister_id: text_of(self.canister_id),
            url: text_of(self.url),
            output: self.output@,
        }
    }
}

/// A test result as plain mathematical values.
pub struct TestModel {
    pub success: bool,
    pub output: Seq<char>,
    pub result: Seq<char>,
}

impl View for TestResult {
    type V = TestModel;

    open spec fn view(&self) -> TestModel {
        TestModel { success: self.success, output: self.output@, result: self.result@ }
    }
}

/// The id of a project created at `now`.
pub open spec fn project_id_at(now: u64) -> Seq<char> {
    "proj_"@ + decimal(now as nat)
}

/// The project that `create_project` files.
pub open spec fn created_project(
    name: Seq<char>,
    language: Seq<char>,
    code: Seq<char>,
    now: u64,
) -> ProjectModel {
    ProjectModel {
        id: project_id_at(now),
        name,
        language,
        code,
        created_at: now,
        updated_at: now,
        deployed: false,
        canister_id: None,
    }
}

/// Creates a project and hands back its id. The id is made of the host time,
/// so a project created at the same time as another takes its place.
pub fn create_project(
    store: &mut ProjectStore,
    name: String,
    language: String,
    initial_code: String,
    now: u64,
) -> (res: Result<String, ServiceError>)
    ensures
        res matches Ok(id) && id@ == project_id_at(now),
        final(store)@ == old(store)@.insert(
            project_id_at(now),
            created_project(name@, language@, initial_code@, now),
        ),
{
    let mut id = String::from_str("proj_");
    let digits = decimal_string(now);
    id.append(digits.as_str());
    let project = Project {
        id: id.clone(),
        name,
        language,
        code: initial_code,
        created_at: now,
        updated_at: now,
        deployed: false,
        canister_id: None,
    };
    store.put(project);
    Ok(id)
}

/// The project with the id `project_id`.
pub fn get_project(store: &ProjectStore, project_id: &str) -> (res: Result<Project, ServiceError>)
    ensures
        match res {
            Ok(project) => store@.contains_key(project_id@) && project@ == store@[project_id@],
            Err(e) => !store@.contains_key(project_id@) && e == ServiceError::NotFound,
        },
{
    match store.get(project_id) {
        Some(project) => Ok(project.clone()),
        None => Err(ServiceError::NotFound),
    }
}

/// All projects, each once, in no particular order.
pub fn list_projects(store: &ProjectStore) -> (res: Result<Vec<Project>, ServiceError>)
    ensures
        res matches Ok(all) && holds_each_once(all@, store@),
{
    Ok(store.list())
}

/// The text that confirms a change of code.
pub open spec fn code_updated() -> Seq<char> {
    "Code updated successfully"@
}

/// Replaces the code of a project and notes the time of the change.
pub fn update_project_code(
    store: &mut ProjectStore,
    project_id: &str,
    new_code: String,
    now: u64,
) -> (res: Result<String, ServiceError>)
    ensures
        match res {
            Ok(text) => old(store)@.contains_key(project_id@) && text@ == code_updated()
                && final(store)@ == old(store)@.insert(
                project_id@,
                ProjectModel { code: new_code@, updated_at: now, ..old(store)@[project_id@] },
            ),
            Err(e) => !old(store)@.contains_key(project_id@) && e == ServiceError::NotFound
                && final(store)@ == old(store)@,
        },
{
    let mut project = match store.get(project_id) {
        Some(project) => project.clone(),
        None => {
            return Err(ServiceError::NotFound);
        },
    };
    project.code = new_code;
    project.updated_at = now;
    store.put(project);
    Ok(String::from_str("Code updated successfully"))
}

fn one_error(text: &str) -> (errors: Vec<String>)
    ensures
        errors@.len() == 1,
        errors@[0]@ == text@,
{
    let mut errors: Vec<String> = Vec::new();
    errors.push(String::from_str(text));
    errors
}

fn compiled(output: &str) -> (res: CompileResult)
    ensures
        res@ == compile_passed(output@),
{
    let res = CompileResult {
        success: true,
        output: String::from_str(output),
        errors: Vec::new(),
        wasm: None,
        candid: None,
    };
    assert(res@.errors =~= compile_passed(output@).errors);
    res
}

fn not_compiled(output: &str, error: &str) -> (res: CompileResult)
    ensures
        res@ == compile_failed(output@, error@),
{
    let res = CompileResult {
        success: false,
        output: String::from_str(output),
        errors: one_error(error),
        wasm: None,
        candid: None,
    };
    assert(res@.errors =~= compile_failed(output@, error@).errors);
    res
}

/// A compilation that passed, with its message.
pub open spec fn compile_passed(output: Seq<char>) -> CompileModel {
    CompileModel { success: true, output, errors: Seq::empty(), wasm: None, candid: None }
}

/// A compilation that failed, with its message and its one error.
pub open spec fn compile_failed(output: Seq<char>, error: Seq<char>) -> CompileModel {
    CompileModel { success: false, output, errors: seq![error], wasm: None, candid: None }
}

/// What compiling `code` in `language` answers.
///
/// Motoko is left to the editor's own compiler. Rust passes when the code
/// has a `fn main` or an `#[update]`, JavaScript when it has an `export`.
/// No other language is known.
pub open spec fn compile_verdict(language: Seq<char>, code: Seq<char>) -> CompileModel {
    if language == "motoko"@ {
        compile_failed(
            "Motoko compilation should be handled by the frontend WebAssembly compiler"@,
            "Use frontend compilation for Motoko projects"@,
        )
    } else if language == "rust"@ {
        if has_substring(code, "fn main"@) || has_substring(code, "#[update]"@) {
            compile_passed("Rust compilation successful! No errors found."@)
        } else {
            compile_failed("Rust compilation failed!"@, "Missing main function or update handler"@)
        }
    } else if language == "javascript"@ {
        if has_substring(code, "export"@) {
            compile_passed("JavaScript validation successful!"@)
        } else {
            compile_failed("JavaScript validation failed!"@, "Missing export statements"@)
        }
    } else {
        compile_failed("Unsupported language"@, "Language not supported"@)
    }
}

/// Compiles `code` as a text in `language`.
pub fn compile_source(language: &str, code: &str) -> (res: CompileResult)
    ensures
        res@ == compile_verdict(language@, code@),
{
    if str_eq(language, "motoko") {
        not_compiled(
            "Motoko compilation should be handled by the frontend WebAssembly compiler",
            "Use frontend compilation for Motoko projects",
        )
    } else if str_eq(language, "rust") {
        if contains(code, "fn main") || contains(code, "#[update]") {
            compiled("Rust compilation successful! No errors found.")
        } else {
            not_compiled("Rust compilation failed!", "Missing main function or update handler")
        }
    } else if str_eq(language, "javascript") {
        if contains(code, "export") {
            compiled("JavaScript validation successful!")
        } else {
            not_compiled("JavaScript validation failed!", "Missing export statements")
        }
    } else {
        not_compiled("Unsupported language", "Language not supported")
    }
}

/// Compiles the project with the id `project_id`.
pub fn compile_project(store: &ProjectStore, project_id: &str) -> (res: Result<
    CompileResult,
    ServiceError,
>)
    ensures
        match res {
            Ok(result) => store@.contains_key(project_id@) && result@ == compile_verdict(
                store@[project_id@].language,
                store@[project_id@].code,
            ),
            Err(e) => !store@.contains_key(project_id@) && e == ServiceError::NotFound,
        },
{
    match store.get(project_id) {
        Some(project) => Ok(compile_source(project.language.as_str(), project.code.as_str())),
        None => Err(ServiceError::NotFound),
    }
}

/// The greeting that a project's `greet` gives to `name`.
pub open spec fn greeting(name: Seq<char>) -> Seq<char> {
    "Hello, "@ + name + "! Welcome to ICPad!"@
}

/// Whether tests can be run on code in `language`.
pub open spec fn can_be_tested(language: Seq<char>) -> bool {
    language == "rust"@ || language == "motoko"@ || language == "javascript"@
}

/// What testing `code` in `language` with `input` answers. The test passes
/// when the language is known and the code mentions `greet`.
pub open spec fn test_verdict(language: Seq<char>, code: Seq<char>, input: Seq<char>) -> TestModel {
    if !can_be_tested(language) {
        TestModel {
            success: false,
            output: "Test failed!"@,
            result: "Unsupported language for testing"@,
        }
    } else if has_substring(code, "greet"@) {
        TestModel { success: true, output: "Test passed!"@, result: greeting(input) }
    } else {
        TestModel {
            success: false,
            output: "Test failed!"@,
            result: "Test failed: No greet function found"@,
        }
    }
}

/// Writes the greeting for `name`.
pub fn greet(name: &str) -> (text: String)
    ensures
        text@ == greeting(name@),
{
    let mut text = String::from_str("Hello, ");
    text.append(name);
    text.append("! Welcome to ICPad!");
    text
}

/// Tests `code` as a text in `language`, with `input` as the name to greet.
pub fn test_source(language: &str, code: &str, input: &str) -> (res: TestResult)
    ensures
        res@ == test_verdict(language@, code@, input@),
{
    let known = str_eq(language, "rust") || str_eq(language, "motoko") || str_eq(
        language,
        "javascript",
    );
    if !known {
        TestResult {
            success: false,
            output: String::from_str("Test failed!"),
            result: String::from_str("Unsupported language for testing"),
        }
    } else if contains(code, "greet") {
        TestResult { success: true, output: String::from_str("Test passed!"), result: greet(input) }
    } else {
        TestResult {
            success: false,
            output: String::from_str("Test failed!"),
            result: String::from_str("Test failed: No greet function found"),
        }
    }
}

/// Tests the project with the id `project_id`.
pub fn test_project(store: &ProjectStore, project_id: &str, test_input: &str) -> (res: Result<
    TestResult,
    ServiceError,
>)
    ensures
        match res {
            Ok(result) => store@.contains_key(project_id@) && result@ == test_verdict(
                store@[project_id@].language,
                store@[project_id@].code,
                test_input@,
            ),
            Err(e) => !store@.contains_key(project_id@) && e == ServiceError::NotFound,
        },
{
    match store.get(project_id) {
        Some(project) => Ok(
            test_source(project.language.as_str(), project.code.as_str(), test_input),
        ),
        None => Err(ServiceError::NotFound),
    }
}

/// The id of the canister that a deployment at `now` makes up.
pub open spec fn canister_id_at(now: u64) -> Seq<char> {
    "canister_"@ + decimal(now as nat)
}

/// The address under which a canister is reached.
pub open spec fn canister_url(canister_id: Seq<char>) -> Seq<char> {
    "https://"@ + canister_id + ".ic0.app"@
}

/// A project after its deployment at `now`.
pub open spec fn deployed_project(project: ProjectModel, now: u64) -> ProjectModel {
    ProjectModel { deployed: true, canister_id: Some(canister_id_at(now)), ..project }
}

/// What the deployment of a project named `name` at `now` answers.
pub open spec fn deploy_verdict(name: Seq<char>, now: u64) -> DeployModel {
    DeployModel {
        success: true,
        canister_id: Some(canister_id_at(now)),
        url: Some(canister_url(canister_id_at(now))),
        output: "Successfully deployed "@ + name + " to Internet Computer"@,
    }
}

fn make_canister_id(now: u64) -> (id: String)
    ensures
        id@ == canister_id_at(now),
{
    let mut id = String::from_str("canister_");
    let digits = decimal_string(now);
    id.append(digits.as_str());
    id
}

fn make_canister_url(canister_id: &str) -> (url: String)
    ensures
        url@ == canister_url(canister_id@),
{
    let mut url = String::from_str("https://");
    url.append(canister_id);
    url.append(".ic0.app");
    url
}

fn mark_deployed(store: &mut ProjectStore, project_id: &str, canister_id: String) -> (name: Option<
    String,
>)
    ensures
        match name {
            Some(name) => old(store)@.contains_key(project_id@) && name@ == old(
                store,
            )@[project_id@].name && final(store)@ == old(store)@.insert(
                project_id@,
                ProjectModel {
                    deployed: true,
                    canister_id: Some(canister_id@),
                    ..old(store)@[project_id@]
                },
            ),
            None => !old(store)@.contains_key(project_id@) && final(store)@ == old(store)@,
        },
{
    let mut project = match store.get(project_id) {
        Some(project) => project.clone(),
        None => {
            return None;
        },
    };
    let name = project.name.clone();
    project.deployed = true;
    project.canister_id = Some(canister_id);
    store.put(project);
    Some(name)
}

/// Deploys the project with the id `project_id`: makes up a canister for it
/// and notes it in the project.
pub fn deploy_project(store: &mut ProjectStore, project_id: &str, now: u64) -> (res: Result<
    DeployResult,
    ServiceError,
>)
    ensures
        match res {
            Ok(result) => old(store)@.contains_key(project_id@) && result@ == deploy_verdict(
                old(store)@[project_id@].name,
                now,
            ) && final(store)@ == old(store)@.insert(
                project_id@,
                deployed_project(old(store)@[project_id@], now),
            ),
            Err(e) => !old(store)@.contains_key(project_id@) && e == ServiceError::NotFound
                && final(store)@ == old(store)@,
        },
{
    let canister_id = make_canister_id(now);
    let name = match mark_deployed(store, project_id, canister_id.clone()) {
        Some(name) => name,
        None => {
            return Err(ServiceError::NotFound);
        },
    };
    let url = make_canister_url(canister_id.as_str());
    let mut output = String::from_str("Successfully deployed ");
    output.append(name.as_str());
    output.append(" to Internet Computer");
    Ok(DeployResult { success: true, canister_id: Some(canister_id), url: Some(url), output })
}

/// Answers that the service can be reached.
pub fn check_connection() -> (res: Result<String, ServiceError>)
    ensures
        res matches Ok(text) && text@ == "true"@,
{
    Ok(String::from_str("true"))
}

/// What a deployment with a compiled module answers.
#[derive(Clone, Debug, PartialEq, Eq)]
pub struct WasmDeployResult {
    pub success: bool,
    pub canister_id: String,
    pub url: String,
    pub wasm_size: usize,
    pub candid: String,
    pub output: String,
}

/// A deployment with a compiled module as plain mathematical values.
pub struct WasmDeployModel {
    pub success: bool,
    pub canister_id: Seq<char>,
    pub url: Seq<char>,
    pub wasm_size: nat,
    pub candid: Seq<char>,
    pub output: Seq<char>,
}

impl View for WasmDeployResult {
    type V = WasmDeployModel;

    open spec fn view(&self) -> WasmDeployModel {
        WasmDeployModel {
            success: self.success,
            canister_id: self.canister_id@,
            url: self.url@,
            wasm_size: self.wasm_size as nat,
            candid: self.candid@,
            output: self.output@,
        }
    }
}

/// What the deployment of a module of `wasm_size` bytes for a project named
/// `name` at `now` answers.
pub open spec fn wasm_deploy_verdict(
    name: Seq<char>,
    wasm_size: nat,
    candid: Seq<char>,
    now: u64,
) -> WasmDeployModel {
    WasmDeployModel {
        success: true,
        canister_id: canister_id_at(now),
        url: canister_url(canister_id_at(now)),
        wasm_size,
        candid,
        output: "Successfully deployed "@ + name + " to Internet Computer with "@ + decimal(
            wasm_size,
        ) + " bytes of WASM"@,
    }
}

/// Deploys the project with the id `project_id` together with its compiled
/// module and its interface description.
pub fn deploy_project_with_wasm(
    store: &mut ProjectStore,
    project_id: &str,
    wasm: Vec<u8>,
    candid: String,
    now: u64,
) -> (res: Result<WasmDeployResult, ServiceError>)
    ensures
        match res {
            Ok(result) => old(store)@.contains_key(project_id@) && result@ == wasm_deploy_verdict(
                old(store)@[project_id@].name,
                wasm@.len(),
                candid@,
                now,
            ) && final(store)@ == old(store)@.insert(
                project_id@,
                deployed_project(old(store)@[project_id@], now),
            ),
            Err(e) => !old(store)@.contains_key(project_id@) && e == ServiceError::NotFound
                && final(store)@ == old(store)@,
        },
{
    let canister_id = make_canister_id(now);
    let name = match mark_deployed(store, project_id, canister_id.clone()) {
        Some(name) => name,
        None => {
            return Err(ServiceError::NotFound);
        },
    };
    let url = make_canister_url(canister_id.as_str());
    let wasm_size: usize = wasm.len();
    let size = decimal_string(wasm_size as u64);
    let mut output = String::from_str("Successfully deployed ");
    output.append(name.as_str());
    output.append(" to Internet Computer with ");
    output.append(size.as_str());
    output.append(" bytes of WASM");
    Ok(WasmDeployResult { success: true, canister_id, url, wasm_size, candid, output })
}

/// What a call of a function of a deployed project answers.
#[derive(Clone, Debug, PartialEq, Eq)]
pub struct CallResult {
    pub success: bool,
    pub result: String,
    pub error: Option<String>,
}

/// The answer to a call as plain mathematical values.
pub struct CallModel {
    pub success: bool,
    pub result: Seq<char>,
    pub error: Option<Seq<char>>,
}

impl View for CallResult {
    type V = CallModel;

    open spec fn view(&self) -> CallModel {
        CallModel { success: self.success, result: self.result@, error: text_of(self.error) }
    }
}

/// What the function `function_name` answers to `args`. Three functions are
/// known; `greet` greets its first argument, or the world where it has none.
pub open spec fn call_verdict(function_name: Seq<char>, args: Seq<Seq<char>>) -> CallModel {
    if function_name == "getMessage"@ {
        CallModel { success: true, result: "Hello from ICPad!"@, error: None }
    } else if function_name == "greet"@ {
        CallModel {
            success: true,
            result: greeting(
                if args.len() > 0 {
                    args[0]
                } else {
                    "World"@
                },
            ),
            error: None,
        }
    } else if function_name == "whoami"@ {
        CallModel { success: true, result: "Principal from actor"@, error: None }
    } else {
        CallModel {
            success: false,
            result: Seq::empty(),
            error: Some("Function '"@ + function_name + "' not found"@),
        }
    }
}

/// Answers a call of `function_name` with `args`.
pub fn answer_call(function_name: &str, args: &Vec<String>) -> (res: CallResult)
    ensures
        res@ == call_verdict(function_name@, Seq::new(args@.len(), |i: int| args@[i]@)),
{
    if str_eq(function_name, "getMessage") {
        CallResult { success: true, result: String::from_str("Hello from ICPad!"), error: None }
    } else if str_eq(function_name, "greet") {
        let result = if args.len() > 0 {
            greet(args[0].as_str())
        } else {
            greet("World")
        };
        CallResult { success: true, result, error: None }
    } else if str_eq(function_name, "whoami") {
        CallResult { success: true, result: String::from_str("Principal from actor"), error: None }
    } else {
        let mut error = String::from_str("Function '");
        error.append(function_name);
        error.append("' not found");
        CallResult { success: false, result: String::new(), error: Some(error) }
    }
}

/// Calls a function of the project with the id `project_id`. The project
/// has to be there and to be deployed.
pub fn call_function(
    store: &ProjectStore,
    project_id: &str,
    function_name: &str,
    args: &Vec<String>,
) -> (res: Result<CallResult, ServiceError>)
    ensures
        match res {
            Ok(result) => store@.contains_key(project_id@) && store@[project_id@].deployed
                && result@ == call_verdict(
                function_name@,
                Seq::new(args@.len(), |i: int| args@[i]@),
            ),
            Err(e) => if store@.contains_key(project_id@) {
                !store@[project_id@].deployed && e == ServiceError::NotDeployed
            } else {
                e == ServiceError::NotFound
            },
        },
{
    match store.get(project_id) {
        None => Err(ServiceError::NotFound),
        Some(project) => {
            if !project.deployed {
                Err(ServiceError::NotDeployed)
            } else {
                Ok(answer_call(function_name, args))
            }
        },
    }
}

} // verus!
