use vstd::prelude::*;
use vstd::string::*;

use crate::common::EnvironmentInfo;
use crate::util::owned;

verus! {

broadcast use vstd::string::group_string_axioms;

/// Types of projects that can be loaded
#[derive(Debug, Clone)]
pub enum ProjectType {
    // Project on NetsBlox server
    RemoteProject(String),
    // Project in default_scenarios file
    LocalProject(String),
    // Project as XML string
    ProjectXML(String),
}

/// A project to load, by the text that locates it.
pub enum ProjectSource {
    Remote(Seq<char>),
    Local(Seq<char>),
    Xml(Seq<char>),
}

impl ProjectType {
    pub open spec fn spec_source(&self) -> ProjectSource {
        match self {
            ProjectType::RemoteProject(s) => ProjectSource::Remote(s@),
            ProjectType::LocalProject(s) => ProjectSource::Local(s@),
            ProjectType::ProjectXML(s) => ProjectSource::Xml(s@),
        }
    }
}

/// Structure of definition provided by local scenarios file
#[derive(Debug, Clone)]
pub struct LocalScenarioDef {
    pub name: String,
    pub path: String,
    pub creator: Option<String>,
    pub description: Option<String>,
    pub host: String,
}

impl LocalScenarioDef {
    /// The environment listing of a scenario: its name as id and name, and its
    /// description or an empty one.
    pub fn to_environment_info(self) -> (info: EnvironmentInfo)
        ensures
            info.id@ == self.name@,
            info.name@ == self.name@,
            info.description@ == match self.description {
                Some(d) => d@,
                None => Seq::<char>::empty(),
            },
    {
        EnvironmentInfo {
            id: self.name.clone(),
            name: self.name,
            description: match self.description {
                Some(d) => d,
                None => String::new(),
            },
        }
    }
}

/// Characters with the Unicode `White_Space` property, which `char::is_whitespace` tests.
pub open spec fn is_unicode_whitespace(c: char) -> bool {
    ||| ('\t' <= c && c <= '\r')
    ||| c == ' '
    ||| c == '\u{85}'
    ||| c == '\u{A0}'
    ||| c == '\u{1680}'
    ||| ('\u{2000}' <= c && c <= '\u{200A}')
    ||| c == '\u{2028}'
    ||| c == '\u{2029}'
    ||| c == '\u{202F}'
    ||| c == '\u{205F}'
    ||| c == '\u{3000}'
}

/// Text that is empty once surrounding whitespace is trimmed.
pub open spec fn is_blank(s: Seq<char>) -> bool {
    forall|i: int| 0 <= i < s.len() ==> is_unicode_whitespace(#[trigger] s[i])
}

fn char_is_whitespace(c: char) -> (r: bool)
    ensures
        r == is_unicode_whitespace(c),
{
    ('\t' <= c && c <= '\r') || c == ' ' || c == '\u{85}' || c == '\u{A0}' || c == '\u{1680}' || (
    '\u{2000}' <= c && c <= '\u{200A}') || c == '\u{2028}' || c == '\u{2029}' || c == '\u{202F}'
        || c == '\u{205F}' || c == '\u{3000}'
}

/// Whether the text is empty once trimmed.
pub fn blank(s: &str) -> (r: bool)
    ensures
        r == is_blank(s@),
{
    let mut all = true;
    for c in it: s.chars()
        invariant
            it.seq() == s@,
            all == (forall|i: int|
                0 <= i < it.index() ==> is_unicode_whitespace(#[trigger] it.seq()[i])),
    {
        if !char_is_whitespace(c) {
            all = false;
        }
    }
    all
}

/// Whether the text holds the character.
pub fn contains_char(s: &str, target: char) -> (r: bool)
    ensures
        r == s@.contains(target),
{
    let mut found = false;
    for c in it: s.chars()
        invariant
            it.seq() == s@,
            found == (exists|i: int| 0 <= i < it.index() && #[trigger] it.seq()[i] == target),
    {
        if c == target {
            found = true;
        }
    }
    found
}

/// The lower-case form of a text, as Rust's `str::to_lowercase` gives it.
pub uninterp spec fn spec_to_lowercase(s: Seq<char>) -> Seq<char>;

/// `str::to_lowercase`: the text with every character mapped to its Unicode
/// lower-case form. Its result depends on the text alone; the mapping is named
/// here, not written out.
#[verifier::external_body]
fn to_lowercase(s: &str) -> (r: String)
    ensures
        r@ == spec_to_lowercase(s@),
{
    s.to_lowercase()
}

/// The scenario filed under a key, if any: the first entry whose key is `key`.
pub open spec fn scenario_lookup(scenarios: Seq<(String, LocalScenarioDef)>, key: Seq<char>) -> Option<
    LocalScenarioDef,
>
    decreases scenarios.len(),
{
    if scenarios.len() == 0 {
        None
    } else if scenarios[0].0@ == key {
        Some(scenarios[0].1)
    } else {
        scenario_lookup(scenarios.drop_first(), key)
    }
}

fn find_scenario(scenarios: &Vec<(String, LocalScenarioDef)>, key: &String) -> (r: Option<usize>)
    ensures
        match r {
            Some(i) => i < scenarios.len() && scenario_lookup(scenarios@, key@) == Some(
                scenarios@[i as int].1,
            ),
            None => scenario_lookup(scenarios@, key@) is None,
        },
{
    let mut i: usize = 0;
    assert(scenarios@.skip(0) =~= scenarios@);
    while i < scenarios.len()
        invariant
            i <= scenarios.len(),
            scenario_lookup(scenarios@, key@) == scenario_lookup(scenarios@.skip(i as int), key@),
        decreases scenarios.len() - i,
    {
        assert(scenarios@.skip(i as int).drop_first() =~= scenarios@.skip(i + 1));
        if scenarios[i].0 == *key {
            return Some(i);
        }
        i += 1;
    }
    None
}

/// Which project an environment request loads. A blank or missing name gives
/// the default project. A name with a `/` is a NetsBlox project id. Any other
/// name is looked up, in lower case, among the local scenarios: a scenario
/// hosted `local` is read from its path, any other is fetched from its path
/// on NetsBlox; an unknown name gives the default project.
pub open spec fn spec_select_project(
    environment: Option<String>,
    scenarios: Seq<(String, LocalScenarioDef)>,
    default_project: Seq<char>,
) -> ProjectSource {
    match environment {
        Some(env) => if is_blank(env@) {
            ProjectSource::Xml(default_project)
        } else if env@.contains('/') {
            ProjectSource::Remote(env@)
        } else {
            match scenario_lookup(scenarios, spec_to_lowercase(env@)) {
                Some(def) => if def.host@ == "local"@ {
                    ProjectSource::Local(def.path@)
                } else {
                    ProjectSource::Remote(def.path@)
                },
                None => ProjectSource::Xml(default_project),
            }
        },
        None => ProjectSource::Xml(default_project),
    }
}

/// Decide which project a room's environment name loads.
pub fn select_project(
    environment: Option<String>,
    scenarios: &Vec<(String, LocalScenarioDef)>,
    default_project: &String,
) -> (r: ProjectType)
    ensures
        r.spec_source() == spec_select_project(environment, scenarios@, default_project@),
{
    let env = match environment {
        Some(env) => env,
        None => {
            return ProjectType::ProjectXML(default_project.clone());
        },
    };
    if blank(env.as_str()) {
        return ProjectType::ProjectXML(default_project.clone());
    }
    if contains_char(env.as_str(), '/') {
        // Assume it's a project ID
        return ProjectType::RemoteProject(env);
    }
    let key = to_lowercase(env.as_str());
    match find_scenario(scenarios, &key) {
        Some(i) => {
            let scenario = &scenarios[i].1;
            if scenario.host == owned("local") {
                ProjectType::LocalProject(scenario.path.clone())
            } else {
                ProjectType::RemoteProject(scenario.path.clone())
            }
        },
        None => ProjectType::ProjectXML(default_project.clone()),
    }
}

/// What to do after an attempt to load the chosen project.
#[derive(Debug)]
pub enum LoadStep {
    /// Try to load the same project again
    Retry,
    /// The room loads this project XML
    Loaded(String),
}

/// Decide what follows an attempt to load a room's project, given how many
/// attempts failed before it: a loaded project is used; a first failure is
/// retried once; a second failure falls back to the default project.
pub fn after_load_attempt(failures_before: u32, attempt: Result<String, String>, default_project: &String) -> (step:
    LoadStep)
    ensures
        match attempt {
            Ok(xml) => step == LoadStep::Loaded(xml),
            Err(_) => if failures_before == 0 {
                step is Retry
            } else {
                step == LoadStep::Loaded(*default_project)
            },
        },
{
    match attempt {
        Ok(xml) => LoadStep::Loaded(xml),
        Err(_) => {
            if failures_before == 0 {
                LoadStep::Retry
            } else {
                LoadStep::Loaded(default_project.clone())
            }
        },
    }
}

} // verus!
