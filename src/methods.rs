use vstd::prelude::*;
use crate::error::{resolution_error, ContractFault, Error};

verus! {

/// The entry points of a compiled method script. Each call may fail with the
/// engine's report; nothing is promised of what a script computes.
pub trait MethodScript {
    /// The weight of a card with the given metadata and difficulty: how likely it
    /// is to be drawn next, relative to the other cards, as an integer in a unit
    /// of the method's choosing. Zero takes the card out of the pass.
    fn weight(&self, method_data: &String, difficult: bool) -> Result<u64, String>;

    /// The new metadata and difficulty of a card after the given response.
    fn adjust(&self, response: &String, method_data: &String, difficult: bool) -> Result<
        (String, bool),
        String,
    >;

    /// The metadata of a card that the method has not seen yet.
    fn default_metadata(&self) -> Result<String, String>;
}

/// Whether `r` is a valid response vocabulary: at least one token, no token twice.
pub open spec fn valid_responses(r: Seq<String>) -> bool {
    &&& r.len() >= 1
    &&& forall|i: int, j: int| 0 <= i < j < r.len() ==> r[i]@ != r[j]@
}

/// What a script's `RESPONSES` constant was found to be.
pub enum ResponsesConstant {
    /// The script defines no such constant.
    Missing,
    /// The constant is not a list of strings.
    NotStrings,
    /// The constant is this list of strings, in order.
    Strings(Vec<String>),
}

/// The fault of a `RESPONSES` constant, if it has one.
pub open spec fn responses_fault(c: ResponsesConstant) -> Option<ContractFault> {
    match c {
        ResponsesConstant::Missing => Some(ContractFault::MissingResponses),
        ResponsesConstant::NotStrings => Some(ContractFault::ResponsesNotStrings),
        ResponsesConstant::Strings(v) => if v@.len() == 0 {
            Some(ContractFault::NoResponses)
        } else if !valid_responses(v@) {
            Some(ContractFault::DuplicateResponse)
        } else {
            None
        },
    }
}

/// A learning method: its name, its ordered response vocabulary and its script.
pub struct Method<S> {
    /// The name under which the method's metadata is recorded in a set.
    pub name: String,
    /// The responses a user may give, in display order.
    pub responses: Vec<String>,
    /// The compiled script behind the method.
    pub script: S,
}

impl<S: MethodScript> Method<S> {
    /// Whether the method satisfies the method contract.
    pub open spec fn wf(&self) -> bool {
        valid_responses(self.responses@)
    }

    /// Binds a compiled script to a method, checking its `RESPONSES` constant.
    pub fn from_script(name: String, responses: ResponsesConstant, script: S) -> (r: Result<
        Self,
        Error,
    >)
        ensures
            responses_fault(responses) is None <==> r is Ok,
            responses_fault(responses) matches Some(f) ==> r matches Err(Error::ContractViolation(
                g,
            )) && g == f,
            r matches Ok(m) ==> m.wf() && m.name@ == name@ && (responses matches ResponsesConstant::Strings(v) && m.responses@ == v@) && m.script == script,
    {
        match responses {
            ResponsesConstant::Missing => Err(Error::ContractViolation(ContractFault::MissingResponses)),
            ResponsesConstant::NotStrings => Err(
                Error::ContractViolation(ContractFault::ResponsesNotStrings),
            ),
            ResponsesConstant::Strings(v) => {
                if v.len() == 0 {
                    return Err(Error::ContractViolation(ContractFault::NoResponses));
                }
                if !all_distinct(&v) {
                    return Err(Error::ContractViolation(ContractFault::DuplicateResponse));
                }
                Ok(Method { name, responses: v, script })
            },
        }
    }
}

/// Whether `token` is one of `tokens`.
pub fn contains_token(tokens: &Vec<String>, token: &String) -> (r: bool)
    ensures
        r <==> exists|i: int| 0 <= i < tokens@.len() && tokens@[i]@ == token@,
{
    let mut i: usize = 0;
    while i < tokens.len()
        invariant
            i <= tokens@.len(),
            forall|k: int| 0 <= k < i ==> tokens@[k]@ != token@,
        decreases tokens@.len() - i,
    {
        if tokens[i] == *token {
            return true;
        }
        i = i + 1;
    }
    false
}

/// Whether no token occurs twice.
fn all_distinct(tokens: &Vec<String>) -> (r: bool)
    ensures
        r <==> forall|i: int, j: int|
            0 <= i < j < tokens@.len() ==> tokens@[i]@ != tokens@[j]@,
{
    let n = tokens.len();
    let mut j: usize = 0;
    while j < n
        invariant
            j <= n == tokens@.len(),
            forall|a: int, b: int| 0 <= a < b < j ==> tokens@[a]@ != tokens@[b]@,
        decreases n - j,
    {
        let mut i: usize = 0;
        while i < j
            invariant
                i <= j < n == tokens@.len(),
                forall|a: int| 0 <= a < i ==> tokens@[a]@ != tokens@[j as int]@,
            decreases j - i,
        {
            if tokens[i] == tokens[j] {
                return false;
            }
            i = i + 1;
        }
        j = j + 1;
    }
    true
}

/// The scripting engine: compiles method scripts, reads their constants, and
/// runs adapter scripts.
pub trait ScriptHost {
    /// The compiled form of a method script.
    type Script: MethodScript;

    /// Compiles the given script text, or reports why it does not compile.
    fn compile(&self, text: &String) -> Result<Self::Script, String>;

    /// What the compiled script's constant `RESPONSES` is.
    fn responses(&self, script: &Self::Script) -> ResponsesConstant;

    /// Runs an adapter script over the source text (bound to the constant
    /// `SOURCE`). Each element of the list it evaluates to is handed back as a list
    /// of strings, or as `None` where it is not one.
    fn run_adapter(&self, script: &String, source: String) -> Result<Vec<Option<Vec<String>>>, String>;
}

/// The scripts that ship with the program, by name, constructed once at startup
/// and handed to whatever needs a lookup.
pub struct BundledScripts {
    /// Pairs of a name and a script text.
    pub entries: Vec<(String, String)>,
}

/// Whether some entry is called `name`.
pub open spec fn has_entry(entries: Seq<(String, String)>, name: Seq<char>) -> bool {
    exists|i: int| 0 <= i < entries.len() && entries[i].0@ == name
}

impl BundledScripts {
    /// The script of the first entry called `name`, if there is one.
    pub fn lookup(&self, name: &String) -> (r: Option<&String>)
        ensures
            r is Some <==> has_entry(self.entries@, name@),
            r matches Some(t) ==> exists|i: int|
                0 <= i < self.entries@.len() && self.entries@[i].0@ == name@
                    && self.entries@[i].1 == *t,
    {
        let mut i: usize = 0;
        while i < self.entries.len()
            invariant
                i <= self.entries@.len(),
                forall|k: int| 0 <= k < i ==> self.entries@[k].0@ != name@,
            decreases self.entries@.len() - i,
        {
            if self.entries[i].0 == *name {
                return Some(&self.entries[i].1);
            }
            i = i + 1;
        }
        None
    }
}

/// A method that has not been compiled yet.
pub enum RawMethod {
    /// A bundled method, by name.
    Inbuilt(String),
    /// A method defined by a user's script.
    Custom {
        /// The name of the method, which should not collide with that of any other
        /// custom method (prefixing it with the author's handle helps).
        name: String,
        /// The text of the script.
        body: String,
    },
}

impl RawMethod {
    /// The name under which the method records its metadata.
    pub open spec fn name_spec(&self) -> Seq<char> {
        match self {
            RawMethod::Inbuilt(n) => n@,
            RawMethod::Custom { name, .. } => name@,
        }
    }

    /// The name under which the method records its metadata.
    pub fn name(&self) -> (r: &String)
        ensures
            r@ == self.name_spec(),
    {
        match self {
            RawMethod::Inbuilt(n) => n,
            RawMethod::Custom { name, .. } => name,
        }
    }

    /// Whether the given name (or script) names a bundled method.
    pub fn is_inbuilt(method: &str, bundled: &BundledScripts) -> (r: bool)
        ensures
            r == has_entry(bundled.entries@, method@),
    {
        let name = method.to_owned();
        bundled.lookup(&name).is_some()
    }

    /// Compiles this method into a full [`Method`].
    ///
    /// A bundled method that is not in the table fails with `UnknownBundledMethod`;
    /// one whose script does not compile fails with `BundledScriptBroken`, a defect
    /// of the program. A custom script that does not compile fails with
    /// `CompileFailed`. A compiled script whose `RESPONSES` constant is missing or
    /// malformed fails with `ContractViolation`.
    pub fn into_method<C: ScriptHost>(self, bundled: &BundledScripts, compiler: &C) -> (r:
        Result<Method<C::Script>, Error>)
        ensures
            self is Inbuilt && !has_entry(bundled.entries@, self.name_spec()) ==> (r matches Err(
                Error::UnknownBundledMethod(m)) && m@ == self.name_spec()),
            r matches Err(Error::UnknownBundledMethod(_)) ==> self is Inbuilt && !has_entry(
                bundled.entries@,
                self.name_spec(),
            ),
            r matches Err(e) ==> resolution_error(e),
            r matches Err(Error::BundledScriptBroken(_)) ==> self is Inbuilt,
            r matches Err(Error::CompileFailed(_)) ==> self is Custom,
            r matches Ok(m) ==> m.wf() && m.name@ == self.name_spec(),
    {
        match self {
            RawMethod::Inbuilt(name) => {
                let text = match bundled.lookup(&name) {
                    Some(t) => t,
                    None => return Err(Error::UnknownBundledMethod(name)),
                };
                match compiler.compile(text) {
                    Ok(script) => {
                        let responses = compiler.responses(&script);
                        Method::from_script(name, responses, script)
                    },
                    Err(report) => Err(Error::BundledScriptBroken(report)),
                }
            },
            RawMethod::Custom { name, body } => {
                match compiler.compile(&body) {
                    Ok(script) => {
                        let responses = compiler.responses(&script);
                        Method::from_script(name, responses, script)
                    },
                    Err(report) => Err(Error::CompileFailed(report)),
                }
            },
        }
    }
}

} // verus!
