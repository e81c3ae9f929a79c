//! Validated workload definitions.

use vstd::prelude::*;
use std::collections::BTreeSet;

use crate::ids::{ProcessDefinitionHash, WorkloadId};
use crate::ordered::TextMap;
use crate::restart::ExecutionRestartPolicy;
use crate::text::{holds_char, upper_form, uppercase};
use crate::time::Duration;

verus! {

#[derive(Clone, Copy, Debug, PartialEq, Eq, Structural, Hash, PartialOrd, Ord)]
pub enum WorkloadKind {
    Service,
    Job,
}

/// One workload as its file defines it.
#[derive(Debug, PartialEq, Eq)]
pub struct WorkloadDefinition {
    pub id: WorkloadId,
    pub kind: WorkloadKind,
    pub process: ProcessDefinition,
    pub process_hash: ProcessDefinitionHash,
    pub success_exit_codes: BTreeSet<u32>,
    pub restart: ExecutionRestartPolicy,
    pub stop: StopDefinition,
    pub logging: LoggingPolicy,
}

impl WorkloadDefinition {
    pub fn id(&self) -> (id: &WorkloadId)
        ensures
            *id == self.id,
    {
        &self.id
    }

    pub fn kind(&self) -> (kind: WorkloadKind)
        ensures
            kind == self.kind,
    {
        self.kind
    }

    pub fn process(&self) -> (process: &ProcessDefinition)
        ensures
            *process == self.process,
    {
        &self.process
    }

    pub fn process_hash(&self) -> (hash: ProcessDefinitionHash)
        ensures
            hash == self.process_hash,
    {
        self.process_hash
    }

    pub fn success_exit_codes(&self) -> (codes: &BTreeSet<u32>)
        ensures
            *codes == self.success_exit_codes,
    {
        &self.success_exit_codes
    }

    pub fn restart(&self) -> (restart: ExecutionRestartPolicy)
        ensures
            restart == self.restart,
    {
        self.restart
    }

    pub fn stop(&self) -> (stop: &StopDefinition)
        ensures
            *stop == self.stop,
    {
        &self.stop
    }

    pub fn logging(&self) -> (logging: LoggingPolicy)
        ensures
            logging == self.logging,
    {
        self.logging
    }
}

/// The texts of some strings.
pub open spec fn texts(strings: Seq<String>) -> Seq<Seq<char>> {
    strings.map_values(|text: String| text@)
}

/// What a process is started from.
#[derive(Debug, PartialEq, Eq)]
pub struct ProcessDefinition {
    pub executable: String,
    pub arguments: Vec<String>,
    pub working_directory: String,
    pub environment: EnvironmentOverlay,
}

/// A process definition as mathematical text, with the environment in the order of its names.
#[verifier::ext_equal]
pub struct ProcessView {
    pub executable: Seq<char>,
    pub arguments: Seq<Seq<char>>,
    pub working_directory: Seq<char>,
    pub set: Seq<(Seq<char>, Seq<char>)>,
    pub unset: Seq<Seq<char>>,
}

impl ProcessDefinition {
    pub open spec fn view(&self) -> ProcessView {
        ProcessView {
            executable: self.executable@,
            arguments: texts(self.arguments@),
            working_directory: self.working_directory@,
            set: self.environment.set_texts(),
            unset: self.environment.unset_names(),
        }
    }

    pub fn executable(&self) -> (executable: &str)
        ensures
            executable@ == self.executable@,
    {
        self.executable.as_str()
    }

    pub fn arguments(&self) -> (arguments: &Vec<String>)
        ensures
            *arguments == self.arguments,
    {
        &self.arguments
    }

    pub fn working_directory(&self) -> (directory: &str)
        ensures
            directory@ == self.working_directory@,
    {
        self.working_directory.as_str()
    }

    pub fn environment(&self) -> (environment: &EnvironmentOverlay)
        ensures
            *environment == self.environment,
    {
        &self.environment
    }
}

/// The name of an environment variable, in upper case. The view is its text.
#[derive(Debug, PartialEq, Eq, Hash, PartialOrd, Ord)]
pub struct EnvironmentName {
    text: String,
}

#[derive(Clone, Copy, Debug, PartialEq, Eq, Structural)]
pub enum InvalidEnvironmentName {
    Empty,
    ContainsEquals,
    ContainsNull,
}

impl InvalidEnvironmentName {
    pub open spec fn text(self) -> Seq<char> {
        match self {
            InvalidEnvironmentName::Empty => "environment variable name is empty"@,
            InvalidEnvironmentName::ContainsEquals => "environment variable name contains '='"@,
            InvalidEnvironmentName::ContainsNull =>
                "environment variable name contains a null character"@,
        }
    }

    pub fn message(&self) -> (message: String)
        ensures
            message@ == self.text(),
    {
        match self {
            InvalidEnvironmentName::Empty => "environment variable name is empty".to_owned(),
            InvalidEnvironmentName::ContainsEquals =>
                "environment variable name contains '='".to_owned(),
            InvalidEnvironmentName::ContainsNull =>
                "environment variable name contains a null character".to_owned(),
        }
    }
}

/// Why a text cannot name an environment variable, if it cannot.
pub open spec fn name_refusal(text: Seq<char>) -> Option<InvalidEnvironmentName> {
    if text.len() == 0 {
        Some(InvalidEnvironmentName::Empty)
    } else if text.contains('=') {
        Some(InvalidEnvironmentName::ContainsEquals)
    } else if text.contains('\0') {
        Some(InvalidEnvironmentName::ContainsNull)
    } else {
        None
    }
}

impl EnvironmentName {
    pub closed spec fn view(&self) -> Seq<char> {
        self.text@
    }

    /// The text could itself name a variable.
    #[verifier::type_invariant]
    closed spec fn names_a_variable(self) -> bool {
        name_refusal(self.text@) is None
    }

    /// Reads the name of a variable. Its upper-case form can name a variable where it can.
    pub fn parse(value: &str) -> (result: Result<EnvironmentName, InvalidEnvironmentName>)
        ensures
            match result {
                Ok(name) => name_refusal(value@) is None && name@ == upper_form(value@)
                    && name_refusal(name@) is None,
                Err(error) => name_refusal(value@) == Some(error),
            },
    {
        if value.is_empty() {
            return Err(InvalidEnvironmentName::Empty);
        }
        if holds_char(value, '=') {
            return Err(InvalidEnvironmentName::ContainsEquals);
        }
        if holds_char(value, '\0') {
            return Err(InvalidEnvironmentName::ContainsNull);
        }
        Ok(EnvironmentName { text: uppercase(value) })
    }

    /// The text of the name. It is not empty and holds neither an equals sign nor a null character.
    pub fn as_str(&self) -> (text: &str)
        ensures
            text@ == self@,
            text@.len() > 0,
            !text@.contains('='),
            !text@.contains('\0'),
    {
        proof {
            use_type_invariant(self);
        }
        self.text.as_str()
    }

    pub(crate) fn into_text(self) -> (text: String)
        ensures
            text@ == self@,
    {
        self.text
    }
}

/// What a process finds changed in its environment: variables that are set, and variables
/// that are taken away, both by their upper-case names.
#[derive(Debug, PartialEq, Eq)]
pub struct EnvironmentOverlay {
    pub set: TextMap<String>,
    pub unset: TextMap<()>,
}

impl EnvironmentOverlay {
    /// The variables that are set, in the order of their names.
    pub open spec fn set_texts(&self) -> Seq<(Seq<char>, Seq<char>)> {
        self.set@.map_values(|entry: (Seq<char>, String)| (entry.0, entry.1@))
    }

    /// The names of the variables that are taken away, in order.
    pub open spec fn unset_names(&self) -> Seq<Seq<char>> {
        self.unset@.map_values(|entry: (Seq<char>, ())| entry.0)
    }

    /// No variable is both set and taken away.
    pub open spec fn consistent(&self) -> bool {
        forall|name: Seq<char>|
            !(#[trigger] self.set.map().contains_key(name) && self.unset.map().contains_key(name))
    }

    pub fn set(&self) -> (set: &TextMap<String>)
        ensures
            *set == self.set,
    {
        &self.set
    }

    pub fn unset(&self) -> (unset: &TextMap<()>)
        ensures
            *unset == self.unset,
    {
        &self.unset
    }
}

impl Default for EnvironmentOverlay {
    /// Nothing is changed.
    fn default() -> (overlay: EnvironmentOverlay)
        ensures
            overlay.set@.len() == 0,
            overlay.unset@.len() == 0,
    {
        EnvironmentOverlay { set: TextMap::new(), unset: TextMap::new() }
    }
}

/// How a workload is stopped.
#[derive(Debug, PartialEq, Eq)]
pub enum StopDefinition {
    CtrlBreak { timeout: Duration },
    Command { timeout: Duration, command: StopCommand },
    Kill,
}

#[derive(Debug, PartialEq, Eq)]
pub struct StopCommand {
    pub executable: String,
    pub arguments: Vec<String>,
}

impl StopCommand {
    pub fn executable(&self) -> (executable: &str)
        ensures
            executable@ == self.executable@,
    {
        self.executable.as_str()
    }

    pub fn arguments(&self) -> (arguments: &Vec<String>)
        ensures
            *arguments == self.arguments,
    {
        &self.arguments
    }
}

/// What is kept of the output of a workload.
#[derive(Clone, Copy, Debug, PartialEq, Eq, Structural)]
pub enum LoggingPolicy {
    Disabled,
    Capture {
        segment_size: u64,
        segment_age: Duration,
        retention_size: RetentionLimit,
        retention_age: RetentionDuration,
    },
}

#[derive(Clone, Copy, Debug, PartialEq, Eq, Structural)]
pub enum RetentionLimit {
    Limited(u64),
    Unlimited,
}

#[derive(Clone, Copy, Debug, PartialEq, Eq, Structural)]
pub enum RetentionDuration {
    Limited(Duration),
    Unlimited,
}

} // verus!
