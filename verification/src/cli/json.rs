//! What the client prints for programs.

use vstd::prelude::*;
use vstd::string::*;

use crate::control::Diagnostic;
use crate::host::state::{HostStatus, StatusView};
use crate::log_journal::{LogView, ReadLogsResponse, lossy_text, read_lossy};
use crate::manager::model::{Execution, ExecutionFacts, Workload, WorkloadView};
use crate::versions::{InstalledVersion, VersionView};

verus! {

/// The value of a member.
#[derive(Debug)]
pub enum JsonValue {
    Null,
    Flag(bool),
    Natural(u64),
    Integer(i64),
    Text(String),
}

#[verifier::ext_equal]
pub enum ValueView {
    Null,
    Flag(bool),
    Natural(u64),
    Integer(i64),
    Text(Seq<char>),
}

impl JsonValue {
    pub open spec fn view(&self) -> ValueView {
        match *self {
            JsonValue::Null => ValueView::Null,
            JsonValue::Flag(flag) => ValueView::Flag(flag),
            JsonValue::Natural(number) => ValueView::Natural(number),
            JsonValue::Integer(number) => ValueView::Integer(number),
            JsonValue::Text(text) => ValueView::Text(text@),
        }
    }
}

/// A member of an object.
#[derive(Debug)]
pub struct Member {
    pub name: String,
    pub value: JsonValue,
}

/// Members by what they hold.
pub open spec fn member_views(members: Seq<Member>) -> Seq<(Seq<char>, ValueView)> {
    members.map_values(|member: Member| (member.name@, member.value@))
}

/// Objects by what they hold.
pub open spec fn object_views(objects: Seq<Vec<Member>>) -> Seq<Seq<(Seq<char>, ValueView)>> {
    objects.map_values(|object: Vec<Member>| member_views(object@))
}

/// What is printed at once.
#[derive(Debug)]
pub enum Document {
    Object(Vec<Member>),
    List(Vec<Vec<Member>>),
    /// An object with one more member, which is an object.
    ObjectWith { members: Vec<Member>, name: String, object: Vec<Member> },
    /// An object with one more member, which is a list of objects.
    ObjectWithList { members: Vec<Member>, name: String, list: Vec<Vec<Member>> },
}

#[verifier::ext_equal]
pub enum DocumentView {
    Object(Seq<(Seq<char>, ValueView)>),
    List(Seq<Seq<(Seq<char>, ValueView)>>),
    ObjectWith {
        members: Seq<(Seq<char>, ValueView)>,
        name: Seq<char>,
        object: Seq<(Seq<char>, ValueView)>,
    },
    ObjectWithList {
        members: Seq<(Seq<char>, ValueView)>,
        name: Seq<char>,
        list: Seq<Seq<(Seq<char>, ValueView)>>,
    },
}

impl Document {
    pub open spec fn view(&self) -> DocumentView {
        match *self {
            Document::Object(members) => DocumentView::Object(member_views(members@)),
            Document::List(objects) => DocumentView::List(object_views(objects@)),
            Document::ObjectWith { members, name, object } => DocumentView::ObjectWith {
                members: member_views(members@),
                name: name@,
                object: member_views(object@),
            },
            Document::ObjectWithList { members, name, list } => DocumentView::ObjectWithList {
                members: member_views(members@),
                name: name@,
                list: object_views(list@),
            },
        }
    }
}

pub(crate) fn push_member(members: &mut Vec<Member>, name: &str, value: JsonValue)
    ensures
        member_views(final(members)@) == member_views(old(members)@).push((name@, value@)),
{
    let ghost before = members@;
    let member = Member { name: name.to_owned(), value };
    members.push(member);
    assert(member_views(members@) =~= member_views(before).push((name@, value@)));
}

/// The members of a workload.
pub open spec fn workload_members(workload: WorkloadView) -> Seq<(Seq<char>, ValueView)> {
    seq![
        ("workload_id"@, ValueView::Text(workload.workload_id)),
        ("kind"@, ValueView::Text(workload.kind)),
        ("enabled"@, ValueView::Flag(workload.enabled)),
        ("state"@, ValueView::Text(workload.state)),
        ("execution_id"@, ValueView::Text(workload.execution_id)),
        ("supervisor_process_id"@, ValueView::Natural(workload.supervisor_process_id as u64)),
        ("workload_process_id"@, ValueView::Natural(workload.workload_process_id as u64)),
        ("attempt"@, ValueView::Natural(workload.attempt as u64)),
        ("error"@, ValueView::Text(workload.error)),
        ("last_outcome"@, ValueView::Text(workload.last_outcome)),
        ("definition_missing"@, ValueView::Flag(workload.definition_missing)),
        ("restart_required"@, ValueView::Flag(workload.restart_required)),
        ("policy_sync_pending"@, ValueView::Flag(workload.policy_sync_pending)),
    ]
}

/// A workload as an object.
pub fn workload_json(workload: &Workload) -> (members: Vec<Member>)
    ensures
        member_views(members@) == workload_members(workload@),
{
    let mut members: Vec<Member> = Vec::new();
    push_member(&mut members, "workload_id", JsonValue::Text(workload.workload_id.clone()));
    push_member(&mut members, "kind", JsonValue::Text(workload.kind.clone()));
    push_member(&mut members, "enabled", JsonValue::Flag(workload.enabled));
    push_member(&mut members, "state", JsonValue::Text(workload.state.clone()));
    push_member(&mut members, "execution_id", JsonValue::Text(workload.execution_id.clone()));
    push_member(
        &mut members,
        "supervisor_process_id",
        JsonValue::Natural(workload.supervisor_process_id as u64),
    );
    push_member(
        &mut members,
        "workload_process_id",
        JsonValue::Natural(workload.workload_process_id as u64),
    );
    push_member(&mut members, "attempt", JsonValue::Natural(workload.attempt as u64));
    push_member(&mut members, "error", JsonValue::Text(workload.error.clone()));
    push_member(&mut members, "last_outcome", JsonValue::Text(workload.last_outcome.clone()));
    push_member(&mut members, "definition_missing", JsonValue::Flag(workload.definition_missing));
    push_member(&mut members, "restart_required", JsonValue::Flag(workload.restart_required));
    push_member(
        &mut members,
        "policy_sync_pending",
        JsonValue::Flag(workload.policy_sync_pending),
    );
    assert(member_views(members@) =~= workload_members(workload@));
    members
}

/// The members of an execution.
pub open spec fn execution_members(execution: ExecutionFacts) -> Seq<(Seq<char>, ValueView)> {
    seq![
        ("execution_id"@, ValueView::Text(execution.execution_id)),
        ("workload_id"@, ValueView::Text(execution.workload_id)),
        ("state"@, ValueView::Text(execution.state)),
        ("supervisor_process_id"@, ValueView::Natural(execution.supervisor_process_id as u64)),
        ("workload_process_id"@, ValueView::Natural(execution.workload_process_id as u64)),
        ("attempt"@, ValueView::Natural(execution.attempt as u64)),
        ("started_unix_ms"@, ValueView::Integer(execution.started_unix_ms)),
        ("ended_unix_ms"@, ValueView::Integer(execution.ended_unix_ms)),
        (
            "exit_code"@,
            match execution.exit_code {
                Some(code) => ValueView::Natural(code as u64),
                None => ValueView::Null,
            },
        ),
        ("error"@, ValueView::Text(execution.error)),
    ]
}

/// An execution as an object.
pub fn execution_json(execution: &Execution) -> (members: Vec<Member>)
    ensures
        member_views(members@) == execution_members(execution@),
{
    let mut members: Vec<Member> = Vec::new();
    push_member(&mut members, "execution_id", JsonValue::Text(execution.execution_id.clone()));
    push_member(&mut members, "workload_id", JsonValue::Text(execution.workload_id.clone()));
    push_member(&mut members, "state", JsonValue::Text(execution.state.clone()));
    push_member(
        &mut members,
        "supervisor_process_id",
        JsonValue::Natural(execution.supervisor_process_id as u64),
    );
    push_member(
        &mut members,
        "workload_process_id",
        JsonValue::Natural(execution.workload_process_id as u64),
    );
    push_member(&mut members, "attempt", JsonValue::Natural(execution.attempt as u64));
    push_member(&mut members, "started_unix_ms", JsonValue::Integer(execution.started_unix_ms));
    push_member(&mut members, "ended_unix_ms", JsonValue::Integer(execution.ended_unix_ms));
    let code: JsonValue = match execution.exit_code {
        Some(code) => JsonValue::Natural(code as u64),
        None => JsonValue::Null,
    };
    push_member(&mut members, "exit_code", code);
    push_member(&mut members, "error", JsonValue::Text(execution.error.clone()));
    assert(member_views(members@) =~= execution_members(execution@));
    members
}

/// The members of an installed version.
pub open spec fn version_members(version: VersionView) -> Seq<(Seq<char>, ValueView)> {
    seq![
        ("version"@, ValueView::Text(version.version)),
        ("identity"@, ValueView::Text(version.identity)),
        ("path"@, ValueView::Text(version.path)),
        ("current"@, ValueView::Flag(version.current)),
        ("pin_count"@, ValueView::Natural(version.pin_count as u64)),
    ]
}

/// An installed version as an object.
pub fn version_json(version: &InstalledVersion) -> (members: Vec<Member>)
    ensures
        member_views(members@) == version_members(version@),
{
    let mut members: Vec<Member> = Vec::new();
    push_member(&mut members, "version", JsonValue::Text(version.version.clone()));
    push_member(&mut members, "identity", JsonValue::Text(version.identity.clone()));
    push_member(&mut members, "path", JsonValue::Text(version.path.clone()));
    push_member(&mut members, "current", JsonValue::Flag(version.current));
    push_member(&mut members, "pin_count", JsonValue::Natural(version.pin_count as u64));
    assert(member_views(members@) =~= version_members(version@));
    members
}

/// The members of the state of a controller.
pub open spec fn status_members(status: StatusView) -> Seq<(Seq<char>, ValueView)> {
    seq![
        ("registered"@, ValueView::Flag(status.registered)),
        ("running"@, ValueView::Flag(status.controller_running)),
        ("manager_session_id"@, ValueView::Text(status.manager_session_id)),
        ("process_id"@, ValueView::Natural(status.controller_process_id as u64)),
        ("message"@, ValueView::Text(status.message)),
    ]
}

/// The state of a controller as an object.
pub fn status_json(status: &HostStatus) -> (members: Vec<Member>)
    ensures
        member_views(members@) == status_members(status@),
{
    let mut members: Vec<Member> = Vec::new();
    push_member(&mut members, "registered", JsonValue::Flag(status.registered));
    push_member(&mut members, "running", JsonValue::Flag(status.controller_running));
    push_member(
        &mut members,
        "manager_session_id",
        JsonValue::Text(status.manager_session_id.clone()),
    );
    push_member(
        &mut members,
        "process_id",
        JsonValue::Natural(status.controller_process_id as u64),
    );
    push_member(&mut members, "message", JsonValue::Text(status.message.clone()));
    assert(member_views(members@) =~= status_members(status@));
    members
}

/// The members of a record of captured output.
pub open spec fn log_members(record: LogView) -> Seq<(Seq<char>, ValueView)> {
    seq![
        ("execution_id"@, ValueView::Text(record.execution_id)),
        ("attempt"@, ValueView::Natural(record.attempt as u64)),
        ("stream"@, ValueView::Text(record.stream)),
        ("sequence"@, ValueView::Natural(record.sequence)),
        ("timestamp_unix_ms"@, ValueView::Integer(record.timestamp_unix_ms)),
        ("message"@, ValueView::Text(lossy_text(record.message))),
        ("gap"@, ValueView::Text(record.gap)),
    ]
}

/// A record of captured output as an object.
pub fn log_json(record: &ReadLogsResponse) -> (members: Vec<Member>)
    ensures
        member_views(members@) == log_members(record@),
{
    let mut members: Vec<Member> = Vec::new();
    push_member(&mut members, "execution_id", JsonValue::Text(record.execution_id.clone()));
    push_member(&mut members, "attempt", JsonValue::Natural(record.attempt as u64));
    push_member(&mut members, "stream", JsonValue::Text(record.stream.clone()));
    push_member(&mut members, "sequence", JsonValue::Natural(record.sequence));
    push_member(
        &mut members,
        "timestamp_unix_ms",
        JsonValue::Integer(record.timestamp_unix_ms),
    );
    push_member(&mut members, "message", JsonValue::Text(read_lossy(record.message.as_slice())));
    push_member(&mut members, "gap", JsonValue::Text(record.gap.clone()));
    assert(member_views(members@) =~= log_members(record@));
    members
}

/// The members of something that is wrong with a configuration.
pub open spec fn diagnostic_members(diagnostic: Diagnostic) -> Seq<(Seq<char>, ValueView)> {
    seq![
        ("path"@, ValueView::Text(diagnostic.path@)),
        ("message"@, ValueView::Text(diagnostic.message@)),
    ]
}

fn diagnostic_json(diagnostic: &Diagnostic) -> (members: Vec<Member>)
    ensures
        member_views(members@) == diagnostic_members(*diagnostic),
{
    let mut members: Vec<Member> = Vec::new();
    push_member(&mut members, "path", JsonValue::Text(diagnostic.path.clone()));
    push_member(&mut members, "message", JsonValue::Text(diagnostic.message.clone()));
    assert(member_views(members@) =~= diagnostic_members(*diagnostic));
    members
}

fn push_object(objects: &mut Vec<Vec<Member>>, object: Vec<Member>)
    ensures
        object_views(final(objects)@) == object_views(old(objects)@).push(member_views(object@)),
{
    let ghost before = objects@;
    objects.push(object);
    assert(object_views(objects@) =~= object_views(before).push(member_views(object@)));
}

/// Workloads as a list.
pub fn workloads_json(workloads: &Vec<Workload>) -> (document: Document)
    ensures
        document@ == DocumentView::List(
            workloads@.map_values(|workload: Workload| workload_members(workload@)),
        ),
{
    let ghost wanted = workloads@.map_values(|workload: Workload| workload_members(workload@));
    let mut objects: Vec<Vec<Member>> = Vec::new();
    let mut i: usize = 0;
    assert(object_views(objects@) =~= wanted.take(0));
    while i < workloads.len()
        invariant
            i <= workloads.len(),
            wanted == workloads@.map_values(|workload: Workload| workload_members(workload@)),
            object_views(objects@) == wanted.take(i as int),
        decreases workloads.len() - i,
    {
        push_object(&mut objects, workload_json(&workloads[i]));
        i += 1;
        assert(wanted.take(i as int) =~= wanted.take(i - 1).push(wanted[i - 1]));
    }
    assert(wanted.take(i as int) =~= wanted);
    Document::List(objects)
}

/// Executions as a list.
pub fn executions_json(executions: &Vec<Execution>) -> (document: Document)
    ensures
        document@ == DocumentView::List(
            executions@.map_values(|execution: Execution| execution_members(execution@)),
        ),
{
    let ghost wanted = executions@.map_values(|execution: Execution| execution_members(execution@));
    let mut objects: Vec<Vec<Member>> = Vec::new();
    let mut i: usize = 0;
    assert(object_views(objects@) =~= wanted.take(0));
    while i < executions.len()
        invariant
            i <= executions.len(),
            wanted == executions@.map_values(|execution: Execution| execution_members(execution@)),
            object_views(objects@) == wanted.take(i as int),
        decreases executions.len() - i,
    {
        push_object(&mut objects, execution_json(&executions[i]));
        i += 1;
        assert(wanted.take(i as int) =~= wanted.take(i - 1).push(wanted[i - 1]));
    }
    assert(wanted.take(i as int) =~= wanted);
    Document::List(objects)
}

/// Installed versions as a list.
pub fn versions_json(versions: &Vec<InstalledVersion>) -> (document: Document)
    ensures
        document@ == DocumentView::List(
            versions@.map_values(|version: InstalledVersion| version_members(version@)),
        ),
{
    let ghost wanted = versions@.map_values(|version: InstalledVersion| version_members(version@));
    let mut objects: Vec<Vec<Member>> = Vec::new();
    let mut i: usize = 0;
    assert(object_views(objects@) =~= wanted.take(0));
    while i < versions.len()
        invariant
            i <= versions.len(),
            wanted == versions@.map_values(|version: InstalledVersion| version_members(version@)),
            object_views(objects@) == wanted.take(i as int),
        decreases versions.len() - i,
    {
        push_object(&mut objects, version_json(&versions[i]));
        i += 1;
        assert(wanted.take(i as int) =~= wanted.take(i - 1).push(wanted[i - 1]));
    }
    assert(wanted.take(i as int) =~= wanted);
    Document::List(objects)
}

/// The answer to a reload as an object.
pub open spec fn reload_document(changed: bool, generation: Seq<char>, diagnostics: Seq<Diagnostic>) -> DocumentView {
    DocumentView::ObjectWithList {
        members: seq![
            ("changed"@, ValueView::Flag(changed)),
            ("generation"@, ValueView::Text(generation)),
        ],
        name: "diagnostics"@,
        list: diagnostics.map_values(|diagnostic: Diagnostic| diagnostic_members(diagnostic)),
    }
}

/// The answer to a reload as an object.
pub fn reload_json(changed: bool, generation: &str, diagnostics: &Vec<Diagnostic>) -> (document:
    Document)
    ensures
        document@ == reload_document(changed, generation@, diagnostics@),
{
    let ghost wanted = diagnostics@.map_values(
        |diagnostic: Diagnostic| diagnostic_members(diagnostic),
    );
    let mut members: Vec<Member> = Vec::new();
    push_member(&mut members, "changed", JsonValue::Flag(changed));
    push_member(&mut members, "generation", JsonValue::Text(generation.to_owned()));
    assert(member_views(members@) =~= seq![
        ("changed"@, ValueView::Flag(changed)),
        ("generation"@, ValueView::Text(generation@)),
    ]);
    let mut list: Vec<Vec<Member>> = Vec::new();
    let mut i: usize = 0;
    assert(object_views(list@) =~= wanted.take(0));
    while i < diagnostics.len()
        invariant
            i <= diagnostics.len(),
            wanted == diagnostics@.map_values(
                |diagnostic: Diagnostic| diagnostic_members(diagnostic),
            ),
            object_views(list@) == wanted.take(i as int),
        decreases diagnostics.len() - i,
    {
        push_object(&mut list, diagnostic_json(&diagnostics[i]));
        i += 1;
        assert(wanted.take(i as int) =~= wanted.take(i - 1).push(wanted[i - 1]));
    }
    assert(wanted.take(i as int) =~= wanted);
    Document::ObjectWithList { members, name: "diagnostics".to_owned(), list }
}

/// A workload that was told something as an object.
pub fn mutation_json(changed: bool, workload: &Workload) -> (document: Document)
    ensures
        document@ == (DocumentView::ObjectWith {
            members: seq![("changed"@, ValueView::Flag(changed))],
            name: "workload"@,
            object: workload_members(workload@),
        }),
{
    let mut members: Vec<Member> = Vec::new();
    push_member(&mut members, "changed", JsonValue::Flag(changed));
    assert(member_views(members@) =~= seq![("changed"@, ValueView::Flag(changed))]);
    Document::ObjectWith {
        members,
        name: "workload".to_owned(),
        object: workload_json(workload),
    }
}

} // verus!
