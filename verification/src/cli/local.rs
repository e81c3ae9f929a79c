//! What the client shows of the commands that it carries out without the controller.

use vstd::prelude::*;
use vstd::string::*;

use crate::cli::command::{
    Response, Shown, ShownView, one_block, reply_to,
};
use crate::cli::json::{
    Document, DocumentView, JsonValue, Member, ValueView, member_views, push_member, status_json,
    status_members, version_json, version_members, versions_json,
};
use crate::cli::output::{
    BlockView, HumanOutput, Tone, controller_details, detail, table, version_headers, version_row,
};
use crate::host::state::HostStatus;
use crate::text::decimal;
use crate::versions::InstalledVersion;

verus! {

/// What came of a command that the client carried out itself, or had the host carry out.
#[derive(Debug)]
pub enum LocalResult {
    /// The directory of the definitions.
    ConfigDirectory(String),
    /// A bundle was installed, and the controller runs under this number.
    Installed { version: InstalledVersion, controller_process_id: u32 },
    Uninstalled,
    /// Another version was selected.
    Selected(InstalledVersion),
    /// So many unused versions were removed.
    Collected(usize),
    Versions(Vec<InstalledVersion>),
    /// How the controller does.
    Controller(HostStatus),
    /// A restart of the controller was requested.
    Restarted(HostStatus),
}

/// What came of a command as a document.
pub open spec fn local_document(result: LocalResult) -> DocumentView {
    match result {
        LocalResult::ConfigDirectory(path) => DocumentView::Object(
            seq![("path"@, ValueView::Text(path@))],
        ),
        LocalResult::Installed { version, controller_process_id } => DocumentView::Object(
            version_members(version@).push(
                ("controller_process_id"@, ValueView::Natural(controller_process_id as u64)),
            ),
        ),
        LocalResult::Uninstalled => DocumentView::Object(
            seq![("uninstalled"@, ValueView::Flag(true))],
        ),
        LocalResult::Selected(version) => DocumentView::Object(version_members(version@)),
        LocalResult::Collected(removed) => DocumentView::Object(
            seq![("removed"@, ValueView::Natural(removed as u64))],
        ),
        LocalResult::Versions(versions) => DocumentView::List(
            versions@.map_values(|version: InstalledVersion| version_members(version@)),
        ),
        LocalResult::Controller(status) => DocumentView::Object(status_members(status@)),
        LocalResult::Restarted(status) => DocumentView::Object(status_members(status@)),
    }
}

/// What came of a command for people.
pub open spec fn local_blocks(result: LocalResult) -> Seq<BlockView> {
    match result {
        LocalResult::ConfigDirectory(path) => seq![BlockView::Line(path@)],
        LocalResult::Installed { version, controller_process_id } => seq![
            BlockView::Success("Installed SUSM "@ + version@.version),
            BlockView::Details(
                seq![
                    detail("Identity"@, version@.identity, Tone::Plain),
                    detail("Path"@, version@.path, Tone::Plain),
                    detail("Controller PID"@, decimal(controller_process_id as nat), Tone::Plain),
                ],
            ),
        ],
        LocalResult::Uninstalled => seq![
            BlockView::Success("Removed the per-user SUSM installation"@),
        ],
        LocalResult::Selected(version) => seq![
            BlockView::Success("Selected SUSM "@ + version@.version),
            BlockView::Details(
                seq![
                    detail("Identity"@, version@.identity, Tone::Plain),
                    detail("Path"@, version@.path, Tone::Plain),
                ],
            ),
        ],
        LocalResult::Collected(removed) => seq![
            BlockView::Success(
                "Removed "@ + decimal(removed as nat) + " unused version or staging entries"@,
            ),
        ],
        LocalResult::Versions(versions) => seq![
            table(
                version_headers(),
                versions@.map_values(|version: InstalledVersion| version_row(version@)),
                "No installed versions"@,
            ),
        ],
        LocalResult::Controller(status) => seq![BlockView::Details(controller_details(status@))],
        LocalResult::Restarted(status) => seq![
            BlockView::Success("Controller restart requested"@),
            BlockView::Details(
                seq![detail("Manager session"@, status@.manager_session_id, Tone::Plain)],
            ),
        ],
    }
}

/// What is shown of a command: a document for programs, or else text for people.
pub open spec fn local_shown(result: LocalResult, json: bool) -> ShownView {
    if json {
        ShownView::Json(local_document(result))
    } else {
        ShownView::Blocks(local_blocks(result))
    }
}

fn one_member(name: &str, value: JsonValue) -> (document: Document)
    ensures
        document@ == DocumentView::Object(seq![(name@, value@)]),
{
    let mut members: Vec<Member> = Vec::new();
    push_member(&mut members, name, value);
    assert(member_views(members@) =~= seq![(name@, value@)]);
    Document::Object(members)
}

fn result_document(result: &LocalResult) -> (document: Document)
    ensures
        document@ == local_document(*result),
{
    match result {
        LocalResult::ConfigDirectory(path) => one_member("path", JsonValue::Text(path.clone())),
        LocalResult::Installed { version, controller_process_id } => {
            let mut members: Vec<Member> = version_json(version);
            push_member(
                &mut members,
                "controller_process_id",
                JsonValue::Natural(*controller_process_id as u64),
            );
            Document::Object(members)
        },
        LocalResult::Uninstalled => one_member("uninstalled", JsonValue::Flag(true)),
        LocalResult::Selected(version) => Document::Object(version_json(version)),
        LocalResult::Collected(removed) => one_member(
            "removed",
            JsonValue::Natural(*removed as u64),
        ),
        LocalResult::Versions(versions) => versions_json(versions),
        LocalResult::Controller(status) => Document::Object(status_json(status)),
        LocalResult::Restarted(status) => Document::Object(status_json(status)),
    }
}

/// What is shown of a command that was carried out.
pub fn show_result(result: &LocalResult, json: bool, output: &HumanOutput) -> (shown: Shown)
    ensures
        shown@ == local_shown(*result, json),
{
    if json {
        return Shown::Json(result_document(result));
    }
    match result {
        LocalResult::ConfigDirectory(path) => one_block(output.path(path.as_str())),
        LocalResult::Installed { version, controller_process_id } => Shown::Blocks(
            output.installed(version, *controller_process_id),
        ),
        LocalResult::Uninstalled => one_block(output.uninstalled()),
        LocalResult::Selected(version) => Shown::Blocks(output.selected(version)),
        LocalResult::Collected(removed) => one_block(output.garbage_collected(*removed)),
        LocalResult::Versions(versions) => one_block(output.versions(versions)),
        LocalResult::Controller(status) => one_block(output.controller_status(status)),
        LocalResult::Restarted(status) => Shown::Blocks(
            output.controller_restart(status.manager_session_id.as_str()),
        ),
    }
}

/// Whoever asks for JSON gets JSON instead of text, and nobody else does: for every command that is
/// carried out here, and for every answer of the controller that does not end in an error.
pub proof fn law_json_takes_the_place_of_text(result: LocalResult, response: Response)
    ensures
        local_shown(result, true) is Json,
        local_shown(result, false) is Blocks,
        reply_to(response, true).shown is Json || reply_to(response, true).error is Some
            && reply_to(response, true).shown is Nothing,
        reply_to(response, false).shown !is Json,
{
}

} // verus!
