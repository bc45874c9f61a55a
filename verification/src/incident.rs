//! Incident resolution decisions. An incident is resolved only by an
//! explicit, audited credential choice, and the terminal launch transaction
//! behind it is never rewritten.

use vstd::prelude::*;
use vstd::string::*;

use crate::error::{CoreError, CoreResult};
use crate::model::RecoveryIncident;
use crate::paths::{
    has_json_extension, has_parent_component, json_extension, last_component, last_component_of,
    scan_components,
};
use crate::rows::{is_storage_failure, opt_view};
use crate::storage::{read_from, 
    grown, is_attempt_completion, is_incident_resolution, storage_or, Storage,
};
use crate::text::str_eq;

verus! {

/// Keep the validated Vault credential and clear the Runtime copy.
pub const KEEP_VAULT: &'static str = "keep_vault";

/// Write the preserved evidence credential into the Vault, keeping the prior
/// Vault as a backup.
pub const USE_EVIDENCE: &'static str = "use_evidence";

/// Whether an action is one of the two resolution choices.
pub open spec fn is_resolution_action(action: Seq<char>) -> bool {
    action == "keep_vault"@ || action == "use_evidence"@
}

/// How a resolution request starts.
#[derive(Debug, Clone, Copy, PartialEq, Eq, Structural)]
pub enum ResolutionStart {
    /// The incident was already resolved with this action: it is returned as
    /// it is.
    AlreadyResolved,
    /// The incident is open and the action valid: the choice is applied.
    Apply,
}

/// The start of resolving `incident` with `action`: repeating the resolution
/// that was made is answered with the resolved incident, another action on a
/// resolved incident is a conflict, and only the two known actions are
/// applied to an open one.
pub fn resolution_start(incident: &RecoveryIncident, action: &str) -> (r: CoreResult<
    ResolutionStart,
>)
    ensures
        incident.status@ == "resolved"@ ==> (r is Ok <==> opt_view(incident.resolution_action)
            == Some(action@)),
        incident.status@ == "resolved"@ ==> (r matches Ok(s) ==> s == ResolutionStart::AlreadyResolved),
        incident.status@ == "resolved"@ ==> (r matches Err(e) ==> e.code@ == "CONFLICT"@),
        incident.status@ != "resolved"@ ==> (r is Ok <==> is_resolution_action(action@)),
        incident.status@ != "resolved"@ ==> (r matches Ok(s) ==> s == ResolutionStart::Apply),
        incident.status@ != "resolved"@ ==> (r matches Err(e) ==> e.code@ == "INVALID_REQUEST"@),
{
    if str_eq(incident.status.as_str(), "resolved") {
        let same = match &incident.resolution_action {
            Some(previous) => str_eq(previous.as_str(), action),
            None => false,
        };
        if same {
            return Ok(ResolutionStart::AlreadyResolved);
        }
        return Err(CoreError::new("CONFLICT", "incident was resolved with another action"));
    }
    if !(str_eq(action, KEEP_VAULT) || str_eq(action, USE_EVIDENCE)) {
        return Err(CoreError::new("INVALID_REQUEST", "incident resolution action is invalid"));
    }
    Ok(ResolutionStart::Apply)
}

/// The summary recorded for an applied resolution.
pub open spec fn resolution_summary_of(action: Seq<char>) -> Seq<char> {
    if action == "keep_vault"@ {
        "validated Vault retained; Runtime credential cleared"@
    } else {
        "validated evidence selected; prior Vault preserved; Runtime credential cleared"@
    }
}

/// Picks the summary recorded for an applied resolution.
pub fn resolution_summary(action: &str) -> (r: &'static str)
    ensures
        r@ == resolution_summary_of(action@),
        action@ == "keep_vault"@ ==> r@ == "validated Vault retained; Runtime credential cleared"@,
        action@ != "keep_vault"@ ==> r@
            == "validated evidence selected; prior Vault preserved; Runtime credential cleared"@,
{
    if str_eq(action, KEEP_VAULT) {
        "validated Vault retained; Runtime credential cleared"
    } else {
        "validated evidence selected; prior Vault preserved; Runtime credential cleared"
    }
}

/// The evidence candidate that `use_evidence` writes into the Vault.
pub fn evidence_candidate(incident: &RecoveryIncident) -> (r: CoreResult<&str>)
    ensures
        r is Ok <==> incident.evidence_relative_path is Some,
        r matches Ok(p) ==> opt_view(incident.evidence_relative_path) == Some(p@),
        r matches Err(e) ==> e.code@ == "RECOVERY_REQUIRED"@,
{
    match &incident.evidence_relative_path {
        Some(path) => Ok(path.as_str()),
        None => Err(
            CoreError::new("RECOVERY_REQUIRED", "incident has no credential evidence candidate"),
        ),
    }
}

/// A stored evidence path the runtime will follow: relative, with no `..`
/// component, naming a `.json` file.
pub open spec fn is_evidence_path(relative: Seq<char>) -> bool {
    &&& !(relative.len() > 0 && relative[0] == '/')
    &&& !has_parent_component(relative)
    &&& last_component(relative) matches Some(name) && has_json_extension(name)
}

/// The textual checks on an evidence path, before it is resolved against the
/// recovery root.
pub fn check_evidence_path(relative: &str) -> (r: CoreResult<()>)
    ensures
        r is Ok <==> is_evidence_path(relative@),
        r matches Err(e) ==> e.code@ == "PATH_REJECTED"@,
{
    let absolute = relative.unicode_len() > 0 && relative.get_char(0) == '/';
    let scan = scan_components(relative);
    let json = match last_component_of(relative) {
        Some(name) => json_extension(name.as_str()),
        None => false,
    };
    if absolute || scan.any_parent || !json {
        return Err(CoreError::new("PATH_REJECTED", "incident evidence path is invalid"));
    }
    Ok(())
}

/// The name of the Vault backup taken before evidence replaces it.
pub fn vault_backup_name(incident_id: &str) -> (r: String)
    ensures
        r@ == "vault-before-resolution-"@ + incident_id@ + ".json"@,
{
    let mut name = String::from_str("vault-before-resolution-");
    name.append(incident_id);
    name.append(".json");
    name
}

/// Where a request to resolve an incident stands once the incident is read.
#[derive(Debug)]
pub enum Resolution {
    /// It was already resolved with the requested action.
    Resolved(RecoveryIncident),
    /// It is open and the action is valid: the choice is to be applied.
    Apply(RecoveryIncident),
}

/// Reads the incident and decides how resolving it with `action` starts.
pub fn begin_resolution(storage: &mut Storage, incident_id: &str, action: &str) -> (r: CoreResult<
    Resolution,
>)
    ensures
        read_from(*old(storage), *final(storage)),
        r matches Ok(Resolution::Resolved(i)) ==> i.status@ == "resolved"@ && opt_view(
            i.resolution_action,
        ) == Some(action@),
        r matches Ok(Resolution::Apply(i)) ==> i.status@ != "resolved"@ && is_resolution_action(
            action@,
        ),
        r matches Err(e) ==> storage_or(e, "NOT_FOUND"@) || e.code@ == "CONFLICT"@ || e.code@
            == "INVALID_REQUEST"@,
{
    let incident = storage.incident(incident_id)?;
    match resolution_start(&incident, action)? {
        ResolutionStart::AlreadyResolved => Ok(Resolution::Resolved(incident)),
        ResolutionStart::Apply => Ok(Resolution::Apply(incident)),
    }
}

/// Records the outcome of applying a resolution whose attempt was begun: an
/// applied choice resolves the incident with its summary and completes the
/// attempt as resolved; a failed one completes the attempt as failed with the
/// error's code and returns that error.
pub fn finish_resolution(
    storage: &mut Storage,
    incident_id: &str,
    attempt_id: &str,
    action: &str,
    applied: CoreResult<()>,
) -> (r: CoreResult<RecoveryIncident>)
    ensures
        applied matches Err(a) ==> (r matches Err(e) && (e == a || is_storage_failure(e))),
        applied is Ok ==> (r matches Err(e) ==> storage_or(e, "NOT_FOUND"@) || e.code@
            == "INVALID_STATE"@),
        final(storage).spec_layout() == old(storage).spec_layout(),
        grown(old(storage).issued(), final(storage).issued()),
        applied is Ok && r is Ok ==> final(storage).issued().len() == old(storage).issued().len() + 2
            && is_incident_resolution(
            final(storage).issued()[old(storage).issued().len() as int],
            incident_id@,
            action@,
            resolution_summary_of(action@),
        ) && is_attempt_completion(final(storage).issued().last(), attempt_id@, "resolved"@, None),
        applied matches Err(a) ==> final(storage).issued().len() <= old(storage).issued().len() + 1
            && (final(storage).issued().len() == old(storage).issued().len() + 1
            ==> is_attempt_completion(
            final(storage).issued().last(),
            attempt_id@,
            "failed"@,
            Some(a.code@),
        )),
{
    match applied {
        Ok(()) => {
            let resolved = storage.resolve_incident(incident_id, action, resolution_summary(action))?;
            let ghost settled = storage.issued();
            storage.complete_resolution_attempt(attempt_id, "resolved", None)?;
            assert(storage.issued()[old(storage).issued().len() as int] == settled[old(
                storage,
            ).issued().len() as int]);
            Ok(resolved)
        },
        Err(error) => {
            storage.complete_resolution_attempt(attempt_id, "failed", Some(error.code))?;
            Err(error)
        },
    }
}

} // verus!
