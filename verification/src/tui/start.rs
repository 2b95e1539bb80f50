//! How an operation that was confirmed becomes a job.
use vstd::prelude::*;
use vstd::string::*;

use super::browse::shown_index;
use super::erase_keys::only_tells;
use super::state::{
    JobsPane, Note, Page, SequentialMode, SequentialPane, SequentialView, StartPane, UiState,
};
use crate::app::mounts::{mount_models, mount_of, mounted_filesystem_for_path, MountedFilesystem};
use crate::app::write_state::FloatBits;
use crate::device::{label_hint_spec, MediaInfo};
use crate::job::id::JobId;
use crate::job::order::{
    attach_fault, order_fault, preflight_of, Endpoint, JobSpec, OperationKind, Resolved,
    WritePreflight,
};
use crate::job::state::JobState;
use crate::text::{cat2, clone_opt, opt_view};

verus! {

/// A host path with the mount that it lies on.
pub open spec fn endpoint_for(mounts: Seq<MountedFilesystem>, path: String) -> Endpoint {
    match mount_of(mount_models(mounts), path@) {
        Some(k) => Endpoint {
            path,
            filesystem_type: Some(mounts[k].filesystem_type),
            mount_source: Some(mounts[k].source),
        },
        None => Endpoint { path, filesystem_type: None, mount_source: None },
    }
}

/// A host path with the mount that it lies on.
pub fn host_endpoint(mounts: &Vec<MountedFilesystem>, path: &String) -> (endpoint: Endpoint)
    ensures
        endpoint == endpoint_for(mounts@, *path),
{
    match mounted_filesystem_for_path(mounts, path.as_str()) {
        Some(mount) => Endpoint {
            path: path.clone(),
            filesystem_type: Some(mount.filesystem_type.clone()),
            mount_source: Some(mount.source.clone()),
        },
        None => Endpoint { path: path.clone(), filesystem_type: None, mount_source: None },
    }
}

/// The endpoints of a list of host paths.
pub open spec fn endpoints_for(mounts: Seq<MountedFilesystem>, paths: Seq<String>) -> Seq<Endpoint> {
    paths.map_values(|p: String| endpoint_for(mounts, p))
}

fn host_endpoints(mounts: &Vec<MountedFilesystem>, paths: &Vec<String>) -> (list: Vec<Endpoint>)
    ensures
        list@ == endpoints_for(mounts@, paths@),
{
    let ghost wanted = endpoints_for(mounts@, paths@);
    let mut list: Vec<Endpoint> = Vec::new();
    let mut i: usize = 0;
    while i < paths.len()
        invariant
            i <= paths@.len(),
            wanted == endpoints_for(mounts@, paths@),
            list@ == wanted.subrange(0, i as int),
        decreases paths@.len() - i,
    {
        let endpoint = host_endpoint(mounts, &paths[i]);
        assert(endpoint == wanted[i as int]);
        list.push(endpoint);
        i = i + 1;
        assert(list@ =~= wanted.subrange(0, i as int));
    }
    assert(list@ =~= wanted);
    list
}

/// The label of the cartridge, or the barcode that it remembers.
pub open spec fn cartridge_label(media: Option<MediaInfo>) -> Option<Seq<char>> {
    match media {
        Some(m) => match label_hint_spec(m) {
            Some(label) => Some(label),
            None => match m.mam {
                Some(mam) => opt_view(mam.barcode),
                None => None,
            },
        },
        None => None,
    }
}

pub fn label_of_cartridge(media: &Option<MediaInfo>) -> (label: Option<String>)
    ensures
        opt_view(label) == cartridge_label(*media),
{
    match media {
        Some(m) => match m.full_label_hint() {
            Some(label) => Some(label),
            None => match &m.mam {
                Some(mam) => clone_opt(&mam.barcode),
                None => None,
            },
        },
        None => None,
    }
}

/// What is missing for a write.
pub open spec fn write_missing(s: UiState) -> Option<Seq<char>> {
    if s.device.snapshot is None {
        Some("Device snapshot is unavailable"@)
    } else if s.write.plan is None {
        Some("Source plan is unavailable"@)
    } else if s.write.capacity is None {
        Some("Capacity assessment is unavailable"@)
    } else if s.write.plan->0.roots@.len() == 0 {
        Some("Source root is unavailable"@)
    } else if s.write.tape_target is None {
        Some("LTFS target is unavailable"@)
    } else {
        None
    }
}

/// The order for a write, without its preflight.
pub open spec fn bare_write_order(s: UiState, id: JobId, now: String, order: JobSpec) -> bool {
    let snapshot = s.device.snapshot->0;
    let plan = s.write.plan->0;
    let roots = endpoints_for(s.files.mounts@, plan.roots@);
    &&& order.protocol_version == crate::job::order::PROTOCOL_VERSION
    &&& order.id == id
    &&& order.operation is Write
    &&& order.drive_selector == snapshot.drive.sg_path
    &&& order.drive_serial == snapshot.drive.serial
    &&& order.source == roots[0]
    &&& order.source_roots@ == roots
    &&& order.destination == (Endpoint {
        path: s.write.tape_target->0,
        filesystem_type: None,
        mount_source: None,
    })
    &&& order.read_back_verify == s.start.read_back_verify
    &&& order.completion_action == s.start.completion_action
    &&& opt_view(order.volume_barcode) == cartridge_label(snapshot.media)
    &&& order.volume_name == (match shown_index(s) {
        Some(index) => index.volume_name,
        None => None,
    })
    &&& order.created_at == now
    &&& order.write_preflight is None
}

fn plain_write_order(s: &UiState, id: JobId, now: String) -> (order: JobSpec)
    requires
        write_missing(*s) is None,
    ensures
        bare_write_order(*s, id, now, order),
{
    let snapshot = s.device.snapshot.as_ref().unwrap();
    let plan = s.write.plan.as_ref().unwrap();
    let target = s.write.tape_target.as_ref().unwrap();
    let roots = host_endpoints(&s.files.mounts, &plan.roots);
    assert(roots@[0] == endpoint_for(s.files.mounts@, plan.roots@[0]));
    let source = roots[0].clone();
    let destination = Endpoint {
        path: target.clone(),
        filesystem_type: None,
        mount_source: None,
    };
    let volume_name = match super::browse::index_shown(s) {
        Some(index) => clone_opt(&index.volume_name),
        None => None,
    };
    JobSpec::new(
        id,
        OperationKind::Write,
        snapshot.drive.sg_path.clone(),
        snapshot.drive.serial.clone(),
        source,
        destination,
        s.start.read_back_verify,
        now,
    ).with_source_roots(roots).with_completion(
        s.start.completion_action,
        label_of_cartridge(&snapshot.media),
        volume_name,
    )
}

/// The write that was confirmed becomes an order with its preflight, or it is told why
/// not.
pub open spec fn write_ordered(
    s: UiState,
    id: JobId,
    now: String,
    canonical: Seq<Resolved>,
    fraction: Option<FloatBits>,
    t: UiState,
    result: Option<JobSpec>,
) -> bool {
    match write_missing(s) {
        Some(text) => only_tells(s, text, t) && result is None,
        None => {
            let plan = s.write.plan->0;
            let capacity = s.write.capacity->0;
            let ack = s.start.capacity_acknowledged;
            match result {
                Some(order) => {
                    &&& t == s
                    &&& bare_write_order(
                        s,
                        id,
                        now,
                        JobSpec { write_preflight: None, ..order },
                    )
                    &&& order.write_preflight is Some
                    &&& preflight_of(order.write_preflight->0, plan, capacity, fraction, ack)
                    &&& order_fault(order) is None
                    &&& attach_fault(
                        JobSpec { write_preflight: None, ..order },
                        canonical,
                        plan,
                        capacity,
                    ) is None
                },
                None => {
                    &&& t == (UiState {
                        start: StartPane { confirm: false, ..s.start },
                        note: Note { status: t.note.status, ..s.note },
                        ..s
                    })
                    &&& exists|bare: JobSpec| #[trigger]
                        bare_write_order(s, id, now, bare) && preflight_refused(
                            bare,
                            canonical,
                            s,
                            fraction,
                            t.note.status@,
                        )
                },
            }
        },
    }
}

/// Why an order gets no preflight.
pub open spec fn preflight_refused(
    bare: JobSpec,
    canonical: Seq<Resolved>,
    s: UiState,
    fraction: Option<FloatBits>,
    message: Seq<char>,
) -> bool {
    let plan = s.write.plan->0;
    let capacity = s.write.capacity->0;
    let ack = s.start.capacity_acknowledged;
    match attach_fault(bare, canonical, plan, capacity) {
        Some(fault) => message == fault,
        None => exists|p: WritePreflight|
            #![trigger preflight_of(p, plan, capacity, fraction, ack)]
            preflight_of(p, plan, capacity, fraction, ack) && order_fault(
                JobSpec { write_preflight: Some(p), ..bare },
            ) == Some(message),
    }
}

/// Makes an order of the write that was confirmed. `canonical` holds what the host
/// resolves the roots of the plan to, and `fraction` the part of the capacity that it
/// takes.
pub fn start_write_job(
    state: &mut UiState,
    id: JobId,
    now: String,
    canonical: &Vec<Resolved>,
    fraction: Option<FloatBits>,
) -> (result: Option<JobSpec>)
    requires
        old(state).write.plan is Some ==> canonical@.len() == old(state).write.plan->0.roots@.len(),
    ensures
        write_ordered(*old(state), id, now, canonical@, fraction, *final(state), result),
{
    let missing = if state.device.snapshot.is_none() {
        Some("Device snapshot is unavailable")
    } else {
        match &state.write.plan {
            None => Some("Source plan is unavailable"),
            Some(plan) => if state.write.capacity.is_none() {
                Some("Capacity assessment is unavailable")
            } else if plan.roots.len() == 0 {
                Some("Source root is unavailable")
            } else if state.write.tape_target.is_none() {
                Some("LTFS target is unavailable")
            } else {
                None
            },
        }
    };
    match missing {
        Some(text) => {
            state.note.status = text.to_owned();
            return None;
        },
        None => {},
    }
    let ghost s = *state;
    let order = plain_write_order(state, id, now);
    let ghost bare = order;
    let attached = order.with_write_preflight(
        canonical,
        state.write.plan.as_ref().unwrap(),
        state.write.capacity.as_ref().unwrap(),
        fraction,
        state.start.capacity_acknowledged,
    );
    match attached {
        Ok(order) => {
            assert(JobSpec { write_preflight: None, ..order } == bare);
            Some(order)
        },
        Err(message) => {
            state.note.status = message;
            state.start.confirm = false;
            assert(bare_write_order(s, id, now, bare));
            None
        },
    }
}

/// The read that was confirmed becomes an order, or it is told why not.
pub open spec fn read_ordered(
    s: UiState,
    id: JobId,
    now: String,
    fault: Option<String>,
    t: UiState,
    result: Option<JobSpec>,
) -> bool {
    if s.device.snapshot is None || s.read.plan is None || s.read.destination is None {
        only_tells(s, "Read Plan or destination is unavailable"@, t) && result is None
    } else {
        let snapshot = s.device.snapshot->0;
        let plan = s.read.plan->0;
        let stopped = UiState {
            start: StartPane { confirm: false, ..s.start },
            note: Note { status: t.note.status, ..s.note },
            ..s
        };
        match (fault, result) {
            (Some(message), None) => t == stopped && t.note.status == message,
            (Some(_), Some(_)) => false,
            (None, Some(order)) => {
                &&& t == s
                &&& read_order_of(s, id, now, order)
                &&& order_fault(order) is None
            },
            (None, None) => t == stopped && exists|order: JobSpec| #[trigger]
                read_order_of(s, id, now, order) && order_fault(order) == Some(t.note.status@),
        }
    }
}

/// The order for a read.
pub open spec fn read_order_of(s: UiState, id: JobId, now: String, order: JobSpec) -> bool {
    let snapshot = s.device.snapshot->0;
    let plan = s.read.plan->0;
    &&& order.protocol_version == crate::job::order::PROTOCOL_VERSION
    &&& order.id == id
    &&& order.operation is Read
    &&& order.drive_selector == snapshot.drive.sg_path
    &&& order.drive_serial == snapshot.drive.serial
    &&& order.source.path@ == (if plan.selections@.len() > 0 {
        plan.selections@[0]@
    } else {
        "/"@
    })
    &&& order.source.filesystem_type is None
    &&& order.source.mount_source is None
    &&& order.source_roots@.len() == 0
    &&& order.destination == endpoint_for(s.files.mounts@, s.read.destination->0)
    &&& !order.read_back_verify
    &&& order.completion_action is KeepLoaded
    &&& order.volume_barcode is None
    &&& order.volume_name is None
    &&& order.created_at == now
    &&& order.write_preflight is None
}

/// Makes an order of the read that was confirmed. `fault` says what is wrong with the
/// destination on the host.
pub fn start_read_job(state: &mut UiState, id: JobId, now: String, fault: Option<String>) -> (result:
    Option<JobSpec>)
    ensures
        read_ordered(*old(state), id, now, fault, *final(state), result),
{
    if state.device.snapshot.is_none() || state.read.plan.is_none()
        || state.read.destination.is_none() {
        state.note.status = "Read Plan or destination is unavailable".to_owned();
        return None;
    }
    match fault {
        Some(message) => {
            state.note.status = message;
            state.start.confirm = false;
            return None;
        },
        None => {},
    }
    let ghost s = *state;
    let order = {
        let snapshot = state.device.snapshot.as_ref().unwrap();
        let plan = state.read.plan.as_ref().unwrap();
        let source = Endpoint {
            path: if plan.selections.len() > 0 {
                plan.selections[0].clone()
            } else {
                "/".to_owned()
            },
            filesystem_type: None,
            mount_source: None,
        };
        JobSpec::new(
            id,
            OperationKind::Read,
            snapshot.drive.sg_path.clone(),
            snapshot.drive.serial.clone(),
            source,
            host_endpoint(&state.files.mounts, state.read.destination.as_ref().unwrap()),
            false,
            now,
        )
    };
    assert(read_order_of(s, id, now, order));
    match order.validate() {
        Ok(_) => Some(order),
        Err(message) => {
            state.note.status = message;
            state.start.confirm = false;
            None
        },
    }
}

/// Sequential work that was confirmed.
#[derive(Debug, PartialEq, Eq)]
pub struct SequentialRequest {
    pub mode: SequentialMode,
    pub drive_selector: String,
    pub drive_serial: String,
    /// Where the data is on the host.
    pub host: Endpoint,
    pub read_back_verify: bool,
    pub overwrite_acknowledged: bool,
}

/// What sequential work is asked for, where everything is known.
pub fn sequential_request(state: &UiState) -> (request: Option<SequentialRequest>)
    ensures
        match request {
            Some(r) => state.device.snapshot is Some && state.sequential.mode is Some
                && state.sequential.path is Some && r == (SequentialRequest {
                mode: state.sequential.mode->0,
                drive_selector: state.device.snapshot->0.drive.sg_path,
                drive_serial: state.device.snapshot->0.drive.serial,
                host: endpoint_for(state.files.mounts@, state.sequential.path->0),
                read_back_verify: state.sequential.mode->0.writes()
                    && state.start.read_back_verify,
                overwrite_acknowledged: state.sequential.overwrite_ack,
            }),
            None => state.device.snapshot is None || state.sequential.mode is None
                || state.sequential.path is None,
        },
{
    match (&state.device.snapshot, state.sequential.mode, &state.sequential.path) {
        (Some(snapshot), Some(mode), Some(path)) => Some(
            SequentialRequest {
                mode,
                drive_selector: snapshot.drive.sg_path.clone(),
                drive_serial: snapshot.drive.serial.clone(),
                host: host_endpoint(&state.files.mounts, path),
                read_back_verify: mode.is_write() && state.start.read_back_verify,
                overwrite_acknowledged: state.sequential.overwrite_ack,
            },
        ),
        _ => None,
    }
}

// ---------------------------------------------------------------------------
// What came of it
// ---------------------------------------------------------------------------

/// What was to be started.
#[derive(Debug, Clone, Copy, PartialEq, Eq, Structural)]
pub enum StartKind {
    Write,
    Read,
    Sequential,
}

/// What came of starting a job.
#[derive(Debug, PartialEq, Eq)]
pub enum StartOutcome {
    Started(JobState),
    /// There is no place for jobs.
    NoRoot(String),
    /// The worker of the device did not let go of it.
    NoHandoff,
    NotStarted(String),
}

/// What is told of a job that was to be started.
pub open spec fn start_text(kind: StartKind, outcome: StartOutcome) -> Seq<char> {
    match outcome {
        StartOutcome::Started(_) => match kind {
            StartKind::Write => "Detached Write started; closing TUI will not stop it"@,
            StartKind::Read => "Detached Read started; closing TUI will not stop it"@,
            StartKind::Sequential =>
                "Detached RAW/TAR operation started; closing TUI will not stop it"@,
        },
        StartOutcome::NoRoot(error) => error@,
        StartOutcome::NoHandoff => match kind {
            StartKind::Write =>
                "Device worker did not confirm ownership handoff; Write was not started"@,
            StartKind::Read =>
                "Device worker did not confirm ownership handoff; Read was not started"@,
            StartKind::Sequential => "Device worker did not confirm ownership handoff"@,
        },
        StartOutcome::NotStarted(error) => match kind {
            StartKind::Write => "Failed to start detached Write: "@ + error@,
            StartKind::Read => "Failed to start detached Read: "@ + error@,
            StartKind::Sequential => "Failed to start detached operation: "@ + error@,
        },
    }
}

fn text_of_start(kind: StartKind, outcome: &StartOutcome) -> (text: String)
    ensures
        text@ == start_text(kind, *outcome),
{
    match outcome {
        StartOutcome::Started(_) => match kind {
            StartKind::Write => "Detached Write started; closing TUI will not stop it".to_owned(),
            StartKind::Read => "Detached Read started; closing TUI will not stop it".to_owned(),
            StartKind::Sequential =>
                "Detached RAW/TAR operation started; closing TUI will not stop it".to_owned(),
        },
        StartOutcome::NoRoot(error) => error.clone(),
        StartOutcome::NoHandoff => match kind {
            StartKind::Write =>
                "Device worker did not confirm ownership handoff; Write was not started".to_owned(),
            StartKind::Read =>
                "Device worker did not confirm ownership handoff; Read was not started".to_owned(),
            StartKind::Sequential => "Device worker did not confirm ownership handoff".to_owned(),
        },
        StartOutcome::NotStarted(error) => match kind {
            StartKind::Write => cat2("Failed to start detached Write: ", error.as_str()),
            StartKind::Read => cat2("Failed to start detached Read: ", error.as_str()),
            StartKind::Sequential => cat2(
                "Failed to start detached operation: ",
                error.as_str(),
            ),
        },
    }
}

/// The confirmation is taken back, once it has been used.
pub open spec fn confirmation_used(kind: StartKind, outcome: StartOutcome) -> bool {
    kind is Write || (kind is Read && !(outcome is NoRoot))
}

/// What came of starting a job changes.
pub open spec fn start_applied(s: UiState, kind: StartKind, outcome: StartOutcome, t: UiState) -> bool {
    let started = outcome is Started;
    &&& t.note.status@ == start_text(kind, outcome)
    &&& t == (UiState {
        jobs: JobsPane {
            list: t.jobs.list,
            index: if started {
                0
            } else {
                s.jobs.index
            },
            ..s.jobs
        },
        page: if started {
            Page::Jobs
        } else {
            s.page
        },
        sequential: if started && kind is Sequential {
            SequentialPane { view: SequentialView::Menu, ..s.sequential }
        } else {
            s.sequential
        },
        start: if confirmation_used(kind, outcome) {
            StartPane { confirm: false, ..s.start }
        } else {
            s.start
        },
        note: Note { status: t.note.status, ..s.note },
        ..s
    })
    &&& t.jobs.list@ == (match outcome {
        StartOutcome::Started(job) => s.jobs.list@.insert(0, job),
        _ => s.jobs.list@,
    })
}

/// Takes what came of starting a job. A job that was started is shown first.
pub fn apply_start(state: &mut UiState, kind: StartKind, outcome: StartOutcome)
    ensures
        start_applied(*old(state), kind, outcome, *final(state)),
{
    state.note.status = text_of_start(kind, &outcome);
    let used = match kind {
        StartKind::Write => true,
        StartKind::Read => match &outcome {
            StartOutcome::NoRoot(_) => false,
            _ => true,
        },
        StartKind::Sequential => false,
    };
    if used {
        state.start.confirm = false;
    }
    match outcome {
        StartOutcome::Started(job) => {
            state.jobs.list.insert(0, job);
            state.jobs.index = 0;
            state.page = Page::Jobs;
            if kind == StartKind::Sequential {
                state.sequential.view = SequentialView::Menu;
            }
        },
        _ => {},
    }
}

} // verus!
