//! What is ordered is what was chosen, and it fits the host that it was chosen on.
use vstd::prelude::*;

use super::start::{endpoint_for, read_ordered, write_ordered};
use super::state::UiState;
use crate::app::mounts::{mount_models, mount_of, MountModel, MountedFilesystem};
use crate::app::write_state::FloatBits;
use crate::job::id::JobId;
use crate::job::order::{mount_fault, JobSpec, Mounts, Resolved};
use crate::job::runner::RunnerActionModel;
use crate::job::runner_law::{job_run, job_takes_its_drive};
use crate::paths::{component_count, path_starts_with};

verus! {

/// A path lies on the mount whose mount point leads to it by the most names; of several
/// with as many, the last one covers the others. It lies on none where none leads to it.
pub proof fn path_lies_on_its_deepest_mount(list: Seq<MountModel>, path: Seq<char>)
    ensures
        match mount_of(list, path) {
            Some(k) => {
                &&& 0 <= k < list.len()
                &&& path_starts_with(path, list[k].mount_point)
                &&& forall|i: int|
                    0 <= i < list.len() && path_starts_with(path, (#[trigger] list[i]).mount_point)
                        ==> component_count(list[i].mount_point) <= component_count(
                        list[k].mount_point,
                    ) && (i > k ==> component_count(list[i].mount_point) < component_count(
                        list[k].mount_point,
                    ))
            },
            None => forall|i: int|
                0 <= i < list.len() ==> !path_starts_with(path, (#[trigger] list[i]).mount_point),
        },
    decreases list.len(),
{
    if list.len() > 0 {
        let rest = list.drop_last();
        path_lies_on_its_deepest_mount(rest, path);
        assert forall|i: int| 0 <= i < rest.len() implies rest[i] == #[trigger] list[i] by {}
        assert(list[list.len() - 1] == list.last());
        match mount_of(rest, path) {
            Some(k) => {
                assert(rest[k] == list[k]);
            },
            None => {},
        }
    }
}

/// An endpoint that was made of the mounts of a host is accepted on that host, and only there:
/// where its path has come to lie on a mount of another kind or of another source, or on
/// none, it is refused.
pub proof fn endpoint_is_bound_to_its_mount(
    mounts: Seq<MountedFilesystem>,
    path: String,
    resolved: Resolved,
    now: Mounts,
)
    requires
        resolved is Ok,
        resolved->Ok_0@ == path@,
        now is Ok,
        mount_of(mount_models(mounts), path@) is Some,
    ensures
        ({
            let then = mounts[mount_of(mount_models(mounts), path@)->0];
            let endpoint = endpoint_for(mounts, path);
            let list = now->Ok_0@;
            &&& endpoint.path == path
            &&& list == mounts ==> mount_fault(endpoint, resolved, now) is None
            &&& mount_fault(endpoint, resolved, now) is None <==> (mount_of(
                mount_models(list),
                path@,
            ) matches Some(k) && list[k].filesystem_type@ == then.filesystem_type@
                && list[k].source@ == then.source@)
        }),
{
}

/// The write that a job is ordered for is the one that was planned and confirmed: with the
/// drive that is shown, all roots of the plan in their order, the target on the tape, and
/// the choices that were made. The job takes that drive.
pub proof fn confirmed_write_is_ordered(
    s: UiState,
    id: JobId,
    now: String,
    canonical: Seq<Resolved>,
    fraction: Option<FloatBits>,
    t: UiState,
    order: JobSpec,
)
    requires
        write_ordered(s, id, now, canonical, fraction, t, Some(order)),
    ensures
        s.device.snapshot is Some,
        s.write.plan is Some,
        s.write.tape_target is Some,
        order.id == id,
        order.operation is Write,
        order.drive_serial == s.device.snapshot->0.drive.serial,
        order.drive_selector == s.device.snapshot->0.drive.sg_path,
        order.source_roots@.len() == s.write.plan->0.roots@.len(),
        forall|i: int|
            0 <= i < order.source_roots@.len() ==> (#[trigger] order.source_roots@[i]).path
                == s.write.plan->0.roots@[i],
        order.source.path == s.write.plan->0.roots@[0],
        order.destination.path == s.write.tape_target->0,
        order.read_back_verify == s.start.read_back_verify,
        order.completion_action == s.start.completion_action,
        job_run(order, Seq::empty()).1 matches RunnerActionModel::Lease { serial, job, .. }
            && serial == s.device.snapshot->0.drive.serial@ && job == id@,
{
    job_takes_its_drive(order);
}

/// The read that a job is ordered for is the one that was planned and confirmed: from the
/// drive that is shown, of the first selection, to the destination that was chosen; a fault
/// of the destination orders nothing.
pub proof fn confirmed_read_is_ordered(
    s: UiState,
    id: JobId,
    now: String,
    fault: Option<String>,
    t: UiState,
    result: Option<JobSpec>,
)
    requires
        read_ordered(s, id, now, fault, t, result),
    ensures
        fault is Some ==> result is None,
        result is None ==> t.read == s.read && t.device == s.device,
        result matches Some(order) ==> {
            &&& t == s
            &&& order.id == id
            &&& order.operation is Read
            &&& order.drive_serial == s.device.snapshot->0.drive.serial
            &&& order.drive_selector == s.device.snapshot->0.drive.sg_path
            &&& order.destination.path == s.read.destination->0
            &&& s.read.plan->0.selections@.len() > 0 ==> order.source.path@
                == s.read.plan->0.selections@[0]@
            &&& order.write_preflight is None
        },
{
}

} // verus!
