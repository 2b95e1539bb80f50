//! What a job is asked to do.
use vstd::prelude::*;
use vstd::string::*;

use super::id::{is_job_id, JobId};
use crate::app::mounts::{mount_models, mount_of, mounted_filesystem_for_path, MountedFilesystem};
use crate::app::source::{CapacityAssessment, CapacityStatus, SourcePlan};
use crate::app::write_state::FloatBits;
use crate::paths::{same_path, same_path_spec};
use crate::text::{cat3, cat4, clone_list, clone_opt, decimal, decimal_spec, same};

verus! {

/// The version of what jobs and their clients tell each other.
pub const PROTOCOL_VERSION: u16 = 1;

#[derive(Debug, Clone, Copy, PartialEq, Eq, Structural)]
pub enum OperationKind {
    Read,
    Write,
}

/// The name of an operation.
pub open spec fn operation_name(operation: OperationKind) -> Seq<char> {
    match operation {
        OperationKind::Read => "Read"@,
        OperationKind::Write => "Write"@,
    }
}

impl OperationKind {
    /// The name of an operation.
    pub fn name(self) -> (name: &'static str)
        ensures
            name@ == operation_name(self),
    {
        match self {
            OperationKind::Read => "Read",
            OperationKind::Write => "Write",
        }
    }
}

/// What happens to the cartridge once everything is committed.
#[derive(Debug, Clone, Copy, PartialEq, Eq, Structural)]
pub enum CompletionAction {
    KeepLoaded,
    EjectAfterCommit,
}

impl Default for CompletionAction {
    fn default() -> (action: CompletionAction)
        ensures
            action == CompletionAction::KeepLoaded,
    {
        CompletionAction::KeepLoaded
    }
}

/// Where data comes from or goes to, with the mount that it was on.
#[derive(Debug, PartialEq, Eq)]
pub struct Endpoint {
    pub path: String,
    pub filesystem_type: Option<String>,
    pub mount_source: Option<String>,
}

impl Clone for Endpoint {
    fn clone(&self) -> (copy: Endpoint)
        ensures
            copy == *self,
    {
        Endpoint {
            path: self.path.clone(),
            filesystem_type: clone_opt(&self.filesystem_type),
            mount_source: clone_opt(&self.mount_source),
        }
    }
}

#[derive(Debug, Clone, Copy, PartialEq, Eq, Structural)]
pub enum JobCapacityStatus {
    Normal,
    WarningAboveNinetyPercent,
    BlockedInsufficient,
    Unknown,
}

/// The status that a job keeps.
pub open spec fn job_capacity(status: CapacityStatus) -> JobCapacityStatus {
    match status {
        CapacityStatus::Normal => JobCapacityStatus::Normal,
        CapacityStatus::WarningAboveNinetyPercent => JobCapacityStatus::WarningAboveNinetyPercent,
        CapacityStatus::BlockedInsufficient => JobCapacityStatus::BlockedInsufficient,
        CapacityStatus::Unknown => JobCapacityStatus::Unknown,
    }
}

impl From<CapacityStatus> for JobCapacityStatus {
    fn from(value: CapacityStatus) -> (status: JobCapacityStatus) {
        match value {
            CapacityStatus::Normal => JobCapacityStatus::Normal,
            CapacityStatus::WarningAboveNinetyPercent =>
                JobCapacityStatus::WarningAboveNinetyPercent,
            CapacityStatus::BlockedInsufficient => JobCapacityStatus::BlockedInsufficient,
            CapacityStatus::Unknown => JobCapacityStatus::Unknown,
        }
    }
}

impl vstd::std_specs::convert::FromSpecImpl<CapacityStatus> for JobCapacityStatus {
    open spec fn obeys_from_spec() -> bool {
        true
    }

    open spec fn from_spec(v: CapacityStatus) -> JobCapacityStatus {
        job_capacity(v)
    }
}

/// What was found and confirmed before a write.
#[derive(Debug, PartialEq, Eq)]
pub struct WritePreflight {
    pub roots: Vec<String>,
    pub files_total: usize,
    pub directories_total: usize,
    pub payload_bytes: u64,
    pub scanned_at: String,
    pub available_bytes: Option<u64>,
    pub planned_fraction: Option<FloatBits>,
    pub capacity_sampled_at: String,
    pub capacity_status: JobCapacityStatus,
    pub warning_acknowledged: bool,
}

/// Two preflights hold the same.
pub open spec fn same_preflight(a: WritePreflight, b: WritePreflight) -> bool {
    a.roots@ == b.roots@ && a == (WritePreflight { roots: a.roots, ..b })
}

impl Clone for WritePreflight {
    fn clone(&self) -> (copy: WritePreflight)
        ensures
            same_preflight(copy, *self),
    {
        WritePreflight {
            roots: clone_list(&self.roots),
            files_total: self.files_total,
            directories_total: self.directories_total,
            payload_bytes: self.payload_bytes,
            scanned_at: self.scanned_at.clone(),
            available_bytes: self.available_bytes,
            planned_fraction: self.planned_fraction,
            capacity_sampled_at: self.capacity_sampled_at.clone(),
            capacity_status: self.capacity_status,
            warning_acknowledged: self.warning_acknowledged,
        }
    }
}

/// What a job is asked to do.
#[derive(Debug, PartialEq, Eq)]
pub struct JobSpec {
    pub protocol_version: u16,
    pub id: JobId,
    pub operation: OperationKind,
    pub drive_selector: String,
    pub drive_serial: String,
    pub source: Endpoint,
    pub source_roots: Vec<Endpoint>,
    pub destination: Endpoint,
    pub read_back_verify: bool,
    pub completion_action: CompletionAction,
    pub volume_barcode: Option<String>,
    pub volume_name: Option<String>,
    pub created_at: String,
    pub write_preflight: Option<WritePreflight>,
}

/// Two orders ask for the same.
pub open spec fn same_order(a: JobSpec, b: JobSpec) -> bool {
    a.source_roots@ == b.source_roots@ && (match (a.write_preflight, b.write_preflight) {
        (Some(p), Some(q)) => same_preflight(p, q),
        (None, None) => true,
        _ => false,
    }) && a == (JobSpec {
        source_roots: a.source_roots,
        write_preflight: a.write_preflight,
        ..b
    })
}

fn copy_endpoints(list: &Vec<Endpoint>) -> (copy: Vec<Endpoint>)
    ensures
        copy@ == list@,
{
    let mut copy: Vec<Endpoint> = Vec::new();
    let mut i: usize = 0;
    while i < list.len()
        invariant
            i <= list@.len(),
            copy@ == list@.subrange(0, i as int),
        decreases list@.len() - i,
    {
        copy.push(list[i].clone());
        i = i + 1;
        assert(copy@ =~= list@.subrange(0, i as int));
    }
    assert(copy@ =~= list@);
    copy
}

impl Clone for JobSpec {
    fn clone(&self) -> (copy: JobSpec)
        ensures
            same_order(copy, *self),
    {
        JobSpec {
            protocol_version: self.protocol_version,
            id: self.id.clone(),
            operation: self.operation,
            drive_selector: self.drive_selector.clone(),
            drive_serial: self.drive_serial.clone(),
            source: self.source.clone(),
            source_roots: copy_endpoints(&self.source_roots),
            destination: self.destination.clone(),
            read_back_verify: self.read_back_verify,
            completion_action: self.completion_action,
            volume_barcode: clone_opt(&self.volume_barcode),
            volume_name: clone_opt(&self.volume_name),
            created_at: self.created_at.clone(),
            write_preflight: match &self.write_preflight {
                Some(p) => Some(p.clone()),
                None => None,
            },
        }
    }
}

/// The roots that a write takes its data from.
pub open spec fn effective_roots(order: JobSpec) -> Seq<Endpoint> {
    if order.source_roots@.len() == 0 {
        seq![order.source]
    } else {
        order.source_roots@
    }
}

/// What is wrong with a preflight.
pub open spec fn preflight_fault(order: JobSpec, p: WritePreflight) -> Option<Seq<char>> {
    if !(order.operation is Write) {
        Some("只有 Write job 可以携带 write preflight"@)
    } else if p.roots@.len() == 0 {
        Some("write preflight 至少需要一个 source root"@)
    } else if p.roots@.len() != effective_roots(order).len() {
        Some("write preflight 与 job source roots 数量不一致"@)
    } else if p.capacity_status is BlockedInsufficient {
        Some("source payload 超过 LTFS available capacity"@)
    } else if (p.capacity_status is WarningAboveNinetyPercent || p.capacity_status is Unknown)
        && !p.warning_acknowledged {
        Some("capacity warning 尚未由用户确认"@)
    } else {
        None
    }
}

/// What is wrong with an order.
pub open spec fn order_fault(order: JobSpec) -> Option<Seq<char>> {
    if order.protocol_version != PROTOCOL_VERSION {
        Some(
            "不支持 job protocol version "@ + decimal_spec(order.protocol_version as nat)
                + "（当前为 "@ + decimal_spec(PROTOCOL_VERSION as nat) + "）"@,
        )
    } else if !is_job_id(order.id@) {
        Some("无效 job id"@)
    } else if order.drive_selector@.len() == 0 || order.drive_serial@.len() == 0 {
        Some("job 缺少明确的磁带机身份"@)
    } else if order.source.path@.len() == 0 || order.destination.path@.len() == 0 {
        Some("job source/destination 不能为空"@)
    } else if order.operation is Read && order.destination.path@ == "-"@ {
        Some("脱离式 Read 不能使用 stdout，必须指定输出文件或目录"@)
    } else if order.operation is Read && (order.read_back_verify || !(
    order.completion_action is KeepLoaded)) {
        Some("Read job 不能使用 Write read-back verify 或提交后 eject 策略"@)
    } else {
        match order.write_preflight {
            Some(p) => preflight_fault(order, p),
            None => None,
        }
    }
}

/// The roots of a plan are those of the order, as the host resolves them.
pub open spec fn same_roots(roots: Seq<String>, canonical: Seq<Seq<char>>) -> bool {
    roots.len() == canonical.len() && forall|i: int|
        0 <= i < roots.len() ==> same_path_spec(#[trigger] roots[i]@, canonical[i])
}

/// What a host path resolves to, or why it does not.
pub type Resolved = Result<String, String>;

/// The first path that cannot be resolved.
pub open spec fn first_unresolved(list: Seq<Resolved>) -> int
    decreases list.len(),
{
    if list.len() == 0 || list[0] is Err {
        0
    } else {
        1 + first_unresolved(list.drop_first())
    }
}

pub open spec fn resolved_paths(list: Seq<Resolved>) -> Seq<Seq<char>> {
    list.map_values(
        |r: Resolved|
            match r {
                Ok(path) => path@,
                Err(_) => Seq::empty(),
            },
    )
}

/// Why a preflight cannot go with an order.
pub open spec fn attach_fault(
    order: JobSpec,
    canonical: Seq<Resolved>,
    plan: SourcePlan,
    capacity: CapacityAssessment,
) -> Option<Seq<char>> {
    let k = first_unresolved(canonical);
    if !(order.operation is Write) {
        Some("Read job 不能携带 write preflight"@)
    } else if k < canonical.len() {
        Some(
            "无法确认 write source "@ + effective_roots(order)[k].path@ + ": "@
                + canonical[k]->Err_0@,
        )
    } else if !same_roots(plan.roots@, resolved_paths(canonical)) {
        Some("source plan 与 job source 不一致"@)
    } else if capacity.payload_bytes != plan.payload_bytes {
        Some("capacity assessment 与 source plan 不一致"@)
    } else {
        None
    }
}

/// The preflight of a plan and its capacity.
pub open spec fn preflight_of(
    p: WritePreflight,
    plan: SourcePlan,
    capacity: CapacityAssessment,
    planned_fraction: Option<FloatBits>,
    warning_acknowledged: bool,
) -> bool {
    &&& p.roots@ == plan.roots@
    &&& p.files_total == plan.files@.len()
    &&& p.directories_total == plan.directories_total
    &&& p.payload_bytes == plan.payload_bytes
    &&& p.scanned_at == plan.scanned_at
    &&& p.available_bytes == capacity.available_bytes
    &&& p.planned_fraction == planned_fraction
    &&& p.capacity_sampled_at == capacity.sampled_at
    &&& p.capacity_status == job_capacity(capacity.status)
    &&& p.warning_acknowledged == warning_acknowledged
}

fn is_empty(text: &String) -> (yes: bool)
    ensures
        yes == (text@.len() == 0),
{
    text.as_str().unicode_len() == 0
}

impl JobSpec {
    /// An order that keeps the cartridge loaded.
    pub fn new(
        id: JobId,
        operation: OperationKind,
        drive_selector: String,
        drive_serial: String,
        source: Endpoint,
        destination: Endpoint,
        read_back_verify: bool,
        created_at: String,
    ) -> (order: JobSpec)
        ensures
            order == (JobSpec {
                protocol_version: PROTOCOL_VERSION,
                id,
                operation,
                drive_selector,
                drive_serial,
                source,
                source_roots: order.source_roots,
                destination,
                read_back_verify,
                completion_action: CompletionAction::KeepLoaded,
                volume_barcode: None,
                volume_name: None,
                created_at,
                write_preflight: None,
            }),
            order.source_roots@.len() == 0,
    {
        JobSpec {
            protocol_version: PROTOCOL_VERSION,
            id,
            operation,
            drive_selector,
            drive_serial,
            source,
            source_roots: Vec::new(),
            destination,
            read_back_verify,
            completion_action: CompletionAction::KeepLoaded,
            volume_barcode: None,
            volume_name: None,
            created_at,
            write_preflight: None,
        }
    }

    /// The order with what happens at its end, and the volume that it is for.
    pub fn with_completion(
        self,
        action: CompletionAction,
        barcode: Option<String>,
        volume_name: Option<String>,
    ) -> (order: JobSpec)
        ensures
            order == (JobSpec {
                completion_action: action,
                volume_barcode: barcode,
                volume_name,
                ..self
            }),
    {
        let mut order = self;
        order.completion_action = action;
        order.volume_barcode = barcode;
        order.volume_name = volume_name;
        order
    }

    /// The order with several roots.
    pub fn with_source_roots(self, source_roots: Vec<Endpoint>) -> (order: JobSpec)
        ensures
            order == (JobSpec { source_roots, ..self }),
    {
        let mut order = self;
        order.source_roots = source_roots;
        order
    }

    /// The roots that a write takes its data from.
    pub fn effective_source_roots(&self) -> (roots: Vec<Endpoint>)
        ensures
            roots@ == effective_roots(*self),
    {
        if self.source_roots.len() == 0 {
            let mut roots: Vec<Endpoint> = Vec::new();
            roots.push(self.source.clone());
            assert(roots@ =~= effective_roots(*self));
            roots
        } else {
            copy_endpoints(&self.source_roots)
        }
    }

    /// The order with what was found and confirmed before the write. `canonical` holds
    /// what the host resolves the source roots to.
    pub fn with_write_preflight(
        self,
        canonical: &Vec<Resolved>,
        plan: &SourcePlan,
        capacity: &CapacityAssessment,
        planned_fraction: Option<FloatBits>,
        warning_acknowledged: bool,
    ) -> (result: Result<JobSpec, String>)
        requires
            canonical@.len() == effective_roots(self).len(),
        ensures
            match result {
                Ok(order) => attach_fault(self, canonical@, *plan, *capacity) is None
                    && order.write_preflight is Some && preflight_of(
                    order.write_preflight->0,
                    *plan,
                    *capacity,
                    planned_fraction,
                    warning_acknowledged,
                ) && order == (JobSpec { write_preflight: order.write_preflight, ..self })
                    && order_fault(order) is None,
                Err(message) => match attach_fault(self, canonical@, *plan, *capacity) {
                    Some(fault) => message@ == fault,
                    None => exists|p: WritePreflight|
                        #![trigger preflight_of(p, *plan, *capacity, planned_fraction, warning_acknowledged)]
                        preflight_of(p, *plan, *capacity, planned_fraction, warning_acknowledged)
                            && order_fault(JobSpec { write_preflight: Some(p), ..self }) == Some(
                            message@,
                        ),
                },
            },
    {
        let mut order = self;
        if order.operation != OperationKind::Write {
            return Err("Read job 不能携带 write preflight".to_owned());
        }
        let roots = order.effective_source_roots();
        let mut i: usize = 0;
        assert(canonical@.subrange(0, canonical@.len() as int) =~= canonical@);
        while i < canonical.len()
            invariant
                i <= canonical@.len(),
                canonical@.len() == roots@.len(),
                roots@ == effective_roots(self),
                self.operation is Write,
                first_unresolved(canonical@) == i + first_unresolved(
                    canonical@.subrange(i as int, canonical@.len() as int),
                ),
                forall|j: int| 0 <= j < i ==> #[trigger] canonical@[j] is Ok,
            decreases canonical@.len() - i,
        {
            let ghost rest = canonical@.subrange(i as int, canonical@.len() as int);
            assert(rest[0] == canonical@[i as int]);
            assert(rest.drop_first() =~= canonical@.subrange(i + 1, canonical@.len() as int));
            match &canonical[i] {
                Err(message) => {
                    return Err(
                        cat4(
                            "无法确认 write source ",
                            roots[i].path.as_str(),
                            ": ",
                            message.as_str(),
                        ),
                    );
                },
                Ok(_) => {},
            }
            i = i + 1;
        }
        assert(first_unresolved(canonical@) == canonical@.len()) by {
            assert(canonical@.subrange(i as int, canonical@.len() as int).len() == 0);
        }
        let ghost paths = resolved_paths(canonical@);
        if plan.roots.len() != canonical.len() {
            assert(!same_roots(plan.roots@, paths));
            return Err("source plan 与 job source 不一致".to_owned());
        }
        let mut j: usize = 0;
        while j < canonical.len()
            invariant
                j <= canonical@.len(),
                plan.roots@.len() == canonical@.len(),
                paths == resolved_paths(canonical@),
                self.operation is Write,
                first_unresolved(canonical@) == canonical@.len(),
                forall|k: int| 0 <= k < canonical@.len() ==> #[trigger] canonical@[k] is Ok,
                forall|k: int|
                    0 <= k < j ==> same_path_spec(#[trigger] plan.roots@[k]@, paths[k]),
            decreases canonical@.len() - j,
        {
            match &canonical[j] {
                Ok(path) => {
                    assert(paths[j as int] == path@);
                    if !same_path(plan.roots[j].as_str(), path.as_str()) {
                        assert(!same_roots(plan.roots@, paths));
                        return Err("source plan 与 job source 不一致".to_owned());
                    }
                },
                Err(_) => {},
            }
            j = j + 1;
        }
        if capacity.payload_bytes != plan.payload_bytes {
            return Err("capacity assessment 与 source plan 不一致".to_owned());
        }
        let p = WritePreflight {
            roots: clone_list(&plan.roots),
            files_total: plan.files.len(),
            directories_total: plan.directories_total,
            payload_bytes: plan.payload_bytes,
            scanned_at: plan.scanned_at.clone(),
            available_bytes: capacity.available_bytes,
            planned_fraction,
            capacity_sampled_at: capacity.sampled_at.clone(),
            capacity_status: JobCapacityStatus::from(capacity.status),
            warning_acknowledged,
        };
        assert(preflight_of(p, *plan, *capacity, planned_fraction, warning_acknowledged));
        order.write_preflight = Some(p);
        match order.validate() {
            Ok(_) => Ok(order),
            Err(message) => Err(message),
        }
    }

    /// Whether an order can be carried out.
    pub fn validate(&self) -> (result: Result<(), String>)
        ensures
            match result {
                Ok(_) => order_fault(*self) is None,
                Err(message) => order_fault(*self) == Some(message@),
            },
    {
        if self.protocol_version != PROTOCOL_VERSION {
            let mut text = cat4(
                "不支持 job protocol version ",
                decimal(self.protocol_version as u64).as_str(),
                "（当前为 ",
                decimal(PROTOCOL_VERSION as u64).as_str(),
            );
            text.append("）");
            return Err(text);
        }
        match JobId::parse(self.id.as_str()) {
            Ok(_) => {},
            Err(message) => {
                return Err(message);
            },
        }
        if is_empty(&self.drive_selector) || is_empty(&self.drive_serial) {
            return Err("job 缺少明确的磁带机身份".to_owned());
        }
        if is_empty(&self.source.path) || is_empty(&self.destination.path) {
            return Err("job source/destination 不能为空".to_owned());
        }
        let reads = self.operation == OperationKind::Read;
        if reads && same(self.destination.path.as_str(), "-") {
            return Err("脱离式 Read 不能使用 stdout，必须指定输出文件或目录".to_owned());
        }
        if reads && (self.read_back_verify || self.completion_action
            != CompletionAction::KeepLoaded) {
            return Err(
                "Read job 不能使用 Write read-back verify 或提交后 eject 策略".to_owned(),
            );
        }
        match &self.write_preflight {
            None => {},
            Some(p) => {
                let roots: usize = if self.source_roots.len() == 0 {
                    1
                } else {
                    self.source_roots.len()
                };
                assert(roots == effective_roots(*self).len());
                if self.operation != OperationKind::Write {
                    return Err("只有 Write job 可以携带 write preflight".to_owned());
                }
                if p.roots.len() == 0 {
                    return Err("write preflight 至少需要一个 source root".to_owned());
                }
                if p.roots.len() != roots {
                    return Err("write preflight 与 job source roots 数量不一致".to_owned());
                }
                if p.capacity_status == JobCapacityStatus::BlockedInsufficient {
                    return Err("source payload 超过 LTFS available capacity".to_owned());
                }
                if (p.capacity_status == JobCapacityStatus::WarningAboveNinetyPercent
                    || p.capacity_status == JobCapacityStatus::Unknown)
                    && !p.warning_acknowledged {
                    return Err("capacity warning 尚未由用户确认".to_owned());
                }
            },
        }
        Ok(())
    }
}

/// An order that can be carried out never fills a tape beyond its capacity, and fills it
/// beyond nine tenths, or without knowing its capacity, only where that was confirmed.
pub proof fn valid_order_is_confirmed(order: JobSpec)
    requires
        order_fault(order) is None,
    ensures
        match order.write_preflight {
            Some(p) => order.operation is Write && !(p.capacity_status is BlockedInsufficient) && (
            p.capacity_status is Normal || p.warning_acknowledged),
            None => true,
        },
        order.operation is Read ==> order.completion_action is KeepLoaded
            && !order.read_back_verify,
{
}

// ---------------------------------------------------------------------------
// Mounts
// ---------------------------------------------------------------------------

/// What the host has mounted, or why that is not known.
pub type Mounts = Result<Vec<MountedFilesystem>, String>;

/// Why an endpoint is no longer on the mount that it was planned on, given what its path
/// resolves to.
pub open spec fn mount_fault(endpoint: Endpoint, resolved: Resolved, mounts: Mounts) -> Option<
    Seq<char>,
> {
    match (endpoint.filesystem_type, endpoint.mount_source) {
        (Some(kind), Some(source)) => match (resolved, mounts) {
            (Err(message), _) => Some(message@),
            (_, Err(message)) => Some(message@),
            (Ok(path), Ok(list)) => match mount_of(mount_models(list@), path@) {
                None => Some("host path "@ + endpoint.path@ + " 当前不属于任何 mount"@),
                Some(k) => {
                    let current = list@[k];
                    if current.filesystem_type@ != kind@ || current.source@ != source@ {
                        Some(
                            "host mount identity changed for "@ + endpoint.path@ + ": planned "@
                                + kind@ + " "@ + source@ + ", current "@
                                + current.filesystem_type@ + " "@ + current.source@,
                        )
                    } else {
                        None
                    }
                },
            },
        },
        _ => None,
    }
}

/// Whether an endpoint is still on the mount that it was planned on, given what its path
/// resolves to.
pub fn validate_host_mount(endpoint: &Endpoint, resolved: &Resolved, mounts: &Mounts) -> (result:
    Result<(), String>)
    ensures
        match result {
            Ok(_) => mount_fault(*endpoint, *resolved, *mounts) is None,
            Err(message) => mount_fault(*endpoint, *resolved, *mounts) == Some(message@),
        },
{
    match (&endpoint.filesystem_type, &endpoint.mount_source) {
        (Some(kind), Some(source)) => match (resolved, mounts) {
            (Err(message), _) => Err(message.clone()),
            (_, Err(message)) => Err(message.clone()),
            (Ok(path), Ok(list)) => match mounted_filesystem_for_path(list, path.as_str()) {
                None => Err(
                    cat3("host path ", endpoint.path.as_str(), " 当前不属于任何 mount"),
                ),
                Some(current) => {
                    if !same(current.filesystem_type.as_str(), kind.as_str()) || !same(
                        current.source.as_str(),
                        source.as_str(),
                    ) {
                        let mut text = cat4(
                            "host mount identity changed for ",
                            endpoint.path.as_str(),
                            ": planned ",
                            kind.as_str(),
                        );
                        text.append(" ");
                        text.append(source.as_str());
                        text.append(", current ");
                        text.append(current.filesystem_type.as_str());
                        text.append(" ");
                        text.append(current.source.as_str());
                        return Err(text);
                    }
                    Ok(())
                },
            },
        },
        _ => Ok(()),
    }
}

} // verus!
