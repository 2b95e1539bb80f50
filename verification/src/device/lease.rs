//! Ownership of a tape drive across processes: one lock file for each drive, which says
//! who holds it.
use vstd::prelude::*;
use vstd::string::*;

use crate::paths::{join_path, join_spec};
use crate::text::{cat2, cat3, chars_of, decimal, decimal_spec, opt_view, trim, trimmed};

verus! {

/// Who holds a drive, and for what.
#[derive(Debug, Clone, PartialEq, Eq)]
pub struct LeaseOwner {
    pub kind: &'static str,
    pub operation: String,
    pub job_id: Option<String>,
}

impl LeaseOwner {
    pub fn new(kind: &'static str, operation: &str) -> (owner: Self)
        ensures
            owner.kind@ == kind@,
            owner.operation@ == operation@,
            owner.job_id is None,
    {
        LeaseOwner { kind, operation: operation.to_owned(), job_id: None }
    }

    pub fn job_runner(operation: &str, job_id: &str) -> (owner: Self)
        ensures
            owner.kind@ == "job-runner"@,
            owner.operation@ == operation@,
            opt_view(owner.job_id) == Some(job_id@),
    {
        LeaseOwner {
            kind: "job-runner",
            operation: operation.to_owned(),
            job_id: Some(job_id.to_owned()),
        }
    }

    /// What the lock file says of the owner.
    pub fn metadata(&self, pid: u32) -> (text: String)
        ensures
            text@ == "pid="@ + decimal_spec(pid as nat) + " kind="@ + self.kind@ + " operation="@
                + self.operation@ + (match self.job_id {
                Some(id) => " job="@ + id@,
                None => ""@,
            }),
    {
        let job = match &self.job_id {
            Some(id) => cat2(" job=", id.as_str()),
            None => "".to_owned(),
        };
        crate::text::cat7(
            "pid=",
            decimal(pid as u64).as_str(),
            " kind=",
            self.kind,
            " operation=",
            self.operation.as_str(),
            job.as_str(),
        )
    }
}

/// A character that a file name keeps.
pub open spec fn is_safe(c: char) -> bool {
    ('a' <= c <= 'z') || ('A' <= c <= 'Z') || ('0' <= c <= '9') || c == '-' || c == '_'
}

/// The serial with an underscore for every character that is not an ASCII letter, a
/// digit, a hyphen or an underscore.
pub open spec fn safe_serial_spec(serial: Seq<char>) -> Seq<char> {
    serial.map_values(
        |c: char|
            if is_safe(c) {
                c
            } else {
                '_'
            },
    )
}

pub fn safe_serial(serial: &str) -> (name: String)
    ensures
        name@ == safe_serial_spec(serial@),
{
    let chars = chars_of(serial);
    let mut name = String::new();
    let mut i: usize = 0;
    while i < chars.len()
        invariant
            i <= chars@.len(),
            chars@ == serial@,
            name@ == safe_serial_spec(serial@).subrange(0, i as int),
        decreases chars@.len() - i,
    {
        let c = chars[i];
        let safe = ('a' <= c && c <= 'z') || ('A' <= c && c <= 'Z') || ('0' <= c && c <= '9') || c
            == '-' || c == '_';
        name.push(if safe { c } else { '_' });
        i = i + 1;
        assert(name@ =~= safe_serial_spec(serial@).subrange(0, i as int));
    }
    assert(name@ =~= safe_serial_spec(serial@));
    name
}

/// The name of the lock file of a drive.
pub fn lock_name(serial: &str) -> (name: String)
    ensures
        name@ == safe_serial_spec(serial@) + ".lock"@,
{
    cat2(safe_serial(serial).as_str(), ".lock")
}

/// What is reported where the drive is held, given what its lock file says.
pub fn busy_message(serial: &str, metadata: &str) -> (text: String)
    ensures
        text@ == (if trimmed(metadata@).len() == 0 {
            "磁带机 "@ + serial@ + " 已被另一进程占用"@
        } else {
            "磁带机 "@ + serial@ + " 已被占用："@ + trimmed(metadata@)
        }),
{
    let owner = trim(metadata);
    if owner.as_str().is_empty() {
        cat3("磁带机 ", serial, " 已被另一进程占用")
    } else {
        crate::text::cat4("磁带机 ", serial, " 已被占用：", owner.as_str())
    }
}

/// The directory of the lock files, given the environment: below the runtime directory,
/// else below the state directory, else below the home directory.
pub fn runtime_lock_root(
    runtime: &Option<String>,
    state: &Option<String>,
    home: &Option<String>,
) -> (result: Result<String, String>)
    ensures
        match result {
            Ok(root) => root@ == (match (*runtime, *state, *home) {
                (Some(dir), _, _) => join_spec(dir@, "tapecpy/device-locks"@),
                (None, Some(dir), _) => join_spec(dir@, "tapecpy/device-locks"@),
                (None, None, Some(dir)) => join_spec(dir@, ".local/state/tapecpy/device-locks"@),
                (None, None, None) => Seq::empty(),
            }) && (runtime is Some || state is Some || home is Some),
            Err(message) => runtime is None && state is None && home is None && message@
                == "无法确定 XDG_RUNTIME_DIR、XDG_STATE_HOME 或 HOME"@,
        },
{
    match runtime {
        Some(dir) => {
            return Ok(join_path(dir.as_str(), "tapecpy/device-locks"));
        },
        None => {},
    }
    match state {
        Some(dir) => {
            return Ok(join_path(dir.as_str(), "tapecpy/device-locks"));
        },
        None => {},
    }
    match home {
        Some(dir) => Ok(join_path(dir.as_str(), ".local/state/tapecpy/device-locks")),
        None => Err("无法确定 XDG_RUNTIME_DIR、XDG_STATE_HOME 或 HOME".to_owned()),
    }
}

} // verus!
