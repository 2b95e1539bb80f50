//! The names of jobs, and where their files lie.
use vstd::prelude::*;
use vstd::string::*;

use crate::paths::{join_path, join_spec};
use crate::text::{cat3, hex_padded, hex_spec, hex_wide, lemma_hex_shape, opt_view, pow16};

verus! {

/// A character of a job id.
pub open spec fn is_id_char(c: char) -> bool {
    ('a' <= c && c <= 'z') || ('A' <= c && c <= 'Z') || ('0' <= c && c <= '9') || c == '-' || c
        == '_'
}

/// A text that can name a job.
pub open spec fn is_job_id(text: Seq<char>) -> bool {
    0 < text.len() <= 80 && forall|i: int| 0 <= i < text.len() ==> is_id_char(#[trigger] text[i])
}

/// The name of a job.
#[derive(Debug, PartialEq, Eq)]
pub struct JobId(String);

impl View for JobId {
    type V = Seq<char>;

    closed spec fn view(&self) -> Seq<char> {
        self.0@
    }
}

impl Clone for JobId {
    fn clone(&self) -> (copy: JobId)
        ensures
            copy == *self,
    {
        JobId(self.0.clone())
    }
}

impl JobId {
    /// The name of a job that is made at a time, in nanoseconds, by a process.
    pub fn new(nanos: u128, process: u32) -> (id: JobId)
        ensures
            id@ == hex_spec(nanos as nat, 32) + "-"@ + hex_spec(process as nat, 8),
            is_job_id(id@),
    {
        let id = JobId(
            cat3(
                hex_wide(nanos, 32).as_str(),
                "-",
                hex_padded(process as u64, 8).as_str(),
            ),
        );
        proof {
            reveal_strlit("-");
            reveal_with_fuel(pow16, 33);
            lemma_hex_shape(nanos as nat, 32);
            lemma_hex_shape(process as nat, 8);
            let a = hex_spec(nanos as nat, 32);
            let b = hex_spec(process as nat, 8);
            assert forall|i: int| 0 <= i < id@.len() implies is_id_char(#[trigger] id@[i]) by {
                if i < a.len() {
                    assert(id@[i] == a[i]);
                } else if i == a.len() {
                    assert(id@[i] == '-');
                } else {
                    assert(id@[i] == b[i - a.len() - 1]);
                }
            }
        }
        id
    }

    /// The name of a job that a text gives.
    pub fn parse(value: &str) -> (result: Result<JobId, String>)
        ensures
            match result {
                Ok(id) => is_job_id(value@) && id@ == value@,
                Err(message) => !is_job_id(value@) && message@ == "无效 job id"@,
            },
    {
        let len: usize = value.unicode_len();
        if len == 0 || len > 80 {
            return Err("无效 job id".to_owned());
        }
        let mut i: usize = 0;
        while i < len
            invariant
                i <= len,
                len == value@.len(),
                0 < len <= 80,
                forall|j: int| 0 <= j < i ==> is_id_char(#[trigger] value@[j]),
            decreases len - i,
        {
            let c = value.get_char(i);
            if !(('a' <= c && c <= 'z') || ('A' <= c && c <= 'Z') || ('0' <= c && c <= '9') || c
                == '-' || c == '_') {
                assert(!is_id_char(value@[i as int]));
                return Err("无效 job id".to_owned());
            }
            i = i + 1;
        }
        Ok(JobId(value.to_owned()))
    }

    pub fn as_str(&self) -> (text: &str)
        ensures
            text@ == self@,
    {
        self.0.as_str()
    }
}

/// Where the files of a job lie.
#[derive(Debug, PartialEq, Eq)]
pub struct JobPaths {
    pub directory: String,
    pub spec: String,
    pub state: String,
    pub socket: String,
    pub log: String,
}

impl JobPaths {
    /// The files of a job below a root.
    pub fn new(root: &str, id: &JobId) -> (paths: JobPaths)
        ensures
            paths.directory@ == join_spec(root@, id@),
            paths.spec@ == join_spec(paths.directory@, "spec.json"@),
            paths.state@ == join_spec(paths.directory@, "state.json"@),
            paths.socket@ == join_spec(paths.directory@, "control.sock"@),
            paths.log@ == join_spec(paths.directory@, "runner.log"@),
    {
        let directory = join_path(root, id.as_str());
        JobPaths {
            spec: join_path(directory.as_str(), "spec.json"),
            state: join_path(directory.as_str(), "state.json"),
            socket: join_path(directory.as_str(), "control.sock"),
            log: join_path(directory.as_str(), "runner.log"),
            directory,
        }
    }
}

/// Where jobs lie, from the environment.
pub open spec fn job_root(state_home: Option<Seq<char>>, home: Option<Seq<char>>) -> Result<
    Seq<char>,
    Seq<char>,
> {
    match (state_home, home) {
        (Some(path), _) => Ok(join_spec(path, "tapecpy/jobs"@)),
        (None, Some(path)) => Ok(join_spec(path, ".local/state/tapecpy/jobs"@)),
        (None, None) => Err("无法确定 HOME"@),
    }
}

/// Where jobs lie, from `XDG_STATE_HOME` and `HOME`.
pub fn default_job_root(state_home: Option<String>, home: Option<String>) -> (result: Result<
    String,
    String,
>)
    ensures
        match result {
            Ok(path) => job_root(opt_view(state_home), opt_view(home)) == Ok::<
                Seq<char>,
                Seq<char>,
            >(path@),
            Err(message) => job_root(opt_view(state_home), opt_view(home)) == Err::<
                Seq<char>,
                Seq<char>,
            >(message@),
        },
{
    match (state_home, home) {
        (Some(path), _) => Ok(join_path(path.as_str(), "tapecpy/jobs")),
        (None, Some(path)) => Ok(join_path(path.as_str(), ".local/state/tapecpy/jobs")),
        (None, None) => Err("无法确定 HOME".to_owned()),
    }
}

} // verus!
