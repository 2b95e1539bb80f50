//! The scan of source roots: one root after the other, depth first, and the entries of a
//! directory by name.
//!
//! The scan names what it has to know next; whoever runs it looks, and tells it.
use vstd::prelude::*;
use vstd::string::*;

use super::flow::misfit;
use super::source::{
    overlaps_any, scanned, SourceEntry, SourceModel, SourcePlan, SourceScanProgress,
};
use crate::sort::{lemma_sorted_models, sorted_by, stable_sort, Ranked};
use crate::text::{cat2, lemma_text_le_total, lemma_text_le_trans, text_le, views};

verus! {

/// An entry of a directory, as it is listed.
#[derive(Debug, PartialEq, Eq)]
pub struct ScanChild {
    pub path: String,
    pub name: String,
    /// The name is UTF-8 on the host.
    pub utf8: bool,
}

/// The model of an entry.
#[verifier::ext_equal]
pub struct ChildModel {
    pub path: Seq<char>,
    pub name: Seq<char>,
    pub utf8: bool,
}

impl View for ScanChild {
    type V = ChildModel;

    open spec fn view(&self) -> ChildModel {
        ChildModel { path: self.path@, name: self.name@, utf8: self.utf8 }
    }
}

impl Ranked for ScanChild {
    open spec fn ranks_at_most(&self, other: &ScanChild) -> bool {
        text_le(self.name@, other.name@)
    }

    fn at_most(&self, other: &ScanChild) -> (yes: bool) {
        crate::text::at_most(self.name.as_str(), other.name.as_str())
    }

    proof fn ranks_total(a: &ScanChild, b: &ScanChild) {
        lemma_text_le_total(a.name@, b.name@);
    }

    proof fn ranks_transitive(a: &ScanChild, b: &ScanChild, c: &ScanChild) {
        lemma_text_le_trans(a.name@, b.name@, c.name@);
    }
}

pub open spec fn child_models(list: Seq<ScanChild>) -> Seq<ChildModel> {
    list.map_values(|c: ScanChild| c@)
}

/// The order of the entries of a directory.
pub open spec fn named_before() -> spec_fn(ChildModel, ChildModel) -> bool {
    |a: ChildModel, b: ChildModel| text_le(a.name, b.name)
}

/// The entries of a directory by name.
pub open spec fn by_name(list: Seq<ChildModel>) -> Seq<ChildModel> {
    sorted_by(list, named_before())
}

/// What a scan waits for.
#[derive(Debug, Clone, Copy, PartialEq, Eq, Structural)]
pub enum ScanStage {
    /// What a root resolves to.
    Root,
    /// What an entry is.
    Entry,
    /// What a directory holds.
    Children,
    /// Nothing: the scan is over.
    Ended,
}

/// A scan of source roots.
pub struct SourceScan {
    asked: Vec<String>,
    at: usize,
    plan: SourcePlan,
    pending: Vec<ScanChild>,
    stage: ScanStage,
}

/// The model of a scan.
#[verifier::ext_equal]
pub struct ScanState {
    /// The roots as they were asked for.
    pub asked: Seq<Seq<char>>,
    /// How many of them have been resolved.
    pub at: nat,
    /// What has been found.
    pub plan: SourceModel,
    /// What has to be looked at yet, the next one last.
    pub pending: Seq<ChildModel>,
    pub stage: ScanStage,
}

impl View for SourceScan {
    type V = ScanState;

    closed spec fn view(&self) -> ScanState {
        ScanState {
            asked: views(self.asked@),
            at: self.at as nat,
            plan: self.plan@,
            pending: child_models(self.pending@),
            stage: self.stage,
        }
    }
}

/// What the host says.
#[derive(Debug, PartialEq, Eq)]
pub enum ScanReply {
    /// The path that a root resolves to, unless it is a symbolic link.
    Resolved { symlink: bool, canonical: String },
    Entry(SourceEntry),
    Children(Vec<ScanChild>),
    Failed(String),
}

/// The model of what the host says.
pub enum ScanReplyModel {
    Resolved { symlink: bool, canonical: Seq<char> },
    Entry(SourceEntry),
    Children(Seq<ChildModel>),
    Failed(Seq<char>),
}

impl View for ScanReply {
    type V = ScanReplyModel;

    open spec fn view(&self) -> ScanReplyModel {
        match *self {
            ScanReply::Resolved { symlink, canonical } => ScanReplyModel::Resolved {
                symlink,
                canonical: canonical@,
            },
            ScanReply::Entry(entry) => ScanReplyModel::Entry(entry),
            ScanReply::Children(list) => ScanReplyModel::Children(child_models(list@)),
            ScanReply::Failed(message) => ScanReplyModel::Failed(message@),
        }
    }
}

/// What a scan does next: progress is reported first, where an entry was counted.
#[derive(Debug, PartialEq, Eq)]
pub struct ScanAction {
    pub progress: Option<SourceScanProgress>,
    pub question: ScanQuestion,
}

/// What a scan has to know next.
#[derive(Debug, PartialEq, Eq)]
pub enum ScanQuestion {
    Resolve { root: String },
    Look { path: String },
    List { path: String },
    Finished,
    Failed(String),
}

/// The model of what a scan does next.
pub struct ScanActionModel {
    /// The path that was counted, and the plan that counts it.
    pub progress: Option<(Seq<char>, SourceModel)>,
    pub question: QuestionModel,
}

/// The model of what a scan has to know next.
pub enum QuestionModel {
    Resolve { root: Seq<char> },
    Look { path: Seq<char> },
    List { path: Seq<char> },
    Finished,
    Failed(Seq<char>),
}

impl View for ScanQuestion {
    type V = QuestionModel;

    open spec fn view(&self) -> QuestionModel {
        match *self {
            ScanQuestion::Resolve { root } => QuestionModel::Resolve { root: root@ },
            ScanQuestion::Look { path } => QuestionModel::Look { path: path@ },
            ScanQuestion::List { path } => QuestionModel::List { path: path@ },
            ScanQuestion::Finished => QuestionModel::Finished,
            ScanQuestion::Failed(message) => QuestionModel::Failed(message@),
        }
    }
}

/// The progress tells of a path, and of the counts of a plan.
pub open spec fn tells(
    progress: Option<SourceScanProgress>,
    told: Option<(Seq<char>, SourceModel)>,
) -> bool {
    match (progress, told) {
        (None, None) => true,
        (Some(p), Some((path, plan))) => p.current_path@ == path && p.files_seen == plan.files.len()
            && p.directories_seen == plan.directories_total && p.payload_bytes
            == plan.payload_bytes,
        _ => false,
    }
}

/// The action is the one that its model describes.
pub open spec fn does(action: ScanAction, model: ScanActionModel) -> bool {
    action.question@ == model.question && tells(action.progress, model.progress)
}

/// A scan that is over.
pub open spec fn scan_ends(
    s: ScanState,
    told: Option<(Seq<char>, SourceModel)>,
    question: QuestionModel,
) -> (ScanState, ScanActionModel) {
    (
        ScanState { stage: ScanStage::Ended, ..s },
        ScanActionModel { progress: told, question },
    )
}

/// The scan goes on with the next entry, if there is one. A name that is not UTF-8 ends
/// it, and so does a request to stop.
pub open spec fn scan_goes_on(
    s: ScanState,
    told: Option<(Seq<char>, SourceModel)>,
    cancelled: bool,
) -> (ScanState, ScanActionModel) {
    if s.pending.len() == 0 {
        scan_ends(s, told, QuestionModel::Finished)
    } else if !s.pending.last().utf8 {
        scan_ends(
            s,
            told,
            QuestionModel::Failed("文件名不是 UTF-8: "@ + s.pending.last().path),
        )
    } else if cancelled {
        scan_ends(s, told, QuestionModel::Failed("[cancelled]source scan 已取消"@))
    } else {
        (
            ScanState { stage: ScanStage::Entry, ..s },
            ScanActionModel {
                progress: told,
                question: QuestionModel::Look { path: s.pending.last().path },
            },
        )
    }
}

/// A root as an entry.
pub open spec fn root_entry(path: Seq<char>) -> ChildModel {
    ChildModel { path, name: Seq::empty(), utf8: true }
}

/// The roots as entries.
pub open spec fn root_entries(roots: Seq<Seq<char>>) -> Seq<ChildModel> {
    roots.map_values(|path: Seq<char>| root_entry(path))
}

/// Why a root cannot be scanned with those that are there.
pub open spec fn root_fault(
    roots: Seq<Seq<char>>,
    root: Seq<char>,
    symlink: bool,
    canonical: Seq<char>,
) -> Option<Seq<char>> {
    if symlink {
        Some("第一阶段暂不写入符号链接: "@ + root)
    } else if overlaps_any(roots, canonical) {
        Some("source roots 重复或互相包含: "@ + root)
    } else {
        None
    }
}

/// A root has been resolved.
pub open spec fn root_resolved(s: ScanState, symlink: bool, canonical: Seq<char>, cancelled: bool) -> (
    ScanState,
    ScanActionModel,
) {
    match root_fault(s.plan.roots, s.asked[s.at as int], symlink, canonical) {
        Some(message) => scan_ends(s, None, QuestionModel::Failed(message)),
        None => {
            let roots = s.plan.roots.push(canonical);
            let t = ScanState { at: s.at + 1, plan: SourceModel { roots, ..s.plan }, ..s };
            if t.at < t.asked.len() {
                (
                    t,
                    ScanActionModel {
                        progress: None,
                        question: QuestionModel::Resolve { root: t.asked[t.at as int] },
                    },
                )
            } else {
                scan_goes_on(
                    ScanState { pending: root_entries(roots).reverse(), ..t },
                    None,
                    cancelled,
                )
            }
        },
    }
}

/// It is known what an entry is.
pub open spec fn entry_seen(s: ScanState, entry: SourceEntry, cancelled: bool) -> (
    ScanState,
    ScanActionModel,
) {
    let path = s.pending.last().path;
    match scanned(s.plan, path, entry, false) {
        Err(message) => scan_ends(s, None, QuestionModel::Failed(message)),
        Ok(plan) => {
            let told = Some((path, plan));
            if entry is Directory {
                (
                    ScanState { plan, stage: ScanStage::Children, ..s },
                    ScanActionModel { progress: told, question: QuestionModel::List { path } },
                )
            } else {
                scan_goes_on(
                    ScanState { plan, pending: s.pending.drop_last(), ..s },
                    told,
                    cancelled,
                )
            }
        },
    }
}

/// A directory has been listed: its entries are looked at by name, before anything else.
pub open spec fn children_listed(s: ScanState, list: Seq<ChildModel>, cancelled: bool) -> (
    ScanState,
    ScanActionModel,
) {
    scan_goes_on(
        ScanState { pending: s.pending.drop_last() + by_name(list).reverse(), ..s },
        None,
        cancelled,
    )
}

/// The next step of a scan, given what the host says.
pub open spec fn scan_next(s: ScanState, reply: ScanReplyModel, cancelled: bool) -> (
    ScanState,
    ScanActionModel,
) {
    match (s.stage, reply) {
        (ScanStage::Root, ScanReplyModel::Resolved { symlink, canonical }) => root_resolved(
            s,
            symlink,
            canonical,
            cancelled,
        ),
        (ScanStage::Entry, ScanReplyModel::Entry(entry)) => entry_seen(s, entry, cancelled),
        (ScanStage::Children, ScanReplyModel::Children(list)) => children_listed(
            s,
            list,
            cancelled,
        ),
        (_, ScanReplyModel::Failed(message)) => scan_ends(
            s,
            None,
            QuestionModel::Failed(message),
        ),
        _ => scan_ends(s, None, QuestionModel::Failed(misfit())),
    }
}

/// A scan that has not begun.
pub open spec fn scan_start(asked: Seq<Seq<char>>, scanned_at: Seq<char>) -> ScanState {
    ScanState {
        asked,
        at: 0,
        plan: SourceModel {
            roots: Seq::empty(),
            files: Seq::empty(),
            directories_total: 0,
            payload_bytes: 0,
            scanned_at,
        },
        pending: Seq::empty(),
        stage: ScanStage::Root,
    }
}

/// Begins a scan of roots; an error where there is none.
pub fn scan_source_roots(roots: Vec<String>, scanned_at: &str) -> (result: Result<
    (SourceScan, ScanAction),
    String,
>)
    ensures
        match result {
            Ok((scan, action)) => roots@.len() > 0 && scan.wf() && scan@ == scan_start(
                views(roots@),
                scanned_at@,
            ) && action.progress is None && action.question@ == (QuestionModel::Resolve {
                root: roots@[0]@,
            }),
            Err(message) => roots@.len() == 0 && message@ == "至少选择一个 source root"@,
        },
{
    if roots.len() == 0 {
        return Err("至少选择一个 source root".to_owned());
    }
    let root = roots[0].clone();
    let scan = SourceScan {
        asked: roots,
        at: 0,
        plan: SourcePlan::empty(scanned_at),
        pending: Vec::new(),
        stage: ScanStage::Root,
    };
    assert(scan@ =~= scan_start(views(roots@), scanned_at@));
    Ok((scan, ScanAction { progress: None, question: ScanQuestion::Resolve { root } }))
}

impl SourceScan {
    pub closed spec fn wf(&self) -> bool {
        &&& self.stage is Root ==> self.at < self.asked@.len()
        &&& self.stage is Entry ==> self.pending@.len() > 0
        &&& self.stage is Children ==> self.pending@.len() > 0
    }

    /// What the scan has found.
    pub fn into_plan(self) -> (plan: SourcePlan)
        ensures
            plan@ == self@.plan,
    {
        self.plan
    }

    fn end(&mut self, progress: Option<SourceScanProgress>, question: ScanQuestion) -> (action:
        ScanAction)
        ensures
            final(self).wf(),
            forall|told: Option<(Seq<char>, SourceModel)>| #[trigger]
                tells(progress, told) ==> final(self)@ == scan_ends(
                    old(self)@,
                    told,
                    question@,
                ).0 && does(action, scan_ends(old(self)@, told, question@).1),
    {
        self.stage = ScanStage::Ended;
        ScanAction { progress, question }
    }

    fn go_on(
        &mut self,
        progress: Option<SourceScanProgress>,
        cancelled: bool,
        Ghost(told): Ghost<Option<(Seq<char>, SourceModel)>>,
    ) -> (action: ScanAction)
        requires
            tells(progress, told),
        ensures
            final(self).wf(),
            final(self)@ == scan_goes_on(old(self)@, told, cancelled).0,
            does(action, scan_goes_on(old(self)@, told, cancelled).1),
    {
        if self.pending.len() == 0 {
            return self.end(progress, ScanQuestion::Finished);
        }
        let last: usize = self.pending.len() - 1;
        assert(child_models(self.pending@).last() == self.pending@[last as int]@);
        let path = self.pending[last].path.clone();
        if !self.pending[last].utf8 {
            return self.end(
                progress,
                ScanQuestion::Failed(cat2("文件名不是 UTF-8: ", path.as_str())),
            );
        }
        if cancelled {
            return self.end(
                progress,
                ScanQuestion::Failed("[cancelled]source scan 已取消".to_owned()),
            );
        }
        self.stage = ScanStage::Entry;
        ScanAction { progress, question: ScanQuestion::Look { path } }
    }

    fn queue_roots(&mut self)
        ensures
            final(self)@ == (ScanState {
                pending: root_entries(old(self)@.plan.roots).reverse(),
                ..old(self)@
            }),
    {
        let ghost wanted = root_entries(self@.plan.roots);
        let mut pending: Vec<ScanChild> = Vec::new();
        let mut i: usize = self.plan.roots.len();
        assert(child_models(pending@) =~= wanted.subrange(i as int, wanted.len() as int).reverse());
        while i > 0
            invariant
                i <= self.plan.roots@.len(),
                *self == *old(self),
                wanted == root_entries(self@.plan.roots),
                child_models(pending@) == wanted.subrange(
                    i as int,
                    wanted.len() as int,
                ).reverse(),
            decreases i,
        {
            i = i - 1;
            let ghost before = pending@;
            let child = ScanChild {
                path: self.plan.roots[i].clone(),
                name: String::new(),
                utf8: true,
            };
            assert(child@ =~= wanted[i as int]) by {
                assert(self@.plan.roots[i as int] == self.plan.roots@[i as int]@);
            }
            pending.push(child);
            assert(child_models(pending@) =~= child_models(before).push(child@));
            assert(child_models(pending@) =~= wanted.subrange(
                i as int,
                wanted.len() as int,
            ).reverse());
        }
        assert(wanted.subrange(0, wanted.len() as int) =~= wanted);
        self.pending = pending;
    }

    fn resolved(&mut self, symlink: bool, canonical: String, cancelled: bool) -> (action: ScanAction)
        requires
            old(self).wf(),
            old(self)@.stage is Root,
        ensures
            final(self).wf(),
            final(self)@ == root_resolved(old(self)@, symlink, canonical@, cancelled).0,
            does(action, root_resolved(old(self)@, symlink, canonical@, cancelled).1),
    {
        assert(self@.asked[self.at as int] == self.asked@[self.at as int]@);
        match self.plan.add_root(self.asked[self.at].as_str(), symlink, canonical.as_str()) {
            Err(message) => {
                assert(self@ =~= old(self)@);
                assert(tells(None, None));
                return self.end(None, ScanQuestion::Failed(message));
            },
            Ok(_) => {},
        }
        let count: usize = self.asked.len();
        assert(self.at < count);
        self.at = self.at + 1;
        if self.at < count {
            assert(self@.asked[self.at as int] == self.asked@[self.at as int]@);
            let root = self.asked[self.at].clone();
            return ScanAction { progress: None, question: ScanQuestion::Resolve { root } };
        }
        self.queue_roots();
        self.go_on(None, cancelled, Ghost(None))
    }

    fn seen(&mut self, entry: SourceEntry, cancelled: bool) -> (action: ScanAction)
        requires
            old(self).wf(),
            old(self)@.stage is Entry,
        ensures
            final(self).wf(),
            final(self)@ == entry_seen(old(self)@, entry, cancelled).0,
            does(action, entry_seen(old(self)@, entry, cancelled).1),
    {
        let last: usize = self.pending.len() - 1;
        assert(child_models(self.pending@).last() == self.pending@[last as int]@);
        let path = self.pending[last].path.clone();
        let progress = match self.plan.add_entry(path.as_str(), entry, false) {
            Err(message) => {
                assert(self@ =~= old(self)@);
                assert(tells(None, None));
                return self.end(None, ScanQuestion::Failed(message));
            },
            Ok(progress) => progress,
        };
        let ghost told = Some((path@, self.plan@));
        if entry == SourceEntry::Directory {
            self.stage = ScanStage::Children;
            return ScanAction { progress: Some(progress), question: ScanQuestion::List { path } };
        }
        let ghost before = self.pending@;
        let _ = self.pending.pop();
        assert(child_models(self.pending@) =~= child_models(before).drop_last());
        self.go_on(Some(progress), cancelled, Ghost(told))
    }

    fn listed(&mut self, list: Vec<ScanChild>, cancelled: bool) -> (action: ScanAction)
        requires
            old(self).wf(),
            old(self)@.stage is Children,
        ensures
            final(self).wf(),
            final(self)@ == children_listed(old(self)@, child_models(list@), cancelled).0,
            does(action, children_listed(old(self)@, child_models(list@), cancelled).1),
    {
        let ghost before = self.pending@;
        let _ = self.pending.pop();
        assert(child_models(self.pending@) =~= child_models(before).drop_last());
        let ghost base = child_models(self.pending@);
        let mut sorted = stable_sort(list);
        let ghost wanted = by_name(child_models(list@));
        proof {
            lemma_sorted_models(list@, |c: ScanChild| c@, named_before());
            assert(child_models(sorted@) == wanted);
            assert(base + wanted.subrange(sorted@.len() as int, wanted.len() as int).reverse()
                =~= base);
        }
        while sorted.len() > 0
            invariant
                sorted@.len() <= wanted.len(),
                child_models(sorted@) == wanted.subrange(0, sorted@.len() as int),
                child_models(self.pending@) == base + wanted.subrange(
                    sorted@.len() as int,
                    wanted.len() as int,
                ).reverse(),
                self.asked == old(self).asked,
                self.at == old(self).at,
                self.plan == old(self).plan,
                self.stage == old(self).stage,
            decreases sorted@.len(),
        {
            let ghost n = sorted@.len() as int;
            let ghost all = sorted@;
            match sorted.pop() {
                Some(child) => {
                    let ghost held = self.pending@;
                    assert(child@ == wanted[n - 1]) by {
                        assert(child_models(all)[n - 1] == wanted.subrange(0, n)[n - 1]);
                    }
                    self.pending.push(child);
                    assert(child_models(self.pending@) =~= child_models(held).push(child@));
                    assert(child_models(sorted@) =~= wanted.subrange(0, n - 1)) by {
                        assert(child_models(sorted@) =~= child_models(all).drop_last());
                    }
                    assert(child_models(self.pending@) =~= base + wanted.subrange(
                        n - 1,
                        wanted.len() as int,
                    ).reverse());
                },
                None => {},
            }
        }
        assert(wanted.subrange(0, wanted.len() as int) =~= wanted);
        self.go_on(None, cancelled, Ghost(None))
    }

    /// The next step, given what the host says and whether the scan was asked to stop.
    pub fn next(&mut self, reply: ScanReply, cancelled: bool) -> (action: ScanAction)
        requires
            old(self).wf(),
        ensures
            final(self).wf(),
            final(self)@ == scan_next(old(self)@, reply@, cancelled).0,
            does(action, scan_next(old(self)@, reply@, cancelled).1),
    {
        assert(tells(None, None));
        match (self.stage, reply) {
            (_, ScanReply::Failed(message)) => self.end(None, ScanQuestion::Failed(message)),
            (ScanStage::Root, ScanReply::Resolved { symlink, canonical }) => self.resolved(
                symlink,
                canonical,
                cancelled,
            ),
            (ScanStage::Entry, ScanReply::Entry(entry)) => self.seen(entry, cancelled),
            (ScanStage::Children, ScanReply::Children(list)) => self.listed(list, cancelled),
            _ => self.end(
                None,
                ScanQuestion::Failed("设备回应与命令不符".to_owned()),
            ),
        }
    }
}

} // verus!
