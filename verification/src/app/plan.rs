//! Planning a write: what is added to the index, and which files are to be written.
use vstd::prelude::*;
use vstd::string::*;

use super::source::{contains_entry, has_entry, root_name_spec, source_root_name, target_path};
use crate::ltfs::index::{
    attribute_entries, directory_at, entry_models, inserted, lemma_entries, path_parts,
    AttributeEntry, DirModel, Directory, DirectoryEntry, EntryModel, ExtendedAttribute, FileEntry,
    FileModel, FileTimes, Index, IndexModel, TimesModel,
};
use crate::sort::{sorted_places, sorted_value_was_there, stably_sorted, Ranked};
use crate::text::{
    cat2, cat3, cat4, decimal, decimal_spec, lemma_text_le_total, lemma_text_le_trans, rsplit_once,
    rsplit_once_spec, same, text_le, trim_end_char, trim_start_char, without_leading,
    without_trailing,
};

verus! {

/// What an entry of a source tree is.
#[derive(Debug, PartialEq, Eq)]
pub enum SourceKind {
    Symlink,
    File { size: u64 },
    Directory { children: Vec<SourceNode> },
    Other,
    /// It could not be read; why.
    Failed { message: String },
    /// A file that cannot be opened, or a directory that cannot be listed.
    Unreadable { message: String },
}

/// An entry of a source tree.
#[derive(Debug, PartialEq, Eq)]
pub struct SourceNode {
    pub path: String,
    /// The last component of the path.
    pub file_name: String,
    /// The file name is UTF-8 on the host.
    pub utf8: bool,
    pub kind: SourceKind,
}

impl Ranked for SourceNode {
    open spec fn ranks_at_most(&self, other: &SourceNode) -> bool {
        text_le(self.file_name@, other.file_name@)
    }

    fn at_most(&self, other: &SourceNode) -> (yes: bool) {
        crate::text::at_most(self.file_name.as_str(), other.file_name.as_str())
    }

    proof fn ranks_total(a: &SourceNode, b: &SourceNode) {
        lemma_text_le_total(a.file_name@, b.file_name@);
    }

    proof fn ranks_transitive(a: &SourceNode, b: &SourceNode, c: &SourceNode) {
        lemma_text_le_trans(a.file_name@, b.file_name@, c.file_name@);
    }
}

/// Where the bytes of a planned file come from.
#[derive(Debug, PartialEq, Eq)]
pub enum PlannedSource {
    Local(String),
    Pseudorandom { seed: u64 },
}

/// A file that is to be written.
#[derive(Debug, PartialEq, Eq)]
pub struct PlannedFile {
    pub source: PlannedSource,
    pub target: String,
    pub size: u64,
}

/// The model of a source.
pub enum PlannedSourceModel {
    Local(Seq<char>),
    Pseudorandom { seed: u64 },
}

/// The model of a planned file.
#[verifier::ext_equal]
pub struct PlannedModel {
    pub source: PlannedSourceModel,
    pub target: Seq<char>,
    pub size: u64,
}

impl View for PlannedSource {
    type V = PlannedSourceModel;

    open spec fn view(&self) -> PlannedSourceModel {
        match *self {
            PlannedSource::Local(path) => PlannedSourceModel::Local(path@),
            PlannedSource::Pseudorandom { seed } => PlannedSourceModel::Pseudorandom { seed },
        }
    }
}

impl View for PlannedFile {
    type V = PlannedModel;

    open spec fn view(&self) -> PlannedModel {
        PlannedModel { source: self.source@, target: self.target@, size: self.size }
    }
}

pub open spec fn planned_models(list: Seq<PlannedFile>) -> Seq<PlannedModel> {
    list.map_values(|f: PlannedFile| f@)
}

/// A source in words.
pub open spec fn source_text(source: PlannedSourceModel) -> Seq<char> {
    match source {
        PlannedSourceModel::Local(path) => path,
        PlannedSourceModel::Pseudorandom { seed } => "pseudorandom(seed="@ + decimal_spec(
            seed as nat,
        ) + ")"@,
    }
}

impl PlannedSource {
    /// The same source.
    pub fn copy(&self) -> (copy: PlannedSource)
        ensures
            copy@ == self@,
    {
        match self {
            PlannedSource::Local(path) => PlannedSource::Local(path.clone()),
            PlannedSource::Pseudorandom { seed } => PlannedSource::Pseudorandom { seed: *seed },
        }
    }

    /// The source in words.
    pub fn description(&self) -> (text: String)
        ensures
            text@ == source_text(self@),
    {
        match self {
            PlannedSource::Local(path) => path.clone(),
            PlannedSource::Pseudorandom { seed } => cat3(
                "pseudorandom(seed=",
                decimal(*seed).as_str(),
                ")",
            ),
        }
    }
}

/// What is to be written.
#[derive(Debug, PartialEq, Eq)]
pub struct WritePlan {
    pub files: Vec<PlannedFile>,
    pub directories: usize,
    pub total_bytes: u64,
    pub highest_uid: u64,
}

/// The model of a plan, with the directory tree that it makes.
#[verifier::ext_equal]
pub struct PlanState {
    pub root: DirModel,
    pub files: Seq<PlannedModel>,
    pub directories: usize,
    pub total_bytes: u64,
    pub highest_uid: u64,
}

pub open spec fn plan_state(root: DirModel, plan: WritePlan) -> PlanState {
    PlanState {
        root,
        files: planned_models(plan.files@),
        directories: plan.directories,
        total_bytes: plan.total_bytes,
        highest_uid: plan.highest_uid,
    }
}

/// The target without the slashes around it.
pub open spec fn inner_path(target: Seq<char>) -> Seq<char> {
    without_trailing(without_leading(target, '/'), '/')
}

/// The parent and the name in a target path.
pub open spec fn target_parts(target: Seq<char>) -> Result<(Seq<char>, Seq<char>), Seq<char>> {
    let inner = inner_path(target);
    if inner.len() == 0 {
        Err("磁带目标路径不能是根目录"@)
    } else {
        let (parent, name) = match rsplit_once_spec(inner, '/') {
            Some(pair) => pair,
            None => (Seq::empty(), inner),
        };
        if name.len() == 0 || name == "."@ || name == ".."@ {
            Err("磁带目标路径无效: "@ + target)
        } else {
            Ok((parent, name))
        }
    }
}

/// The parent and the name in a target path.
pub fn split_target_path(target: &str) -> (result: Result<(String, String), String>)
    ensures
        match result {
            Ok((parent, name)) => target_parts(target@) == Ok::<
                (Seq<char>, Seq<char>),
                Seq<char>,
            >((parent@, name@)),
            Err(message) => target_parts(target@) == Err::<(Seq<char>, Seq<char>), Seq<char>>(
                message@,
            ),
        },
{
    let leading = trim_start_char(target, '/');
    let inner = trim_end_char(leading.as_str(), '/');
    if inner.as_str().is_empty() {
        return Err("磁带目标路径不能是根目录".to_owned());
    }
    let (parent, name) = match rsplit_once(inner.as_str(), '/') {
        Some(pair) => pair,
        None => (String::new(), inner),
    };
    if name.as_str().is_empty() || same(name.as_str(), ".") || same(name.as_str(), "..") {
        return Err(cat2("磁带目标路径无效: ", target));
    }
    Ok((parent, name))
}

/// A target path in its usual form.
pub open spec fn normalized_spec(parent: Seq<char>, name: Seq<char>) -> Seq<char> {
    if parent.len() == 0 {
        "/"@ + name
    } else {
        "/"@ + parent + "/"@ + name
    }
}

pub fn normalized_target(parent: &str, name: &str) -> (path: String)
    ensures
        path@ == normalized_spec(parent@, name@),
{
    if parent.is_empty() {
        cat2("/", name)
    } else {
        cat4("/", parent, "/", name)
    }
}

/// The same time for everything.
pub open spec fn times_at(now: Seq<char>) -> TimesModel {
    TimesModel {
        creation_time: Some(now),
        change_time: Some(now),
        modify_time: Some(now),
        access_time: Some(now),
        backup_time: Some(now),
    }
}

pub fn planned_times(now: &str) -> (times: FileTimes)
    ensures
        times@ == times_at(now@),
{
    FileTimes {
        creation_time: Some(now.to_owned()),
        change_time: Some(now.to_owned()),
        modify_time: Some(now.to_owned()),
        access_time: Some(now.to_owned()),
        backup_time: Some(now.to_owned()),
    }
}

/// A new file in the index: not yet on tape.
pub open spec fn new_file(name: Seq<char>, uid: u64, size: u64, now: Seq<char>) -> FileModel {
    FileModel {
        name,
        fileuid: uid,
        length: size,
        readonly: false,
        times: times_at(now),
        extents: Seq::empty(),
        extended_attributes: Seq::empty(),
        symlink_target: None,
    }
}

/// A new directory in the index.
pub open spec fn new_directory(name: Seq<char>, uid: u64, now: Seq<char>) -> DirModel {
    DirModel {
        name,
        fileuid: uid,
        readonly: false,
        times: times_at(now),
        extended_attributes: Seq::empty(),
        entries: Seq::empty(),
    }
}

/// Where a new entry goes: its parent and its name, where the parent exists and the name
/// is free.
pub open spec fn place(root: DirModel, target: Seq<char>) -> Result<
    (Seq<char>, Seq<char>),
    Seq<char>,
> {
    match target_parts(target) {
        Err(message) => Err(message),
        Ok((parent, name)) => match directory_at(root, parent) {
            None => Err("目标父目录不存在: /"@ + parent),
            Some(d) => if has_entry(d, name) {
                Err("目标已存在: "@ + normalized_spec(parent, name))
            } else {
                Ok((parent, name))
            },
        },
    }
}

/// The target of a child.
pub open spec fn child_target(target: Seq<char>, name: Seq<char>) -> Seq<char> {
    without_trailing(target, '/') + "/"@ + name
}

/// The plan with an entry of a source tree and all that is below it. Each new entry gets
/// the next file UID; a directory comes before what it holds.
pub open spec fn planned(
    st: PlanState,
    node: SourceNode,
    target: Seq<char>,
    now: Seq<char>,
) -> Result<PlanState, Seq<char>>
    decreases node, 0nat,
{
    match node.kind {
        SourceKind::Failed { message } => Err(message@),
        SourceKind::Symlink => Err("第一阶段暂不写入符号链接: "@ + node.path@),
        _ => match place(st.root, target) {
            Err(message) => Err(message),
            Ok((parent, name)) => if st.highest_uid == u64::MAX {
                Err("fileuid 已用尽"@)
            } else {
                let uid = (st.highest_uid + 1) as u64;
                match node.kind {
                    SourceKind::File { size } => if st.total_bytes + size > u64::MAX {
                        Err("source payload bytes 溢出"@)
                    } else {
                        Ok(
                            PlanState {
                                root: inserted(
                                    st.root,
                                    path_parts(parent),
                                    EntryModel::File(new_file(name, uid, size, now)),
                                ),
                                files: st.files.push(
                                    PlannedModel {
                                        source: PlannedSourceModel::Local(node.path@),
                                        target,
                                        size,
                                    },
                                ),
                                total_bytes: (st.total_bytes + size) as u64,
                                highest_uid: uid,
                                ..st
                            },
                        )
                    },
                    SourceKind::Directory { children } => planned_children(
                        PlanState {
                            root: inserted(
                                st.root,
                                path_parts(parent),
                                EntryModel::Directory(new_directory(name, uid, now)),
                            ),
                            directories: saturating_count(st.directories),
                            highest_uid: uid,
                            ..st
                        },
                        children,
                        children@.len(),
                        target,
                        now,
                    ),
                    SourceKind::Unreadable { message } => Err(message@),
                    _ => Err("源路径不是普通文件或目录: "@ + node.path@),
                }
            },
        },
    }
}

pub open spec fn saturating_count(n: usize) -> usize {
    if n == usize::MAX {
        n
    } else {
        (n + 1) as usize
    }
}

/// The plan with the first `n` children of a directory, by name.
pub open spec fn planned_children(
    st: PlanState,
    children: Vec<SourceNode>,
    n: nat,
    target: Seq<char>,
    now: Seq<char>,
) -> Result<PlanState, Seq<char>>
    decreases children, n,
    via planned_children_ends
{
    if n == 0 || n > children@.len() {
        Ok(st)
    } else {
        match planned_children(st, children, (n - 1) as nat, target, now) {
            Err(message) => Err(message),
            Ok(before) => {
                let child = stably_sorted(children@)[n - 1];
                if !child.utf8 {
                    Err("文件名不是 UTF-8: "@ + child.path@)
                } else {
                    planned(before, child, child_target(target, child.file_name@), now)
                }
            },
        }
    }
}

#[via_fn]
proof fn planned_children_ends(
    st: PlanState,
    children: Vec<SourceNode>,
    n: nat,
    target: Seq<char>,
    now: Seq<char>,
) {
    if 0 < n && n <= children@.len() {
        lemma_child_is_below(children, n - 1);
    }
}

/// A child stays below its directory when the children are ordered.
pub proof fn lemma_child_is_below(children: Vec<SourceNode>, n: int)
    requires
        0 <= n < children@.len(),
    ensures
        stably_sorted(children@).len() == children@.len(),
        decreases_to!(children => stably_sorted(children@)[n]),
{
    sorted_value_was_there(children@, n);
    let k = choose|k: int| 0 <= k < children@.len() && children@[k] == stably_sorted(children@)[n];
    assert(decreases_to!(children => children[k]));
}

proof fn lemma_children_error(
    st: PlanState,
    children: Vec<SourceNode>,
    n: nat,
    m: nat,
    target: Seq<char>,
    now: Seq<char>,
)
    requires
        n <= m <= children@.len(),
        planned_children(st, children, n, target, now) is Err,
    ensures
        planned_children(st, children, m, target, now) == planned_children(
            st,
            children,
            n,
            target,
            now,
        ),
    decreases m - n,
{
    if n < m {
        lemma_children_error(st, children, n, (m - 1) as nat, target, now);
    }
}

fn file_entry(name: String, uid: u64, size: u64, now: &str) -> (entry: DirectoryEntry)
    ensures
        entry@ == EntryModel::File(new_file(name@, uid, size, now@)),
{
    let file = FileEntry {
        name,
        fileuid: uid,
        length: size,
        readonly: false,
        times: planned_times(now),
        extents: Vec::new(),
        extended_attributes: Vec::new(),
        symlink_target: None,
    };
    assert(attribute_entries(file.extended_attributes@) =~= Seq::<AttributeEntry>::empty());
    assert(file@ =~= new_file(name@, uid, size, now@));
    DirectoryEntry::File(file)
}

fn directory_entry(name: String, uid: u64, now: &str) -> (entry: DirectoryEntry)
    ensures
        entry@ == EntryModel::Directory(new_directory(name@, uid, now@)),
{
    let d = Directory {
        name,
        fileuid: uid,
        readonly: false,
        times: planned_times(now),
        extended_attributes: Vec::new(),
        entries: Vec::new(),
    };
    proof {
        lemma_entries(d);
        assert(entry_models(d.entries@) =~= Seq::<EntryModel>::empty());
        assert(attribute_entries(d.extended_attributes@) =~= Seq::<AttributeEntry>::empty());
        assert(d@ =~= new_directory(name@, uid, now@));
    }
    DirectoryEntry::Directory(d)
}

fn find_place(index: &Index, target: &str) -> (result: Result<(String, String), String>)
    ensures
        match result {
            Ok((parent, name)) => place(index.root@, target@) == Ok::<
                (Seq<char>, Seq<char>),
                Seq<char>,
            >((parent@, name@)) && directory_at(index.root@, parent@) is Some,
            Err(message) => place(index.root@, target@) == Err::<
                (Seq<char>, Seq<char>),
                Seq<char>,
            >(message@),
        },
{
    let (parent, name) = match split_target_path(target) {
        Ok(pair) => pair,
        Err(message) => {
            return Err(message);
        },
    };
    match index.find_directory(parent.as_str()) {
        None => Err(cat2("目标父目录不存在: /", parent.as_str())),
        Some(d) => {
            if contains_entry(d, name.as_str()) {
                Err(
                    cat2("目标已存在: ", normalized_target(parent.as_str(), name.as_str()).as_str()),
                )
            } else {
                Ok((parent, name))
            }
        },
    }
}

/// Adds an entry of a source tree, and all that is below it, to the index and the plan.
pub fn plan_entry(
    index: &mut Index,
    node: &SourceNode,
    target: &str,
    now: &str,
    plan: &mut WritePlan,
) -> (result: Result<(), String>)
    ensures
        match result {
            Ok(_) => planned(plan_state(old(index).root@, *old(plan)), *node, target@, now@) == Ok::<
                PlanState,
                Seq<char>,
            >(plan_state(final(index).root@, *final(plan))) && final(index)@ == (IndexModel {
                root: final(index).root@,
                ..old(index)@
            }),
            Err(message) => planned(
                plan_state(old(index).root@, *old(plan)),
                *node,
                target@,
                now@,
            ) == Err::<PlanState, Seq<char>>(message@),
        },
    decreases node,
{
    match &node.kind {
        SourceKind::Failed { message } => {
            return Err(message.clone());
        },
        SourceKind::Symlink => {
            return Err(cat2("第一阶段暂不写入符号链接: ", node.path.as_str()));
        },
        _ => {},
    }
    let ghost st = plan_state(index.root@, *plan);
    let (parent, name) = match find_place(index, target) {
        Ok(pair) => pair,
        Err(message) => {
            return Err(message);
        },
    };
    if plan.highest_uid == u64::MAX {
        return Err("fileuid 已用尽".to_owned());
    }
    let uid: u64 = plan.highest_uid + 1;
    match &node.kind {
        SourceKind::File { size } => {
            let total: u64 = match plan.total_bytes.checked_add(*size) {
                Some(total) => total,
                None => {
                    return Err("source payload bytes 溢出".to_owned());
                },
            };
            let entry = file_entry(name, uid, *size, now);
            let _ = index.insert_entry(parent.as_str(), entry);
            plan.highest_uid = uid;
            plan.total_bytes = total;
            let ghost before = plan.files@;
            let file = PlannedFile {
                source: PlannedSource::Local(node.path.clone()),
                target: target.to_owned(),
                size: *size,
            };
            plan.files.push(file);
            assert(planned_models(plan.files@) =~= planned_models(before).push(file@));
            Ok(())
        },
        SourceKind::Directory { children } => {
            let entry = directory_entry(name, uid, now);
            let _ = index.insert_entry(parent.as_str(), entry);
            plan.highest_uid = uid;
            plan.directories = plan.directories.saturating_add(1);
            let ghost first = plan_state(index.root@, *plan);
            let ghost base = index@;
            proof {
                assert(planned(st, *node, target@, now@) == planned_children(
                    first,
                    *children,
                    children@.len(),
                    target@,
                    now@,
                ));
            }
            let places = sorted_places(children);
            let mut i: usize = 0;
            while i < children.len()
                invariant
                    i <= children@.len(),
                    places@.len() == children@.len(),
                    forall|n: int|
                        0 <= n < places@.len() ==> #[trigger] places@[n] < children@.len()
                            && children@[places@[n] as int] == stably_sorted(children@)[n],
                    decreases_to!(node => children),
                    planned(st, *node, target@, now@) == planned_children(
                        first,
                        *children,
                        children@.len(),
                        target@,
                        now@,
                    ),
                    planned_children(first, *children, i as nat, target@, now@) == Ok::<
                        PlanState,
                        Seq<char>,
                    >(plan_state(index.root@, *plan)),
                    index@ == (IndexModel { root: index.root@, ..base }),
                    st == plan_state(old(index).root@, *old(plan)),
                    base == (IndexModel { root: base.root, ..old(index)@ }),
                decreases children@.len() - i,
            {
                let child = &children[places[i]];
                assert(decreases_to!(children => children[places@[i as int] as int]));
                if !child.utf8 {
                    proof {
                        lemma_children_error(
                            first,
                            *children,
                            (i + 1) as nat,
                            children@.len(),
                            target@,
                            now@,
                        );
                    }
                    return Err(cat2("文件名不是 UTF-8: ", child.path.as_str()));
                }
                let below = cat3(
                    trim_end_char(target, '/').as_str(),
                    "/",
                    child.file_name.as_str(),
                );
                match plan_entry(index, child, below.as_str(), now, plan) {
                    Ok(_) => {},
                    Err(message) => {
                        proof {
                            lemma_children_error(
                                first,
                                *children,
                                (i + 1) as nat,
                                children@.len(),
                                target@,
                                now@,
                            );
                        }
                        return Err(message);
                    },
                }
                i = i + 1;
            }
            Ok(())
        },
        SourceKind::Unreadable { message } => Err(message.clone()),
        _ => Err(cat2("源路径不是普通文件或目录: ", node.path.as_str())),
    }
}

/// An empty plan behind the file UIDs of an index.
pub open spec fn plan_start(index: IndexModel) -> PlanState {
    PlanState {
        root: index.root,
        files: Seq::empty(),
        directories: 0,
        total_bytes: 0,
        highest_uid: match index.highest_file_uid {
            Some(uid) => uid,
            None => 0,
        },
    }
}

fn new_plan(index: &Index) -> (plan: WritePlan)
    ensures
        plan_state(index.root@, plan) == plan_start(index@),
{
    let plan = WritePlan {
        files: Vec::new(),
        directories: 0,
        total_bytes: 0,
        highest_uid: match index.highest_file_uid {
            Some(uid) => uid,
            None => 0,
        },
    };
    assert(planned_models(plan.files@) =~= Seq::<PlannedModel>::empty());
    plan
}

/// The outcome of planning: the plan with the tree that it makes, or why there is none.
pub open spec fn plan_outcome(
    result: Result<WritePlan, String>,
    before: IndexModel,
    after: IndexModel,
    expected: Result<PlanState, Seq<char>>,
) -> bool {
    match result {
        Ok(plan) => expected == Ok::<PlanState, Seq<char>>(plan_state(after.root, plan)) && after
            == (IndexModel { root: after.root, ..before }),
        Err(message) => expected == Err::<PlanState, Seq<char>>(message@),
    }
}

/// Plans the write of one source tree to a target.
pub fn plan_source_tree(index: &mut Index, source: &SourceNode, target: &str, now: &str) -> (result:
    Result<WritePlan, String>)
    ensures
        plan_outcome(
            result,
            old(index)@,
            final(index)@,
            planned(plan_start(old(index)@), *source, target@, now@),
        ),
{
    let mut plan = new_plan(index);
    match plan_entry(index, source, target, now, &mut plan) {
        Ok(_) => Ok(plan),
        Err(message) => Err(message),
    }
}

/// Where a root goes in a directory of the volume.
pub open spec fn root_target(root: Seq<char>, directory: Seq<char>) -> Result<Seq<char>, Seq<char>> {
    match root_name_spec(root) {
        Ok(name) => Ok(target_path(directory, name)),
        Err(message) => Err(message),
    }
}

pub fn destination_path_for_root(root: &str, destination_directory: &str) -> (result: Result<
    String,
    String,
>)
    ensures
        super::source::text_outcome(result) == root_target(root@, destination_directory@),
{
    let name = match source_root_name(root) {
        Ok(name) => name,
        Err(message) => {
            return Err(message);
        },
    };
    Ok(
        if same(destination_directory, "/") {
            cat2("/", name.as_str())
        } else {
            cat3(trim_end_char(destination_directory, '/').as_str(), "/", name.as_str())
        },
    )
}

/// The plan with the first `n` roots.
pub open spec fn planned_roots(
    st: PlanState,
    roots: Seq<SourceNode>,
    directory: Seq<char>,
    now: Seq<char>,
) -> Result<PlanState, Seq<char>>
    decreases roots.len(),
{
    if roots.len() == 0 {
        Ok(st)
    } else {
        match planned_roots(st, roots.drop_last(), directory, now) {
            Err(message) => Err(message),
            Ok(before) => match root_target(roots.last().path@, directory) {
                Err(message) => Err(message),
                Ok(target) => planned(before, roots.last(), target, now),
            },
        }
    }
}

proof fn lemma_roots_error(
    st: PlanState,
    roots: Seq<SourceNode>,
    n: int,
    directory: Seq<char>,
    now: Seq<char>,
)
    requires
        0 <= n <= roots.len(),
        planned_roots(st, roots.subrange(0, n), directory, now) is Err,
    ensures
        planned_roots(st, roots, directory, now) == planned_roots(
            st,
            roots.subrange(0, n),
            directory,
            now,
        ),
    decreases roots.len() - n,
{
    if n == roots.len() {
        assert(roots.subrange(0, n) =~= roots);
    } else {
        assert(roots.subrange(0, n + 1).drop_last() =~= roots.subrange(0, n));
        lemma_roots_error(st, roots, n + 1, directory, now);
    }
}

/// Plans the write of several source roots to a directory of the volume.
pub fn plan_source_roots(
    index: &mut Index,
    roots: &Vec<SourceNode>,
    destination_directory: &str,
    now: &str,
) -> (result: Result<WritePlan, String>)
    ensures
        plan_outcome(
            result,
            old(index)@,
            final(index)@,
            if roots@.len() == 0 {
                Err("至少选择一个 source root"@)
            } else {
                planned_roots(plan_start(old(index)@), roots@, destination_directory@, now@)
            },
        ),
{
    if roots.len() == 0 {
        return Err("至少选择一个 source root".to_owned());
    }
    let mut plan = new_plan(index);
    let ghost start = plan_start(index@);
    let ghost base = index@;
    let mut i: usize = 0;
    assert(roots@.subrange(0, 0) =~= Seq::<SourceNode>::empty());
    while i < roots.len()
        invariant
            i <= roots@.len(),
            roots@.len() > 0,
            start == plan_start(old(index)@),
            base == old(index)@,
            planned_roots(start, roots@.subrange(0, i as int), destination_directory@, now@)
                == Ok::<PlanState, Seq<char>>(plan_state(index.root@, plan)),
            index@ == (IndexModel { root: index.root@, ..base }),
        decreases roots@.len() - i,
    {
        proof {
            let next = roots@.subrange(0, i + 1);
            assert(next.drop_last() =~= roots@.subrange(0, i as int));
            assert(next.last() == roots@[i as int]);
        }
        let target = match destination_path_for_root(
            roots[i].path.as_str(),
            destination_directory,
        ) {
            Ok(target) => target,
            Err(message) => {
                proof {
                    lemma_roots_error(start, roots@, i + 1, destination_directory@, now@);
                }
                return Err(message);
            },
        };
        match plan_entry(index, &roots[i], target.as_str(), now, &mut plan) {
            Ok(_) => {},
            Err(message) => {
                proof {
                    lemma_roots_error(start, roots@, i + 1, destination_directory@, now@);
                }
                return Err(message);
            },
        }
        i = i + 1;
    }
    assert(roots@.subrange(0, i as int) =~= roots@);
    Ok(plan)
}

/// The extended attributes that tell how a test file can be made again.
pub open spec fn test_attributes(size: u64, seed: u64) -> Seq<AttributeEntry> {
    seq![
        AttributeEntry {
            key: "tapecpy.test.pseudorandom.algorithm"@,
            value: "splitmix64-le"@,
            value_type: None,
        },
        AttributeEntry {
            key: "tapecpy.test.pseudorandom.seed"@,
            value: decimal_spec(seed as nat),
            value_type: None,
        },
        AttributeEntry {
            key: "tapecpy.test.pseudorandom.size"@,
            value: decimal_spec(size as nat),
            value_type: None,
        },
    ]
}

/// The plan of one file of test data.
pub open spec fn planned_test_file(
    st: PlanState,
    target: Seq<char>,
    size: u64,
    seed: u64,
    now: Seq<char>,
) -> Result<PlanState, Seq<char>> {
    match target_parts(target) {
        Err(message) => Err(message),
        Ok(_) => if st.highest_uid == u64::MAX {
            Err("fileuid 已用尽"@)
        } else {
            match place(st.root, target) {
                Err(message) => Err(message),
                Ok((parent, name)) => {
                    let uid = (st.highest_uid + 1) as u64;
                    Ok(
                        PlanState {
                            root: inserted(
                                st.root,
                                path_parts(parent),
                                EntryModel::File(
                                    FileModel {
                                        extended_attributes: test_attributes(size, seed),
                                        ..new_file(name, uid, size, now)
                                    },
                                ),
                            ),
                            files: seq![
                                PlannedModel {
                                    source: PlannedSourceModel::Pseudorandom { seed },
                                    target,
                                    size,
                                },
                            ],
                            directories: 0,
                            total_bytes: size,
                            highest_uid: uid,
                        },
                    )
                },
            }
        },
    }
}

/// Plans the write of one file of test data.
pub fn plan_pseudorandom_file(index: &mut Index, target: &str, size: u64, seed: u64, now: &str) -> (result:
    Result<WritePlan, String>)
    ensures
        plan_outcome(
            result,
            old(index)@,
            final(index)@,
            planned_test_file(plan_start(old(index)@), target@, size, seed, now@),
        ),
{
    match split_target_path(target) {
        Ok(_) => {},
        Err(message) => {
            return Err(message);
        },
    }
    let highest: u64 = match index.highest_file_uid {
        Some(uid) => uid,
        None => 0,
    };
    if highest == u64::MAX {
        return Err("fileuid 已用尽".to_owned());
    }
    let uid: u64 = highest + 1;
    let (parent, name) = match find_place(index, target) {
        Ok(pair) => pair,
        Err(message) => {
            return Err(message);
        },
    };
    let mut attributes: Vec<ExtendedAttribute> = Vec::new();
    attributes.push(
        ExtendedAttribute {
            key: "tapecpy.test.pseudorandom.algorithm".to_owned(),
            value: "splitmix64-le".to_owned(),
            value_type: None,
        },
    );
    attributes.push(
        ExtendedAttribute {
            key: "tapecpy.test.pseudorandom.seed".to_owned(),
            value: decimal(seed),
            value_type: None,
        },
    );
    attributes.push(
        ExtendedAttribute {
            key: "tapecpy.test.pseudorandom.size".to_owned(),
            value: decimal(size),
            value_type: None,
        },
    );
    assert(attribute_entries(attributes@) =~= test_attributes(size, seed));
    let file = FileEntry {
        name,
        fileuid: uid,
        length: size,
        readonly: false,
        times: planned_times(now),
        extents: Vec::new(),
        extended_attributes: attributes,
        symlink_target: None,
    };
    assert(file@ =~= FileModel {
        extended_attributes: test_attributes(size, seed),
        ..new_file(name@, uid, size, now@)
    });
    let _ = index.insert_entry(parent.as_str(), DirectoryEntry::File(file));
    let mut files: Vec<PlannedFile> = Vec::new();
    let planned_file = PlannedFile {
        source: PlannedSource::Pseudorandom { seed },
        target: target.to_owned(),
        size,
    };
    files.push(planned_file);
    assert(planned_models(files@) =~= seq![planned_file@]);
    Ok(WritePlan { files, directories: 0, total_bytes: size, highest_uid: uid })
}

} // verus!
