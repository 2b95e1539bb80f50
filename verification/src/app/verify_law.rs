//! What a write that is read back has read back.
use vstd::prelude::*;

use super::append::{hash_goes_on, hash_reply, HashActionModel, HashState};
use super::commit::{
    commit_go, commit_next, copy_place, data_index_of, data_place, index_copy_of, CommitState,
    CommitTurn,
};
use super::data::HashModel;
use super::write::{
    asked, commit_done, commit_moves, commit_reply, data_done, fails_with, first_commit_state,
    first_hash_state, goes_on, health_reply, joined_reply, performance_events, places_of,
    verify_from, verify_moves, verify_reply, write_done, write_next, CommittedModel, ContextModel,
    DataRunModel, StageModel, WriteReply,
};
use super::write_law::{
    lemma_commit_keeps, lemma_commit_next_keeps, lemma_data_stages_do_not_finish,
    lemma_early_stages_do_not_finish, lemma_run_keeps_choice, write_finishes_last, write_run,
};
use super::write_state::{
    options_at, progress_event, EventModel, WriteFailpoint, WriteOptions, WritePhase,
};
use crate::hash::sha256_text;

verus! {

/// A reply completes the check of a file: the bytes that were read back have its digest.
pub open spec fn completes_check(stage: StageModel, reply: WriteReply, h: HashModel) -> bool {
    stage matches StageModel::Verify(_, _, s) && reply matches WriteReply::Tape(r) && {
        let t = hash_reply(s, r).0;
        &&& s.path == h.path
        &&& s.expected == h.sha256
        &&& hash_reply(s, r).1 matches HashActionModel::Finished(verdict)
        &&& verdict is Ok
        &&& sha256_text(t.bytes) == h.sha256
    }
}

/// The check of a file was completed.
pub open spec fn was_read_back(
    path: Seq<char>,
    options: WriteOptions,
    told: Seq<(WriteReply, bool)>,
    h: HashModel,
) -> bool {
    exists|n: int|
        0 <= n < told.len() && completes_check(
            #[trigger] write_run(path, options, told.take(n)).stage,
            told[n].0,
            h,
        )
}

/// The file at `k` holds nothing that could be read, and its digest is that of nothing.
pub open spec fn holds_nothing(done: CommittedModel, k: int) -> bool {
    first_hash_state(done, k as nat) matches Some(s) && s.reader.extents.len() == 0
        && sha256_text(s.bytes) == done.hashes[k].sha256 && s.bytes.len() == 0
}

spec fn all_checked(
    path: Seq<char>,
    options: WriteOptions,
    told: Seq<(WriteReply, bool)>,
    done: CommittedModel,
    n: int,
) -> bool {
    forall|i: int|
        0 <= i < n ==> was_read_back(path, options, told, #[trigger] done.hashes[i])
            || holds_nothing(done, i)
}

spec fn stage_is_checked(
    path: Seq<char>,
    options: WriteOptions,
    told: Seq<(WriteReply, bool)>,
    read_back: bool,
    stage: StageModel,
) -> bool {
    match stage {
        StageModel::Verify(done, k, s) => {
            &&& k < done.hashes.len()
            &&& s.path == done.hashes[k as int].path
            &&& s.expected == done.hashes[k as int].sha256
            &&& all_checked(path, options, told, done, k as int)
        },
        StageModel::Health(done) => read_back ==> all_checked(
            path,
            options,
            told,
            done,
            done.hashes.len() as int,
        ),
        _ => true,
    }
}

proof fn lemma_from(
    path: Seq<char>,
    options: WriteOptions,
    told: Seq<(WriteReply, bool)>,
    c: ContextModel,
    done: CommittedModel,
    k: nat,
    events: Seq<EventModel>,
)
    requires
        k <= done.hashes.len(),
        all_checked(path, options, told, done, k as int),
    ensures
        ({
            let turn = verify_from(c, done, k, events);
            &&& stage_is_checked(path, options, told, true, turn.stage)
            &&& turn.context.options.verification == c.options.verification
        }),
    decreases done.hashes.len() - k,
{
    reveal(goes_on);
    reveal(fails_with);
    if k < done.hashes.len() {
        let h = done.hashes[k as int];
        let all = events.push(progress_event(done.progress, WritePhase::Verifying, Some(h.path)));
        match first_hash_state(done, k) {
            Some(s) => match hash_goes_on(s) {
                HashActionModel::Finished(Ok(_)) => {
                    assert(holds_nothing(done, k as int));
                    lemma_from(path, options, told, c, done, k + 1, all);
                },
                _ => {},
            },
            None => {},
        }
    }
}

proof fn lemma_commit(
    path: Seq<char>,
    options: WriteOptions,
    told: Seq<(WriteReply, bool)>,
    c: ContextModel,
    done: CommittedModel,
    turn: CommitTurn,
    events: Seq<EventModel>,
)
    requires
        turn.state.options.verification == c.options.verification,
    ensures
        ({
            let next = commit_moves(c, done, turn, events);
            &&& stage_is_checked(
                path,
                options,
                told,
                c.options.verification is ReadBackSha256,
                next.stage,
            )
            &&& next.context.options.verification == c.options.verification
        }),
{
    reveal(goes_on);
    reveal(fails_with);
    reveal(commit_moves);
    reveal(commit_done);
    let d = ContextModel { options: turn.state.options, ..c };
    let finished = CommittedModel { progress: turn.state.progress, ..done };
    let e = ContextModel { options: options_at(d.options, WriteFailpoint::BeforeVerify), ..d };
    lemma_from(
        path,
        options,
        told,
        e,
        finished,
        0,
        (events + turn.events).push(
            progress_event(finished.progress, WritePhase::Verifying, None),
        ),
    );
}

proof fn lemma_still_read_back(
    path: Seq<char>,
    options: WriteOptions,
    told: Seq<(WriteReply, bool)>,
    done: CommittedModel,
    n: int,
)
    requires
        told.len() > 0,
        0 <= n <= done.hashes.len(),
        all_checked(path, options, told.drop_last(), done, n),
    ensures
        all_checked(path, options, told, done, n),
{
    let before = told.drop_last();
    assert forall|i: int| 0 <= i < n implies was_read_back(
        path,
        options,
        told,
        #[trigger] done.hashes[i],
    ) || holds_nothing(done, i) by {
        let h = done.hashes[i];
        if was_read_back(path, options, before, h) {
            let m = choose|m: int|
                0 <= m < before.len() && completes_check(
                    #[trigger] write_run(path, options, before.take(m)).stage,
                    before[m].0,
                    h,
                );
            assert(before.take(m) =~= told.take(m));
            assert(before[m] == told[m]);
            assert(completes_check(write_run(path, options, told.take(m)).stage, told[m].0, h));
        }
    }
}

proof fn lemma_joined(
    path: Seq<char>,
    options: WriteOptions,
    told: Seq<(WriteReply, bool)>,
    c: ContextModel,
    run: DataRunModel,
    reply: WriteReply,
)
    ensures
        stage_is_checked(
            path,
            options,
            told,
            c.options.verification is ReadBackSha256,
            joined_reply(c, run, reply).stage,
        ),
{
    reveal(joined_reply);
    match reply {
        WriteReply::Performance(sample) => {
            reveal(data_done);
            let places = places_of(run);
            let data_index = data_index_of(
                run.writer.index,
                c.now,
                run.facts.highest_uid,
                data_place(places),
                places.last,
            );
            let copy = index_copy_of(data_index, copy_place(places));
            let s = first_commit_state(c, run, data_index, copy);
            lemma_commit_keeps(s);
            lemma_commit(
                path,
                options,
                told,
                c,
                CommittedModel {
                    index: copy,
                    hashes: run.writer.hashes,
                    progress: run.writer.progress,
                    facts: run.facts,
                    place: run.place,
                },
                commit_go(s),
                performance_events(run.writer.progress, None, sample),
            );
        },
        _ => {
            reveal(fails_with);
            reveal(goes_on);
        },
    }
}

proof fn lemma_committed(
    path: Seq<char>,
    options: WriteOptions,
    told: Seq<(WriteReply, bool)>,
    c: ContextModel,
    done: CommittedModel,
    s: CommitState,
    reply: WriteReply,
)
    ensures
        stage_is_checked(
            path,
            options,
            told,
            c.options.verification is ReadBackSha256,
            commit_reply(c, done, s, reply).stage,
        ),
{
    reveal(commit_reply);
    match reply {
        WriteReply::Tape(r) => {
            let t = CommitState { options: c.options, ..s };
            lemma_commit_next_keeps(t, r);
            lemma_commit(path, options, told, c, done, commit_next(t, r), Seq::empty());
        },
        _ => {
            reveal(fails_with);
            reveal(goes_on);
        },
    }
}

proof fn lemma_verified(
    path: Seq<char>,
    options: WriteOptions,
    told: Seq<(WriteReply, bool)>,
    c: ContextModel,
    done: CommittedModel,
    k: nat,
    s: HashState,
    reply: WriteReply,
)
    requires
        k < done.hashes.len(),
        s.path == done.hashes[k as int].path,
        s.expected == done.hashes[k as int].sha256,
        all_checked(path, options, told, done, k as int),
        completes_check(StageModel::Verify(done, k, s), reply, done.hashes[k as int])
            ==> was_read_back(path, options, told, done.hashes[k as int]),
    ensures
        stage_is_checked(path, options, told, true, verify_reply(c, done, k, s, reply).stage),
{
    reveal(verify_reply);
    reveal(verify_moves);
    reveal(fails_with);
    reveal(goes_on);
    match reply {
        WriteReply::Tape(r) => {
            match hash_reply(s, r).1 {
                HashActionModel::Finished(Ok(_)) => {
                    assert(completes_check(
                        StageModel::Verify(done, k, s),
                        reply,
                        done.hashes[k as int],
                    ));
                    lemma_from(path, options, told, c, done, k + 1, Seq::empty());
                },
                _ => {},
            }
        },
        _ => {},
    }
}

proof fn lemma_ended(c: ContextModel, done: CommittedModel, reply: WriteReply)
    ensures
        health_reply(c, done, reply).stage is Ended,
{
    reveal(health_reply);
    reveal(write_done);
    reveal(fails_with);
    reveal(goes_on);
}

proof fn lemma_run(path: Seq<char>, options: WriteOptions, told: Seq<(WriteReply, bool)>)
    ensures
        stage_is_checked(
            path,
            options,
            told,
            options.verification is ReadBackSha256,
            write_run(path, options, told).stage,
        ),
    decreases told.len(),
{
    if told.len() > 0 {
        let before = told.drop_last();
        lemma_run(path, options, before);
        lemma_run_keeps_choice(path, options, before);
        let turn = write_run(path, options, before);
        let reply = told.last().0;
        let c = ContextModel {
            options: asked(turn.context.options, told.last().1),
            ..turn.context
        };
        let n = told.len() - 1;
        assert(told.take(n) =~= before);
        assert(write_run(path, options, told) == write_next(c, turn.stage, reply));
        match turn.stage {
            StageModel::Joined(run) => {
                lemma_joined(path, options, told, c, run, reply);
            },
            StageModel::Commit(done, s) => {
                lemma_committed(path, options, told, c, done, s, reply);
            },
            StageModel::Verify(done, k, s) => {
                lemma_still_read_back(path, options, told, done, k as int);
                let h = done.hashes[k as int];
                if completes_check(turn.stage, reply, h) {
                    assert(completes_check(
                        write_run(path, options, told.take(n)).stage,
                        told[n].0,
                        h,
                    ));
                }
                lemma_verified(path, options, told, c, done, k, s, reply);
            },
            StageModel::Health(done) => {
                lemma_ended(c, done, reply);
            },
            StageModel::Pipeline(_) | StageModel::Receive(_) | StageModel::Idle(_)
            | StageModel::Write(_, _) | StageModel::Paced(_) | StageModel::Channels(_) => {
                lemma_data_stages_do_not_finish(c, turn.stage, reply);
            },
            _ => {
                lemma_early_stages_do_not_finish(c, turn.stage, reply);
            },
        }
    }
}

/// A write that was to be read back ends well only once every file that it wrote was: of
/// each, under its path, bytes were read back that have the digest that was written, or there
/// was nothing to read and the digest is that of nothing.
pub proof fn finished_write_was_read_back(
    path: Seq<char>,
    options: WriteOptions,
    told: Seq<(WriteReply, bool)>,
)
    requires
        write_run(path, options, told).action is Finished,
        options.verification is ReadBackSha256,
    ensures
        told.len() > 0,
        ({
            &&& write_run(path, options, told.drop_last()).stage matches StageModel::Health(done)
            &&& forall|i: int|
                0 <= i < done.hashes.len() ==> was_read_back(
                    path,
                    options,
                    told,
                    #[trigger] done.hashes[i],
                ) || holds_nothing(done, i)
        }),
{
    let before = told.drop_last();
    if told.len() == 0 {
        reveal(goes_on);
    }
    let turn = write_run(path, options, before);
    let c = ContextModel { options: asked(turn.context.options, told.last().1), ..turn.context };
    write_finishes_last(c, turn.stage, told.last().0);
    lemma_run(path, options, before);
    let done = turn.stage->Health_0;
    lemma_still_read_back(path, options, told, done, done.hashes.len() as int);
}

} // verus!
