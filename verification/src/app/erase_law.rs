//! An erase as a whole: what a run from its first command to its end has made the drive do.
use vstd::prelude::*;

use super::erase::{erase_begin, erase_next, EraseActionModel, EraseMode, EraseTurn};
use super::flow::{CommandModel, TapeReply};
use crate::device::tape::LongEraseStatus;

verus! {

/// A run once it has been told what came of its commands, one after the other.
pub open spec fn erase_run(mode: EraseMode, told: Seq<TapeReply>) -> EraseTurn
    decreases told.len(),
{
    if told.len() == 0 {
        erase_begin(mode)
    } else {
        erase_next(erase_run(mode, told.drop_last()).state, told.last())
    }
}

/// The command that the reply at `i` answers is `command`.
pub open spec fn answers(mode: EraseMode, told: Seq<TapeReply>, i: int, command: CommandModel) -> bool {
    0 <= i < told.len() && erase_run(mode, told.take(i)).action == EraseActionModel::Command(command)
}

/// The drive has done a command.
pub open spec fn was_done(mode: EraseMode, told: Seq<TapeReply>, command: CommandModel) -> bool {
    exists|i: int| #[trigger] answers(mode, told, i, command) && told[i] is Done
}

/// The drive was asked how far the erase is, and has said that it is complete.
pub open spec fn was_complete(mode: EraseMode, told: Seq<TapeReply>) -> bool {
    exists|i: int| #[trigger]
        answers(mode, told, i, CommandModel::LongEraseStatus) && told[i] == TapeReply::Erase(
            LongEraseStatus::Complete,
        )
}

/// Some command other than a pause was not answered as it should be.
pub open spec fn was_refused(mode: EraseMode, told: Seq<TapeReply>) -> bool {
    exists|i: int| #[trigger] refused_at(mode, told, i)
}

/// The reply at `i` is neither that the command is done nor how far the erase is, where
/// that was asked.
pub open spec fn refused_at(mode: EraseMode, told: Seq<TapeReply>, i: int) -> bool {
    &&& 0 <= i < told.len()
    &&& match erase_run(mode, told.take(i)).action {
        EraseActionModel::Command(CommandModel::Pause { .. }) => false,
        EraseActionModel::Command(CommandModel::LongEraseStatus) => !(told[i] is Erase),
        EraseActionModel::Command(_) => !(told[i] is Done),
        EraseActionModel::Finished(_) => false,
    }
}

/// The command that a run waits for belongs to where it stands.
spec fn stands(turn: EraseTurn) -> bool {
    let long = turn.state.mode is Long;
    let minimum = turn.state.mode is MinimumPartitionLong;
    match turn.action {
        EraseActionModel::Command(CommandModel::ShortErase) => turn.state.stage is ShortErase
            && turn.state.mode is Short,
        EraseActionModel::Command(CommandModel::Load) => turn.state.stage is LongLoad && long,
        EraseActionModel::Command(CommandModel::CreateMinimumErasePartition) => minimum
            && turn.state.stage is MinimumCreate,
        EraseActionModel::Command(CommandModel::RemovePartitions) => if minimum {
            turn.state.stage is RestoreRemove
        } else {
            turn.state.stage is LongRemove && long
        },
        EraseActionModel::Command(CommandModel::Rethread) => if minimum {
            turn.state.stage is MinimumRethread || turn.state.stage is RestoreRethread
        } else {
            turn.state.stage is LongRethread && long
        },
        EraseActionModel::Command(CommandModel::StartLongErase) => turn.state.stage is Start && (
        long || minimum),
        EraseActionModel::Command(CommandModel::LongEraseStatus) => turn.state.stage is Poll && (
        long || minimum),
        EraseActionModel::Command(CommandModel::Pause { seconds }) => turn.state.stage is Wait && (
        long || minimum) && seconds == 30,
        EraseActionModel::Command(_) => false,
        EraseActionModel::Finished(_) => turn.state.stage is Ended,
    }
}

/// What the drive has done by the time that a run stands somewhere.
spec fn earned(mode: EraseMode, told: Seq<TapeReply>, turn: EraseTurn) -> bool {
    let s = turn.state;
    let removed = was_done(mode, told, CommandModel::RemovePartitions);
    let created = was_done(mode, told, CommandModel::CreateMinimumErasePartition);
    let ready = if mode is Long {
        was_done(mode, told, CommandModel::Load) && removed && was_done(
            mode,
            told,
            CommandModel::Rethread,
        )
    } else {
        created && was_done(mode, told, CommandModel::Rethread)
    };
    let started = ready && was_done(mode, told, CommandModel::StartLongErase);
    &&& s.mode == mode
    &&& s.stage is LongRemove ==> was_done(mode, told, CommandModel::Load)
    &&& s.stage is LongRethread ==> was_done(mode, told, CommandModel::Load) && removed
    &&& s.stage is MinimumRethread ==> created
    &&& s.stage is Start ==> ready
    &&& s.stage is Poll || s.stage is Wait ==> started
    &&& s.stage is RestoreRethread || s.stage is RestoreRemove ==> created && if s.erase_error
        is None {
        started && was_complete(mode, told)
    } else {
        was_refused(mode, told)
    }
    &&& match turn.action {
        EraseActionModel::Finished(Ok(_)) => if mode is Short {
            was_done(mode, told, CommandModel::ShortErase)
        } else {
            started && was_complete(mode, told) && removed
        },
        _ => true,
    }
}

proof fn lemma_told_before(mode: EraseMode, told: Seq<TapeReply>)
    requires
        told.len() > 0,
    ensures
        forall|c: CommandModel| #[trigger]
            was_done(mode, told.drop_last(), c) ==> was_done(mode, told, c),
        was_complete(mode, told.drop_last()) ==> was_complete(mode, told),
        was_refused(mode, told.drop_last()) ==> was_refused(mode, told),
{
    let before = told.drop_last();
    assert forall|i: int| 0 <= i < before.len() implies #[trigger] before.take(i) == told.take(i)
        && before[i] == told[i] by {
        assert(before.take(i) =~= told.take(i));
    }
    assert forall|c: CommandModel| #[trigger] was_done(mode, before, c) implies was_done(
        mode,
        told,
        c,
    ) by {
        let i = choose|i: int| #[trigger] answers(mode, before, i, c) && before[i] is Done;
        assert(before.take(i) == told.take(i));
        assert(answers(mode, told, i, c));
    }
    if was_complete(mode, before) {
        let i = choose|i: int| #[trigger]
            answers(mode, before, i, CommandModel::LongEraseStatus) && before[i]
                == TapeReply::Erase(LongEraseStatus::Complete);
        assert(before.take(i) == told.take(i));
        assert(answers(mode, told, i, CommandModel::LongEraseStatus));
    }
    if was_refused(mode, before) {
        let i = choose|i: int| #[trigger] refused_at(mode, before, i);
        assert(before.take(i) == told.take(i));
        assert(refused_at(mode, told, i));
    }
}

proof fn lemma_run(mode: EraseMode, told: Seq<TapeReply>)
    ensures
        stands(erase_run(mode, told)),
        earned(mode, told, erase_run(mode, told)),
    decreases told.len(),
{
    if told.len() > 0 {
        let before = told.drop_last();
        lemma_run(mode, before);
        lemma_told_before(mode, told);
        let n = told.len() - 1;
        assert(told.take(n) =~= before);
        let turn = erase_run(mode, before);
        match turn.action {
            EraseActionModel::Command(c) => {
                assert(answers(mode, told, n, c));
                if told.last() is Done {
                    assert(was_done(mode, told, c));
                }
                if c == CommandModel::LongEraseStatus && told.last() == TapeReply::Erase(
                    LongEraseStatus::Complete,
                ) {
                    assert(was_complete(mode, told));
                }
                if refused_at(mode, told, n) {
                    assert(was_refused(mode, told));
                }
            },
            _ => {},
        }
    }
}

/// A run reports success only where the drive has done what the erase needs. A short erase
/// was done. A long one was started on a tape without partitions and a minimum one on a
/// tape with the temporary partition; the drive was asked and has said that the erase is
/// complete; and the partitions were removed.
pub proof fn erase_success_was_complete(mode: EraseMode, told: Seq<TapeReply>)
    requires
        erase_run(mode, told).action == EraseActionModel::Finished(Ok(())),
    ensures
        mode is Short ==> was_done(mode, told, CommandModel::ShortErase),
        !(mode is Short) ==> {
            &&& was_done(mode, told, CommandModel::StartLongErase)
            &&& was_complete(mode, told)
            &&& was_done(mode, told, CommandModel::RemovePartitions)
            &&& was_done(mode, told, CommandModel::Rethread)
        },
        mode is MinimumPartitionLong ==> was_done(
            mode,
            told,
            CommandModel::CreateMinimumErasePartition,
        ),
{
    lemma_run(mode, told);
}

/// While the drive says that an erase is in progress, nothing is sent to it but the same
/// question, after a pause of thirty seconds; how far the drive is, is reported.
pub proof fn erase_is_waited_for(
    mode: EraseMode,
    told: Seq<TapeReply>,
    progress: Option<u16>,
    after_pause: TapeReply,
)
    requires
        erase_run(mode, told).action == EraseActionModel::Command(CommandModel::LongEraseStatus),
    ensures
        ({
            let asked = told.push(TapeReply::Erase(LongEraseStatus::InProgress { progress }));
            &&& erase_run(mode, asked).action == EraseActionModel::Command(
                CommandModel::Pause { seconds: 30 },
            )
            &&& erase_run(mode, asked).event is Some
            &&& erase_run(mode, asked).event->0.progress == progress
            &&& erase_run(mode, asked.push(after_pause)).action == EraseActionModel::Command(
                CommandModel::LongEraseStatus,
            )
        }),
{
    lemma_run(mode, told);
    let asked = told.push(TapeReply::Erase(LongEraseStatus::InProgress { progress }));
    assert(asked.drop_last() =~= told);
    assert(asked.push(after_pause).drop_last() =~= asked);
}

/// The partitions are removed behind a minimum erase only once the drive has said that the
/// erase is complete, or something was refused; in front of a long erase the tape has been
/// loaded; and a short erase removes none.
pub proof fn partitions_are_removed_in_time(mode: EraseMode, told: Seq<TapeReply>)
    requires
        erase_run(mode, told).action == EraseActionModel::Command(CommandModel::RemovePartitions),
    ensures
        !(mode is Short),
        mode is Long ==> was_done(mode, told, CommandModel::Load),
        mode is MinimumPartitionLong ==> was_complete(mode, told) || was_refused(mode, told),
{
    lemma_run(mode, told);
}

/// The replies of a drive that says so many times how far it is, with the pauses between.
pub open spec fn progress_replies(progress: Seq<Option<u16>>) -> Seq<TapeReply>
    decreases progress.len(),
{
    if progress.len() == 0 {
        Seq::empty()
    } else {
        progress_replies(progress.drop_last()).push(
            TapeReply::Erase(LongEraseStatus::InProgress { progress: progress.last() }),
        ).push(TapeReply::Done)
    }
}

proof fn lemma_progress(mode: EraseMode, told: Seq<TapeReply>, progress: Seq<Option<u16>>)
    requires
        erase_run(mode, told).action == EraseActionModel::Command(CommandModel::LongEraseStatus),
    ensures
        erase_run(mode, told + progress_replies(progress)).action == EraseActionModel::Command(
            CommandModel::LongEraseStatus,
        ),
        erase_run(mode, told + progress_replies(progress)).state == erase_run(mode, told).state,
    decreases progress.len(),
{
    lemma_run(mode, told);
    if progress.len() == 0 {
        assert(told + progress_replies(progress) =~= told);
    } else {
        lemma_progress(mode, told, progress.drop_last());
        let before = told + progress_replies(progress.drop_last());
        lemma_run(mode, before);
        let all = told + progress_replies(progress);
        let asked = before.push(
            TapeReply::Erase(LongEraseStatus::InProgress { progress: progress.last() }),
        );
        assert(all.drop_last() =~= asked);
        assert(all.last() is Done);
        assert(asked.drop_last() =~= before);
        assert(erase_run(mode, asked).state.stage is Wait);
        assert(erase_run(mode, all) == erase_next(erase_run(mode, asked).state, TapeReply::Done));
    }
}

/// An erase that the drive carries out, however often it is asked before it is complete,
/// ends well. A long erase loads the tape, removes its partitions, rethreads it and erases
/// it; a minimum erase makes the temporary partition, rethreads, erases, rethreads and
/// removes the partition.
pub proof fn carried_out_erase_ends_well(mode: EraseMode, progress: Seq<Option<u16>>)
    ensures
        ({
            let done = TapeReply::Done;
            let waited = progress_replies(progress);
            let complete = seq![TapeReply::Erase(LongEraseStatus::Complete)];
            let well = EraseActionModel::Finished(Ok(()));
            &&& erase_run(mode, Seq::empty()).action == EraseActionModel::Command(
                match mode {
                    EraseMode::Short => CommandModel::ShortErase,
                    EraseMode::Long => CommandModel::Load,
                    EraseMode::MinimumPartitionLong => CommandModel::CreateMinimumErasePartition,
                },
            )
            &&& mode is Short ==> erase_run(mode, seq![done]).action == well
            &&& mode is Long ==> {
                &&& erase_run(mode, seq![done]).action == EraseActionModel::Command(
                    CommandModel::RemovePartitions,
                )
                &&& erase_run(mode, seq![done, done]).action == EraseActionModel::Command(
                    CommandModel::Rethread,
                )
                &&& erase_run(mode, seq![done, done, done]).action == EraseActionModel::Command(
                    CommandModel::StartLongErase,
                )
                &&& erase_run(mode, seq![done, done, done, done] + waited + complete).action
                    == well
            }
            &&& mode is MinimumPartitionLong ==> {
                let over = seq![done, done, done] + waited + complete;
                &&& erase_run(mode, seq![done]).action == EraseActionModel::Command(
                    CommandModel::Rethread,
                )
                &&& erase_run(mode, seq![done, done]).action == EraseActionModel::Command(
                    CommandModel::StartLongErase,
                )
                &&& erase_run(mode, over).action == EraseActionModel::Command(
                    CommandModel::Rethread,
                )
                &&& erase_run(mode, over.push(done)).action == EraseActionModel::Command(
                    CommandModel::RemovePartitions,
                )
                &&& erase_run(mode, over.push(done).push(done)).action == well
            }
        }),
{
    let done = TapeReply::Done;
    let waited = progress_replies(progress);
    let complete = TapeReply::Erase(LongEraseStatus::Complete);
    let one = seq![done];
    let two = seq![done, done];
    let three = seq![done, done, done];
    let four = seq![done, done, done, done];
    assert(one.drop_last() =~= Seq::<TapeReply>::empty());
    assert(two.drop_last() =~= one);
    assert(three.drop_last() =~= two);
    assert(four.drop_last() =~= three);
    match mode {
        EraseMode::Short => {},
        EraseMode::Long => {
            lemma_progress(mode, four, progress);
            lemma_run(mode, four + waited);
            assert((four + waited + seq![complete]).drop_last() =~= four + waited);
        },
        EraseMode::MinimumPartitionLong => {
            lemma_progress(mode, three, progress);
            lemma_run(mode, three + waited);
            let over = three + waited + seq![complete];
            assert(over.drop_last() =~= three + waited);
            assert(over.push(done).drop_last() =~= over);
            assert(over.push(done).push(done).drop_last() =~= over.push(done));
        },
    }
}

/// A command that the drive refuses, other than a pause, makes the run fail with what the
/// drive said. A run that has made the temporary partition first rethreads the tape and
/// removes it, and then fails with the same.
pub proof fn refused_erase_fails(mode: EraseMode, told: Seq<TapeReply>, message: String)
    requires
        erase_run(mode, told).action is Command,
        !(erase_run(mode, told).action->Command_0 is Pause),
        !was_refused(mode, told),
        !was_complete(mode, told),
    ensures
        ({
            let refused = told.push(TapeReply::Failed(message));
            let failed = EraseActionModel::Finished(Err(message@));
            if was_done(mode, told, CommandModel::CreateMinimumErasePartition) {
                &&& erase_run(mode, refused).action == EraseActionModel::Command(
                    CommandModel::Rethread,
                )
                &&& erase_run(mode, refused.push(TapeReply::Done)).action
                    == EraseActionModel::Command(CommandModel::RemovePartitions)
                &&& erase_run(mode, refused.push(TapeReply::Done).push(TapeReply::Done)).action
                    == failed
            } else {
                erase_run(mode, refused).action == failed
            }
        }),
{
    lemma_run(mode, told);
    lemma_not_created_before(mode, told);
    let refused = told.push(TapeReply::Failed(message));
    assert(refused.drop_last() =~= told);
    assert(refused.push(TapeReply::Done).drop_last() =~= refused);
    assert(refused.push(TapeReply::Done).push(TapeReply::Done).drop_last() =~= refused.push(
        TapeReply::Done,
    ));
}

proof fn lemma_not_created_before(mode: EraseMode, told: Seq<TapeReply>)
    ensures
        was_done(mode, told, CommandModel::CreateMinimumErasePartition) ==> mode
            is MinimumPartitionLong && !(erase_run(mode, told).state.stage is MinimumCreate),
    decreases told.len(),
{
    lemma_run(mode, told);
    if was_done(mode, told, CommandModel::CreateMinimumErasePartition) {
        let i = choose|i: int| #[trigger]
            answers(mode, told, i, CommandModel::CreateMinimumErasePartition) && told[i] is Done;
        lemma_run(mode, told.take(i));
        let n = told.len() - 1;
        let before = told.drop_last();
        assert(told.take(n) =~= before);
        lemma_run(mode, before);
        lemma_not_created_before(mode, before);
    }
}

} // verus!
