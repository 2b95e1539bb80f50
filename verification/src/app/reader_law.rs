//! What the reader of the source hands on is what it read.
use vstd::prelude::*;

use super::plan::PlannedModel;
use super::probe::saturating;
use super::reader::{MessageModel, ReaderActionModel, ReaderReply};
use super::write_law::{
    bytes_handed, files_ended, handed_on, lemma_nothing_handed_yet, reader_is_over, reader_run,
};

verus! {

/// How many sources have been opened, with the one that is opened now.
pub open spec fn opened(
    files: Seq<PlannedModel>,
    capacity: nat,
    cancelled: bool,
    told: Seq<(ReaderReply, bool)>,
) -> nat
    decreases told.len(),
{
    let now = if reader_run(files, capacity, cancelled, told).1 is Open {
        1nat
    } else {
        0nat
    };
    if told.len() == 0 {
        now
    } else {
        opened(files, capacity, cancelled, told.drop_last()) + now
    }
}

/// The bytes that were read of the source that was opened as number `k`.
pub open spec fn bytes_read(
    files: Seq<PlannedModel>,
    capacity: nat,
    cancelled: bool,
    told: Seq<(ReaderReply, bool)>,
    k: nat,
) -> Seq<u8>
    decreases told.len(),
{
    if told.len() == 0 {
        Seq::empty()
    } else {
        let rest = told.drop_last();
        let before = bytes_read(files, capacity, cancelled, rest, k);
        let asked = reader_run(files, capacity, cancelled, rest).1;
        match told.last().0 {
            ReaderReply::Bytes(bytes) => if (asked is Read || asked is MakeBlock) && opened(
                files,
                capacity,
                cancelled,
                rest,
            ) == k + 1 {
                before + bytes@
            } else {
                before
            },
            _ => before,
        }
    }
}

spec fn stands(
    files: Seq<PlannedModel>,
    capacity: nat,
    cancelled: bool,
    told: Seq<(ReaderReply, bool)>,
) -> bool {
    let (s, action) = reader_run(files, capacity, cancelled, told);
    let messages = handed_on(files, capacity, cancelled, told);
    &&& forall|k: nat| #[trigger]
        bytes_handed(messages, k) == bytes_read(files, capacity, cancelled, told, k)
    &&& !reader_is_over(action) ==> {
        &&& s.files == files
        &&& s.at < files.len()
        &&& files_ended(messages) == if s.stage is Closing {
            s.at + 1
        } else {
            s.at
        }
        &&& opened(files, capacity, cancelled, told) == if s.stage is Announced {
            s.at
        } else {
            s.at + 1
        }
        &&& s.actual_size == saturating(0, bytes_handed(messages, s.at).len() as int)
        &&& (s.stage is Reading <==> action is Read || action is MakeBlock)
        &&& action is Open ==> action == (ReaderActionModel::Open {
            source: files[s.at as int].source,
            size: files[s.at as int].size,
        })
        &&& action matches ReaderActionModel::Send(MessageModel::FileEnd { actual_size })
            ==> s.stage is Closing && actual_size == s.actual_size
    }
    &&& action is Finished ==> files_ended(messages) == files.len()
}

proof fn lemma_handed(messages: Seq<MessageModel>, message: MessageModel)
    ensures
        files_ended(messages.push(message)) == files_ended(messages) + if message is FileEnd {
            1nat
        } else {
            0nat
        },
        forall|k: nat| #[trigger]
            bytes_handed(messages.push(message), k) == (match message {
                MessageModel::Data(data) => if files_ended(messages) == k {
                    bytes_handed(messages, k) + data
                } else {
                    bytes_handed(messages, k)
                },
                _ => bytes_handed(messages, k),
            }),
{
    assert(messages.push(message).drop_last() =~= messages);
}

proof fn lemma_stands(
    files: Seq<PlannedModel>,
    capacity: nat,
    cancelled: bool,
    told: Seq<(ReaderReply, bool)>,
)
    ensures
        stands(files, capacity, cancelled, told),
    decreases told.len(),
{
    let (s, action) = reader_run(files, capacity, cancelled, told);
    let none = Seq::<MessageModel>::empty();
    if told.len() == 0 {
        match action {
            ReaderActionModel::Send(message) => {
                lemma_handed(none, message);
            },
            ReaderActionModel::Failed(message) => {
                lemma_handed(none, MessageModel::Error(message));
            },
            _ => {},
        }
        assert forall|k: nat| #[trigger]
            bytes_handed(handed_on(files, capacity, cancelled, told), k) == bytes_read(
            files,
            capacity,
            cancelled,
            told,
            k,
        ) by {
            assert(bytes_handed(none, k) == Seq::<u8>::empty());
        }
    } else {
        let rest = told.drop_last();
        lemma_stands(files, capacity, cancelled, rest);
        let (before, asked) = reader_run(files, capacity, cancelled, rest);
        let messages = handed_on(files, capacity, cancelled, rest);
        if !reader_is_over(asked) {
            match action {
                ReaderActionModel::Send(message) => {
                    lemma_handed(messages, message);
                },
                ReaderActionModel::Failed(message) => {
                    lemma_handed(messages, MessageModel::Error(message));
                },
                _ => {},
            }
            lemma_nothing_handed_yet(messages, files_ended(messages) + 1);
            if before.stage is Closing {
                lemma_nothing_ahead(files, capacity, cancelled, rest);
            }
            match told.last().0 {
                ReaderReply::Bytes(bytes) => {
                    if bytes@.len() == 0 {
                        assert forall|k: nat| #[trigger]
                            bytes_read(files, capacity, cancelled, told, k) == bytes_read(
                            files,
                            capacity,
                            cancelled,
                            rest,
                            k,
                        ) by {
                            assert(bytes_read(files, capacity, cancelled, rest, k) + bytes@
                                =~= bytes_read(files, capacity, cancelled, rest, k));
                        }
                    }
                },
                _ => {},
            }
        }
    }
}

/// Nothing is handed on of the file behind the one that has just ended.
proof fn lemma_nothing_ahead(
    files: Seq<PlannedModel>,
    capacity: nat,
    cancelled: bool,
    told: Seq<(ReaderReply, bool)>,
)
    requires
        stands(files, capacity, cancelled, told),
        !reader_is_over(reader_run(files, capacity, cancelled, told).1),
        reader_run(files, capacity, cancelled, told).0.stage is Closing,
    ensures
        ({
            let s = reader_run(files, capacity, cancelled, told).0;
            bytes_handed(handed_on(files, capacity, cancelled, told), s.at + 1) == Seq::<
                u8,
            >::empty()
        }),
    decreases told.len(),
{
    let messages = handed_on(files, capacity, cancelled, told);
    if told.len() > 0 {
        let rest = told.drop_last();
        lemma_stands(files, capacity, cancelled, rest);
        let before = handed_on(files, capacity, cancelled, rest);
        lemma_nothing_handed_yet(before, files_ended(before) + 1);
        let action = reader_run(files, capacity, cancelled, told).1;
        match action {
            ReaderActionModel::Send(message) => {
                lemma_handed(before, message);
            },
            _ => {},
        }
    }
}

/// What is handed on of a file is what was read of its source, no byte more or less, and in
/// its order; the sources are opened in the order of the plan, each once; the size that is
/// told at the end of a file is that of what was handed on; and a reader that finishes has
/// handed on all files.
pub proof fn reader_hands_on_what_it_read(
    files: Seq<PlannedModel>,
    capacity: nat,
    cancelled: bool,
    told: Seq<(ReaderReply, bool)>,
)
    ensures
        ({
            let action = reader_run(files, capacity, cancelled, told).1;
            let messages = handed_on(files, capacity, cancelled, told);
            let n = opened(files, capacity, cancelled, told);
            &&& forall|k: nat| #[trigger]
                bytes_handed(messages, k) == bytes_read(files, capacity, cancelled, told, k)
            &&& action matches ReaderActionModel::Open { source, size } ==> 0 < n <= files.len()
                && source == files[n - 1].source && size == files[n - 1].size
            &&& action matches ReaderActionModel::Send(MessageModel::FileEnd { actual_size })
                ==> actual_size == saturating(
                0,
                bytes_handed(messages, (files_ended(messages) - 1) as nat).len() as int,
            )
            &&& action is Finished ==> files_ended(messages) == files.len()
        }),
{
    lemma_stands(files, capacity, cancelled, told);
}

} // verus!
