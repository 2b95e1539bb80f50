//! The pages of the jobs.
use vstd::prelude::*;
use vstd::string::*;

use super::view::{
    alerts_of, alerts_text, fact_line, number_else, number_or, text_else, text_line, text_or,
    yes_no, yes_no_text, LineModel, Lines, Tone,
};
use crate::device::channel_error::ChannelRate;
use crate::job::order::{operation_name, JobSpec, OperationKind};
use crate::job::state::{
    active, job_phase_name, EjectStatus, JobPhase, JobState, VerificationStatus,
};
use crate::text::{cat2, cat3, cat4, cat5, cat6, decimal, decimal_spec};

verus! {

/// How many jobs are still to do something.
pub open spec fn active_count(jobs: Seq<JobState>) -> nat
    decreases jobs.len(),
{
    if jobs.len() == 0 {
        0
    } else {
        active_count(jobs.drop_last()) + (if active(jobs.last().phase) {
            1nat
        } else {
            0
        })
    }
}

/// How many jobs are still to do something.
pub fn active_jobs(jobs: &Vec<JobState>) -> (count: usize)
    ensures
        count == active_count(jobs@),
        count <= jobs@.len(),
{
    let mut count: usize = 0;
    let mut i: usize = 0;
    assert(jobs@.subrange(0, 0) =~= Seq::<JobState>::empty());
    while i < jobs.len()
        invariant
            i <= jobs@.len(),
            count <= i,
            count == active_count(jobs@.subrange(0, i as int)),
        decreases jobs@.len() - i,
    {
        let ghost next = jobs@.subrange(0, i + 1);
        assert(next.drop_last() =~= jobs@.subrange(0, i as int));
        assert(next.last() == jobs@[i as int]);
        if jobs[i].phase.is_active() {
            count = count + 1;
        }
        i = i + 1;
    }
    assert(jobs@.subrange(0, i as int) =~= jobs@);
    count
}

/// Where the data of a job comes from.
pub open spec fn source_words(order: JobSpec) -> Seq<char> {
    if order.source_roots@.len() == 0 {
        order.source.path@
    } else {
        decimal_spec(order.source_roots@.len()) + " roots (first: "@ + order.source.path@ + ")"@
    }
}

fn words_of_source(order: &JobSpec) -> (text: String)
    ensures
        text@ == source_words(*order),
{
    if order.source_roots.len() == 0 {
        order.source.path.clone()
    } else {
        cat4(
            decimal(order.source_roots.len() as u64).as_str(),
            " roots (first: ",
            order.source.path.as_str(),
            ")",
        )
    }
}

/// Where the tape stands.
pub open spec fn position_words(partition: Option<u8>, block: Option<u64>) -> Seq<char> {
    match (partition, block) {
        (Some(p), Some(b)) => "p"@ + decimal_spec(p as nat) + "b"@ + decimal_spec(b as nat),
        _ => "—"@,
    }
}

fn words_of_position(partition: Option<u8>, block: Option<u64>) -> (text: String)
    ensures
        text@ == position_words(partition, block),
{
    match (partition, block) {
        (Some(p), Some(b)) => cat4("p", decimal(p as u64).as_str(), "b", decimal(b).as_str()),
        _ => "—".to_owned(),
    }
}

/// What a job that failed says, and that its cartridge has to be looked at.
pub open spec fn trouble_lines(job: JobState, advice: Seq<char>) -> Seq<LineModel> {
    (match job.error {
        Some(error) => seq![text_line("Error               "@ + error@, Tone::Bad)],
        None => Seq::<LineModel>::empty(),
    }) + (if job.requires_diagnosis {
        seq![text_line(advice, Tone::Busy)]
    } else {
        Seq::<LineModel>::empty()
    })
}

fn add_trouble(lines: &mut Lines, job: &JobState, advice: &str)
    ensures
        final(lines)@ == old(lines)@ + trouble_lines(*job, advice@),
{
    match &job.error {
        Some(error) => {
            lines.text(cat2("Error               ", error.as_str()).as_str(), Tone::Bad);
        },
        None => {},
    }
    if job.requires_diagnosis {
        lines.text(advice, Tone::Busy);
    }
    assert(lines@ =~= old(lines)@ + trouble_lines(*job, advice@));
}

/// The page of a job; how far it is and how fast, in words.
pub open spec fn job_page(job: JobState, percent: Seq<char>, speed: Seq<char>) -> Seq<LineModel> {
    let p = job.progress;
    seq![
        fact_line("Source"@, source_words(job.spec)),
        fact_line("Destination"@, job.spec.destination.path@),
        fact_line(
            "Drive"@,
            job.spec.drive_serial@ + " ("@ + job.spec.drive_selector@ + ")"@,
        ),
        fact_line("Progress"@, percent),
        fact_line(
            "Items"@,
            decimal_spec(p.items_completed as nat) + "/"@ + decimal_spec(p.items_total as nat),
        ),
        fact_line("Position"@, position_words(p.partition, p.logical_block)),
        fact_line("Tape throughput"@, speed),
        fact_line("Current"@, text_or(p.current_item, "—"@)),
        fact_line("Status"@, job.message@),
    ] + trouble_lines(job, "Media               consistency diagnosis required"@)
}

/// The page of a job; how far it is and how fast, in words.
pub fn job_lines(job: &JobState, percent: &str, speed: &str) -> (lines: Lines)
    ensures
        lines@ == job_page(*job, percent@, speed@),
{
    let p = &job.progress;
    let mut lines = Lines::new();
    lines.fact("Source", words_of_source(&job.spec).as_str());
    lines.fact("Destination", job.spec.destination.path.as_str());
    lines.fact(
        "Drive",
        cat4(
            job.spec.drive_serial.as_str(),
            " (",
            job.spec.drive_selector.as_str(),
            ")",
        ).as_str(),
    );
    lines.fact("Progress", percent);
    lines.fact(
        "Items",
        cat3(
            decimal(p.items_completed).as_str(),
            "/",
            decimal(p.items_total).as_str(),
        ).as_str(),
    );
    lines.fact("Position", words_of_position(p.partition, p.logical_block).as_str());
    lines.fact("Tape throughput", speed);
    lines.fact("Current", text_else(&p.current_item, "—").as_str());
    lines.fact("Status", job.message.as_str());
    add_trouble(&mut lines, job, "Media               consistency diagnosis required");
    assert(lines@ =~= job_page(*job, percent@, speed@));
    lines
}

/// A row of the list of jobs: its name, kind, phase, bytes and time.
#[derive(Debug, PartialEq, Eq)]
pub struct JobRow {
    pub id: String,
    pub kind: &'static str,
    pub phase: &'static str,
    pub bytes: String,
    pub updated_at: String,
    pub tone: Tone,
}

/// How a phase is meant.
pub open spec fn phase_tone(phase: JobPhase) -> Tone {
    match phase {
        JobPhase::Completed => Tone::Good,
        JobPhase::Cancelled => Tone::Busy,
        JobPhase::Failed => Tone::Bad,
        JobPhase::Interrupted => Tone::Bad,
        JobPhase::CancellationRequested => Tone::Busy,
        _ => Tone::Active,
    }
}

/// The row of a job.
pub fn job_row(job: &JobState, selected: bool) -> (row: JobRow)
    ensures
        row.id@ == job.spec.id@,
        row.kind@ == operation_name(job.spec.operation),
        row.phase@ == job_phase_name(job.phase),
        row.bytes@ == decimal_spec(job.progress.bytes_completed as nat) + "/"@ + decimal_spec(
            job.progress.bytes_total as nat,
        ),
        row.updated_at@ == job.updated_at@,
        row.tone == (if selected {
            Tone::Selected
        } else {
            phase_tone(job.phase)
        }),
{
    JobRow {
        id: job.spec.id.as_str().to_owned(),
        kind: job.spec.operation.name(),
        phase: job.phase.name(),
        bytes: cat3(
            decimal(job.progress.bytes_completed).as_str(),
            "/",
            decimal(job.progress.bytes_total).as_str(),
        ),
        updated_at: job.updated_at.clone(),
        tone: if selected {
            Tone::Selected
        } else {
            match job.phase {
                JobPhase::Completed => Tone::Good,
                JobPhase::Cancelled => Tone::Busy,
                JobPhase::Failed => Tone::Bad,
                JobPhase::Interrupted => Tone::Bad,
                JobPhase::CancellationRequested => Tone::Busy,
                _ => Tone::Active,
            }
        },
    }
}

// ---------------------------------------------------------------------------
// Completion
// ---------------------------------------------------------------------------

pub open spec fn verification_words(status: VerificationStatus) -> Seq<char> {
    match status {
        VerificationStatus::NotRequested => "Not requested"@,
        VerificationStatus::Running => "Running"@,
        VerificationStatus::Passed => "Passed (SHA-256 read-back)"@,
        VerificationStatus::Failed => "FAILED after index commit"@,
    }
}

fn words_of_verification(status: VerificationStatus) -> (text: &'static str)
    ensures
        text@ == verification_words(status),
{
    match status {
        VerificationStatus::NotRequested => "Not requested",
        VerificationStatus::Running => "Running",
        VerificationStatus::Passed => "Passed (SHA-256 read-back)",
        VerificationStatus::Failed => "FAILED after index commit",
    }
}

pub open spec fn eject_words(status: EjectStatus) -> Seq<char> {
    match status {
        EjectStatus::NotRequested => "Not requested; media remains loaded"@,
        EjectStatus::Pending => "Pending"@,
        EjectStatus::Succeeded => "Succeeded"@,
        EjectStatus::Failed(error) => "FAILED: "@ + error@,
    }
}

fn words_of_eject(status: &EjectStatus) -> (text: String)
    ensures
        text@ == eject_words(*status),
{
    match status {
        EjectStatus::NotRequested => "Not requested; media remains loaded".to_owned(),
        EjectStatus::Pending => "Pending".to_owned(),
        EjectStatus::Succeeded => "Succeeded".to_owned(),
        EjectStatus::Failed(error) => cat2("FAILED: ", error.as_str()),
    }
}

/// How the error counters of the drive changed.
pub open spec fn delta_words(corrected: Option<u64>, hard: Option<u64>) -> Seq<char> {
    "corrected "@ + number_or(corrected, "—"@) + " / hard "@ + number_or(hard, "—"@)
}

fn words_of_delta(corrected: Option<u64>, hard: Option<u64>) -> (text: String)
    ensures
        text@ == delta_words(corrected, hard),
{
    cat4(
        "corrected ",
        number_else(corrected, "—").as_str(),
        " / hard ",
        number_else(hard, "—").as_str(),
    )
}

/// The first part of the page of a job that is over.
pub open spec fn completion_head(job: JobState) -> Seq<LineModel> {
    let c = job.completion;
    seq![
        fact_line("Job"@, job.spec.id@),
        fact_line("Result"@, job_phase_name(job.phase)),
        fact_line("Message"@, job.message@),
        LineModel::Blank,
        fact_line("Barcode"@, text_or(job.spec.volume_barcode, "Unknown"@)),
        fact_line("Volume Name"@, text_or(job.spec.volume_name, "Unknown"@)),
        fact_line("LTFS generation"@, number_or(c.generation, "Unknown"@)),
        fact_line("Index / VCI committed"@, yes_no_text(c.index_committed)),
        fact_line("Read-back verify"@, verification_words(c.verification)),
        fact_line("Unload / Eject"@, eject_words(c.eject)),
        fact_line("Error delta W"@, delta_words(c.corrected_write_errors, c.hard_write_errors)),
        fact_line("Error delta R"@, delta_words(c.corrected_read_errors, c.hard_read_errors)),
        fact_line("TapeAlert"@, alerts_text(c.tape_alerts@)),
    ]
}

/// The second part; the worst channel in words.
pub open spec fn completion_tail(job: JobState, worst: Seq<char>) -> Seq<LineModel> {
    let p = job.progress;
    seq![
        fact_line("Session worst"@, worst),
        LineModel::Blank,
        fact_line(
            "Payload"@,
            decimal_spec(p.bytes_completed as nat) + " bytes; "@ + decimal_spec(
                p.items_completed as nat,
            ) + "/"@ + decimal_spec(p.items_total as nat) + " items"@,
        ),
        fact_line("Source"@, source_words(job.spec)),
        fact_line("Destination"@, job.spec.destination.path@),
    ] + trouble_lines(
        job,
        "Media               consistency diagnosis required before normal write/eject"@,
    )
}

/// The page of a job that is over; the worst channel in words.
pub fn completion_lines(job: &JobState, worst: &str) -> (lines: Lines)
    ensures
        lines@ == completion_head(*job) + completion_tail(*job, worst@),
{
    let c = &job.completion;
    let p = &job.progress;
    let mut lines = Lines::new();
    lines.fact("Job", job.spec.id.as_str());
    lines.fact("Result", job.phase.name());
    lines.fact("Message", job.message.as_str());
    lines.blank();
    lines.fact("Barcode", text_else(&job.spec.volume_barcode, "Unknown").as_str());
    lines.fact("Volume Name", text_else(&job.spec.volume_name, "Unknown").as_str());
    lines.fact("LTFS generation", number_else(c.generation, "Unknown").as_str());
    lines.fact("Index / VCI committed", yes_no(c.index_committed));
    lines.fact("Read-back verify", words_of_verification(c.verification));
    lines.fact("Unload / Eject", words_of_eject(&c.eject).as_str());
    lines.fact(
        "Error delta W",
        words_of_delta(c.corrected_write_errors, c.hard_write_errors).as_str(),
    );
    lines.fact(
        "Error delta R",
        words_of_delta(c.corrected_read_errors, c.hard_read_errors).as_str(),
    );
    lines.fact("TapeAlert", alerts_of(&c.tape_alerts).as_str());
    assert(lines@ =~= completion_head(*job));
    lines.fact("Session worst", worst);
    lines.blank();
    lines.fact(
        "Payload",
        cat6(
            decimal(p.bytes_completed).as_str(),
            " bytes; ",
            decimal(p.items_completed).as_str(),
            "/",
            decimal(p.items_total).as_str(),
            " items",
        ).as_str(),
    );
    lines.fact("Source", words_of_source(&job.spec).as_str());
    lines.fact("Destination", job.spec.destination.path.as_str());
    add_trouble(
        &mut lines,
        job,
        "Media               consistency diagnosis required before normal write/eject",
    );
    assert(lines@ =~= completion_head(*job) + completion_tail(*job, worst@));
    lines
}

// ---------------------------------------------------------------------------
// Throughput
// ---------------------------------------------------------------------------

/// What holds a job back, as far as its buffer shows.
pub open spec fn pressure_words(job: JobState) -> Seq<char> {
    let p = job.progress;
    match job.spec.operation {
        OperationKind::Read => if p.reader_waiting {
            "destination slow / buffer full"@
        } else if p.writer_waiting {
            "tape side limiting / buffer empty"@
        } else {
            "flowing"@
        },
        OperationKind::Write => if p.writer_waiting {
            "source starvation"@
        } else if p.reader_waiting {
            "buffer full"@
        } else {
            "flowing"@
        },
    }
}

fn words_of_pressure(job: &JobState) -> (text: &'static str)
    ensures
        text@ == pressure_words(*job),
{
    match job.spec.operation {
        OperationKind::Read => if job.progress.reader_waiting {
            "destination slow / buffer full"
        } else if job.progress.writer_waiting {
            "tape side limiting / buffer empty"
        } else {
            "flowing"
        },
        OperationKind::Write => if job.progress.writer_waiting {
            "source starvation"
        } else if job.progress.reader_waiting {
            "buffer full"
        } else {
            "flowing"
        },
    }
}

/// The line below the graph of the throughput; the source and the buffer in words.
pub open spec fn throughput_words(job: JobState, source: Seq<char>, buffer: Seq<char>) -> Seq<char> {
    match job.spec.operation {
        OperationKind::Read => " Buffer "@ + buffer + " │ "@ + pressure_words(job)
            + " │ Destination "@ + text_or(job.spec.destination.filesystem_type, "unknown"@)
            + " "@ + job.spec.destination.path@,
        OperationKind::Write => " Source I/O "@ + source + " │ Buffer "@ + buffer + " │ "@
            + pressure_words(job) + " │ Source "@ + text_or(
            job.spec.source.filesystem_type,
            "unknown"@,
        ),
    }
}

/// The line below the graph of the throughput; the source and the buffer in words.
pub fn throughput_line(job: &JobState, source: &str, buffer: &str) -> (text: String)
    ensures
        text@ == throughput_words(*job, source@, buffer@),
{
    let pressure = words_of_pressure(job);
    match job.spec.operation {
        OperationKind::Read => {
            let mut text = cat5(" Buffer ", buffer, " │ ", pressure, " │ Destination ");
            text.append(text_else(&job.spec.destination.filesystem_type, "unknown").as_str());
            text.append(" ");
            text.append(job.spec.destination.path.as_str());
            text
        },
        OperationKind::Write => {
            let mut text = cat6(" Source I/O ", source, " │ Buffer ", buffer, " │ ", pressure);
            text.append(" │ Source ");
            text.append(text_else(&job.spec.source.filesystem_type, "unknown").as_str());
            text
        },
    }
}

// ---------------------------------------------------------------------------
// Channels
// ---------------------------------------------------------------------------

/// A channel as it is shown: its rate by its ordering key.
#[derive(Debug, Clone, Copy, PartialEq, Eq, Structural)]
pub struct ChannelCell {
    pub channel: usize,
    pub rate: Option<i64>,
    pub idle: bool,
    pub worst: bool,
}

/// The first rate of a channel.
pub open spec fn rate_of(rates: Seq<ChannelRate>, channel: usize) -> Option<ChannelRate>
    decreases rates.len(),
{
    if rates.len() == 0 {
        None
    } else if rates[0].channel == channel {
        Some(rates[0])
    } else {
        rate_of(rates.drop_first(), channel)
    }
}

fn find_rate(rates: &Vec<ChannelRate>, channel: usize) -> (rate: Option<ChannelRate>)
    ensures
        rate == rate_of(rates@, channel),
{
    let mut i: usize = 0;
    assert(rates@.subrange(0, rates@.len() as int) =~= rates@);
    while i < rates.len()
        invariant
            i <= rates@.len(),
            rate_of(rates@, channel) == rate_of(
                rates@.subrange(i as int, rates@.len() as int),
                channel,
            ),
        decreases rates@.len() - i,
    {
        let ghost rest = rates@.subrange(i as int, rates@.len() as int);
        assert(rest[0] == rates@[i as int]);
        assert(rest.drop_first() =~= rates@.subrange(i + 1, rates@.len() as int));
        if rates[i].channel == channel {
            return Some(rates[i]);
        }
        i = i + 1;
    }
    None
}

/// The cell of a channel. The worst is told by its rate, or by its number.
pub open spec fn cell_of(
    rates: Seq<ChannelRate>,
    worst_rate: Option<i64>,
    worst_channel: Option<usize>,
    channel: usize,
) -> ChannelCell {
    let found = rate_of(rates, channel);
    let rate = match found {
        Some(r) => r.log10_bit_error_rate,
        None => None,
    };
    ChannelCell {
        channel,
        rate,
        idle: found is Some && !found->0.ccp_advanced,
        worst: (worst_rate is Some && rate == worst_rate) || worst_channel == Some(channel),
    }
}

/// The cells of the sixteen channels.
pub fn channel_cells(
    rates: &Vec<ChannelRate>,
    worst_rate: Option<i64>,
    worst_channel: Option<usize>,
) -> (cells: Vec<ChannelCell>)
    ensures
        cells@.len() == 16,
        forall|c: int|
            0 <= c < 16 ==> #[trigger] cells@[c] == cell_of(
                rates@,
                worst_rate,
                worst_channel,
                c as usize,
            ),
{
    let mut cells: Vec<ChannelCell> = Vec::new();
    let mut c: usize = 0;
    while c < 16
        invariant
            c <= 16,
            cells@.len() == c,
            forall|j: int|
                0 <= j < c ==> #[trigger] cells@[j] == cell_of(
                    rates@,
                    worst_rate,
                    worst_channel,
                    j as usize,
                ),
        decreases 16 - c,
    {
        let found = find_rate(rates, c);
        let rate: Option<i64> = match found {
            Some(r) => r.log10_bit_error_rate,
            None => None,
        };
        let idle = match found {
            Some(r) => !r.ccp_advanced,
            None => false,
        };
        let worst_now = match (worst_rate, rate) {
            (Some(w), Some(r)) => w == r,
            _ => false,
        };
        let named = match worst_channel {
            Some(w) => w == c,
            None => false,
        };
        cells.push(ChannelCell { channel: c, rate, idle, worst: worst_now || named });
        c = c + 1;
    }
    cells
}

} // verus!
