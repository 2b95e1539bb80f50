//! What is shown, as lines and rows of text.
use vstd::prelude::*;
use vstd::string::*;

use super::state::{device_claimed, selected_device_claimed, EraseView, FormatView, UiState};

use crate::app::snapshot::{DeviceSnapshot, MediaLifecycle};

use crate::text::{cat3, decimal, decimal_spec, pad_right, right_padded};

verus! {

/// How a text is meant.
#[derive(Debug, Clone, Copy, PartialEq, Eq, Structural)]
pub enum Tone {
    Plain,
    Dim,
    /// What can be done.
    Active,
    Selected,
    Good,
    Bad,
    Busy,
    Danger,
}

/// A line of a page.
#[derive(Debug, PartialEq, Eq)]
pub enum ShownLine {
    Blank,
    /// A name and what it stands for.
    Fact { label: &'static str, value: String },
    Text { text: String, tone: Tone },
    /// A value that can be typed, between its name and what is said of it.
    Field { label: &'static str, value: String, behind: &'static str, typed: bool },
    /// How things stand.
    Status(String),
    /// A key and what it leads to.
    Hint { key: &'static str, label: &'static str },
}

/// The model of a line.
pub enum LineModel {
    Blank,
    Fact { label: Seq<char>, value: Seq<char> },
    Text { text: Seq<char>, tone: Tone },
    Field { label: Seq<char>, value: Seq<char>, behind: Seq<char>, typed: bool },
    Status(Seq<char>),
    Hint { key: Seq<char>, label: Seq<char> },
}

impl View for ShownLine {
    type V = LineModel;

    open spec fn view(&self) -> LineModel {
        match *self {
            ShownLine::Blank => LineModel::Blank,
            ShownLine::Fact { label, value } => LineModel::Fact { label: label@, value: value@ },
            ShownLine::Text { text, tone } => LineModel::Text { text: text@, tone },
            ShownLine::Field { label, value, behind, typed } => LineModel::Field {
                label: label@,
                value: value@,
                behind: behind@,
                typed,
            },
            ShownLine::Status(text) => LineModel::Status(text@),
            ShownLine::Hint { key, label } => LineModel::Hint { key: key@, label: label@ },
        }
    }
}

pub open spec fn line_models(list: Seq<ShownLine>) -> Seq<LineModel> {
    list.map_values(|l: ShownLine| l@)
}

/// A name and what it stands for.
pub open spec fn fact_line(label: Seq<char>, value: Seq<char>) -> LineModel {
    LineModel::Fact { label, value }
}

pub open spec fn text_line(text: Seq<char>, tone: Tone) -> LineModel {
    LineModel::Text { text, tone }
}

pub open spec fn hint_line(key: Seq<char>, label: Seq<char>) -> LineModel {
    LineModel::Hint { key, label }
}

/// The lines of a page as they are put together.
pub struct Lines {
    pub list: Vec<ShownLine>,
}

impl View for Lines {
    type V = Seq<LineModel>;

    open spec fn view(&self) -> Seq<LineModel> {
        line_models(self.list@)
    }
}

impl Lines {
    pub fn new() -> (lines: Lines)
        ensures
            lines@ == Seq::<LineModel>::empty(),
    {
        let lines = Lines { list: Vec::new() };
        assert(lines@ =~= Seq::<LineModel>::empty());
        lines
    }

    pub fn push(&mut self, line: ShownLine)
        ensures
            final(self)@ == old(self)@.push(line@),
    {
        let ghost before = self.list@;
        self.list.push(line);
        assert(line_models(self.list@) =~= line_models(before).push(line@));
    }

    pub fn blank(&mut self)
        ensures
            final(self)@ == old(self)@.push(LineModel::Blank),
    {
        self.push(ShownLine::Blank);
    }

    pub fn fact(&mut self, label: &'static str, value: &str)
        ensures
            final(self)@ == old(self)@.push(fact_line(label@, value@)),
    {
        self.push(ShownLine::Fact { label, value: value.to_owned() });
    }

    pub fn text(&mut self, text: &str, tone: Tone)
        ensures
            final(self)@ == old(self)@.push(text_line(text@, tone)),
    {
        self.push(ShownLine::Text { text: text.to_owned(), tone });
    }

    pub fn hint(&mut self, key: &'static str, label: &'static str)
        ensures
            final(self)@ == old(self)@.push(hint_line(key@, label@)),
    {
        self.push(ShownLine::Hint { key, label });
    }

    pub fn status(&mut self, text: &str)
        ensures
            final(self)@ == old(self)@.push(LineModel::Status(text@)),
    {
        self.push(ShownLine::Status(text.to_owned()));
    }
}

// ---------------------------------------------------------------------------
// Small words
// ---------------------------------------------------------------------------

pub open spec fn yes_no_text(value: bool) -> Seq<char> {
    if value {
        "Yes"@
    } else {
        "No"@
    }
}

pub fn yes_no(value: bool) -> (text: &'static str)
    ensures
        text@ == yes_no_text(value),
{
    if value {
        "Yes"
    } else {
        "No"
    }
}

/// A number, or a word where there is none.
pub open spec fn number_or(value: Option<u64>, other: Seq<char>) -> Seq<char> {
    match value {
        Some(n) => decimal_spec(n as nat),
        None => other,
    }
}

/// A number, or a word where there is none.
pub fn number_else(value: Option<u64>, other: &str) -> (text: String)
    ensures
        text@ == number_or(value, other@),
{
    match value {
        Some(n) => decimal(n),
        None => other.to_owned(),
    }
}

/// A counter of the drive.
pub fn counter(value: Option<u64>) -> (text: String)
    ensures
        text@ == number_or(value, "Unavailable"@),
{
    number_else(value, "Unavailable")
}

/// A text, or another where there is none.
pub open spec fn text_or(value: Option<String>, other: Seq<char>) -> Seq<char> {
    match value {
        Some(t) => t@,
        None => other,
    }
}

/// A text, or another where there is none.
pub fn text_else(value: &Option<String>, other: &str) -> (text: String)
    ensures
        text@ == text_or(*value, other@),
{
    match value {
        Some(t) => t.clone(),
        None => other.to_owned(),
    }
}

/// The alerts, with commas between them.
pub open spec fn alert_items(alerts: Seq<u16>) -> Seq<char>
    decreases alerts.len(),
{
    if alerts.len() == 0 {
        ""@
    } else if alerts.len() == 1 {
        decimal_spec(alerts[0] as nat)
    } else {
        alert_items(alerts.drop_last()) + ", "@ + decimal_spec(alerts.last() as nat)
    }
}

/// The alerts, with commas between them.
pub fn alert_list(alerts: &Vec<u16>) -> (text: String)
    ensures
        text@ == alert_items(alerts@),
{
    if alerts.len() == 0 {
        return "".to_owned();
    }
    let mut items = decimal(alerts[0] as u64);
    let mut i: usize = 1;
    assert(alerts@.subrange(0, 1).len() == 1);
    while i < alerts.len()
        invariant
            1 <= i <= alerts@.len(),
            items@ == alert_items(alerts@.subrange(0, i as int)),
        decreases alerts@.len() - i,
    {
        let ghost next = alerts@.subrange(0, i + 1);
        assert(next.drop_last() =~= alerts@.subrange(0, i as int));
        assert(next.last() == alerts@[i as int]);
        items = cat3(items.as_str(), ", ", decimal(alerts[i] as u64).as_str());
        i = i + 1;
    }
    assert(alerts@.subrange(0, i as int) =~= alerts@);
    items
}

/// The alerts of the drive in words.
pub open spec fn alerts_text(alerts: Seq<u16>) -> Seq<char> {
    if alerts.len() == 0 {
        "None"@
    } else {
        "["@ + alert_items(alerts) + "]"@
    }
}

/// The alerts of the drive in words.
pub fn alerts_of(alerts: &Vec<u16>) -> (text: String)
    ensures
        text@ == alerts_text(alerts@),
{
    if alerts.len() == 0 {
        return "None".to_owned();
    }
    cat3("[", alert_list(alerts).as_str(), "]")
}

// ---------------------------------------------------------------------------
// What can be done
// ---------------------------------------------------------------------------

/// A line that offers something to do with the cartridge.
pub open spec fn cartridge_line(
    key: Seq<char>,
    action: Seq<char>,
    description: Seq<char>,
    available: bool,
    locked: bool,
) -> LineModel {
    text_line(
        "["@ + key + "] "@ + right_padded(action, 19, ' ') + right_padded(description, 15, ' ') + (
        if locked {
            "Locked"@
        } else if available {
            "Ready"@
        } else {
            "—"@
        }),
        if available {
            Tone::Active
        } else {
            Tone::Dim
        },
    )
}

/// A line that offers something to do with the cartridge.
pub fn cartridge_operation_line(
    key: &str,
    action: &str,
    description: &str,
    available: bool,
    locked: bool,
) -> (line: ShownLine)
    ensures
        line@ == cartridge_line(key@, action@, description@, available, locked),
{
    let state = if locked {
        "Locked"
    } else if available {
        "Ready"
    } else {
        "—"
    };
    let text = crate::text::cat6(
        "[",
        key,
        "] ",
        pad_right(action, 19, ' ').as_str(),
        pad_right(description, 15, ' ').as_str(),
        state,
    );
    ShownLine::Text {
        text,
        tone: if available {
            Tone::Active
        } else {
            Tone::Dim
        },
    }
}

/// A line that offers something to do with the volume.
pub open spec fn ltfs_line(key: Seq<char>, action: Seq<char>, available: bool) -> LineModel {
    text_line(
        "["@ + key + "] "@ + right_padded(action, 27, ' ') + (if available {
            "Ready"@
        } else {
            "—"@
        }),
        if available {
            Tone::Active
        } else {
            Tone::Dim
        },
    )
}

/// A line that offers something to do with the volume.
pub fn ltfs_operation_line(key: &str, action: &str, available: bool) -> (line: ShownLine)
    ensures
        line@ == ltfs_line(key@, action@, available),
{
    let text = crate::text::cat5(
        "[",
        key,
        "] ",
        pad_right(action, 27, ' ').as_str(),
        if available {
            "Ready"
        } else {
            "—"
        },
    );
    ShownLine::Text {
        text,
        tone: if available {
            Tone::Active
        } else {
            Tone::Dim
        },
    }
}

// ---------------------------------------------------------------------------
// The part of a list that is shown
// ---------------------------------------------------------------------------

/// The part of a list that is shown: as much as there is room for, with the selected entry
/// in it.
pub open spec fn visible_spec(length: nat, selected: nat, capacity: nat) -> (nat, nat) {
    let room = if capacity == 0 {
        1
    } else {
        capacity
    };
    let wanted = if selected + 1 < room {
        room
    } else {
        selected + 1
    };
    let end = if length < wanted {
        length
    } else {
        wanted
    };
    (if end < room {
        0
    } else {
        (end - room) as nat
    }, end)
}

/// The part of a list that is shown.
pub fn visible_range(length: usize, selected: usize, capacity: usize) -> (range: (usize, usize))
    ensures
        range.0 <= range.1 <= length,
        selected < usize::MAX ==> (range.0 as nat, range.1 as nat) == visible_spec(
            length as nat,
            selected as nat,
            capacity as nat,
        ),
{
    let room: usize = if capacity == 0 {
        1
    } else {
        capacity
    };
    let below: usize = selected.saturating_add(1);
    let wanted: usize = if below < room {
        room
    } else {
        below
    };
    let end: usize = if length < wanted {
        length
    } else {
        wanted
    };
    (end.saturating_sub(room), end)
}

/// The selected entry is always shown, and no more entries than there is room for.
pub proof fn selection_is_visible(length: nat, selected: nat, capacity: nat)
    requires
        selected < length,
        capacity > 0,
    ensures
        ({
            let r = visible_spec(length, selected, capacity);
            r.0 <= selected < r.1 && r.1 <= length && r.1 - r.0 <= capacity
        }),
{
}

// ---------------------------------------------------------------------------
// The header
// ---------------------------------------------------------------------------

/// How the drive is, in one word.
#[derive(Debug, Clone, Copy, PartialEq, Eq, Structural)]
pub enum HeaderStatus {
    Error,
    Working,
    Warning,
    Healthy,
    Ready,
    NoMedia,
    Unknown,
}

/// Something about the drive, the cartridge or the volume is to be looked at.
pub open spec fn wants_attention(snapshot: DeviceSnapshot) -> bool {
    snapshot.warnings@.len() > 0 || (snapshot.diagnosis is Some
        && !snapshot.diagnosis->0.safe_for_normal_write) || (snapshot.health is Some && (
    snapshot.health->0.warnings@.len() > 0 || snapshot.health->0.tape_alerts@.len() > 0))
}

/// How the drive is, in one word.
pub open spec fn header_spec(s: UiState) -> HeaderStatus {
    if s.note.last_error is Some {
        HeaderStatus::Error
    } else if s.note.busy is Some || s.device.ltfs_open_pending || s.format.view is Running
        || s.erase.view is Running || device_claimed(s) {
        HeaderStatus::Working
    } else {
        match s.device.snapshot {
            Some(snapshot) => if wants_attention(snapshot) {
                HeaderStatus::Warning
            } else {
                match snapshot.lifecycle {
                    MediaLifecycle::LoadedThreaded => HeaderStatus::Healthy,
                    MediaLifecycle::PresentUnthreaded => HeaderStatus::Ready,
                    MediaLifecycle::NoMediaDetected => HeaderStatus::NoMedia,
                    _ => HeaderStatus::Unknown,
                }
            },
            None => HeaderStatus::Unknown,
        }
    }
}

/// How the drive is, in one word.
pub fn header_status(s: &UiState) -> (status: HeaderStatus)
    ensures
        status == header_spec(*s),
{
    if s.note.last_error.is_some() {
        return HeaderStatus::Error;
    }
    if s.note.busy.is_some() || s.device.ltfs_open_pending || s.format.view == FormatView::Running
        || s.erase.view == EraseView::Running || selected_device_claimed(s) {
        return HeaderStatus::Working;
    }
    match &s.device.snapshot {
        Some(snapshot) => {
            let unsafe_volume = match &snapshot.diagnosis {
                Some(d) => !d.safe_for_normal_write,
                None => false,
            };
            let unhealthy = match &snapshot.health {
                Some(h) => h.warnings.len() > 0 || h.tape_alerts.len() > 0,
                None => false,
            };
            if snapshot.warnings.len() > 0 || unsafe_volume || unhealthy {
                return HeaderStatus::Warning;
            }
            match snapshot.lifecycle {
                MediaLifecycle::LoadedThreaded => HeaderStatus::Healthy,
                MediaLifecycle::PresentUnthreaded => HeaderStatus::Ready,
                MediaLifecycle::NoMediaDetected => HeaderStatus::NoMedia,
                _ => HeaderStatus::Unknown,
            }
        },
        None => HeaderStatus::Unknown,
    }
}

/// The word for a status.
pub open spec fn header_word(status: HeaderStatus) -> Seq<char> {
    match status {
        HeaderStatus::Error => "ERROR"@,
        HeaderStatus::Working => "WORKING"@,
        HeaderStatus::Warning => "WARNING"@,
        HeaderStatus::Healthy => "HEALTHY"@,
        HeaderStatus::Ready => "READY"@,
        HeaderStatus::NoMedia => "NO MEDIA"@,
        HeaderStatus::Unknown => "UNKNOWN"@,
    }
}

impl HeaderStatus {
    pub fn word(self) -> (text: &'static str)
        ensures
            text@ == header_word(self),
    {
        match self {
            HeaderStatus::Error => "ERROR",
            HeaderStatus::Working => "WORKING",
            HeaderStatus::Warning => "WARNING",
            HeaderStatus::Healthy => "HEALTHY",
            HeaderStatus::Ready => "READY",
            HeaderStatus::NoMedia => "NO MEDIA",
            HeaderStatus::Unknown => "UNKNOWN",
        }
    }
}

// ---------------------------------------------------------------------------
// A graph in Braille dots
// ---------------------------------------------------------------------------

/// The sample whose column a sample falls in, when `count` samples share `columns`
/// columns.
pub open spec fn column_of(sample: int, count: int, columns: int) -> int {
    sample * columns / count
}

/// The highest key of the samples that fall in a column, at least zero.
pub open spec fn column_top(keys: Seq<i64>, columns: int, column: int) -> i64 {
    column_top_of(keys, keys.len() as int, columns, column)
}

/// The highest key among the first samples, of `count` in all, that fall in a column.
pub open spec fn column_top_of(keys: Seq<i64>, count: int, columns: int, column: int) -> i64
    decreases keys.len(),
{
    if keys.len() == 0 {
        0
    } else {
        let rest = column_top_of(keys.drop_last(), count, columns, column);
        if column_of(keys.len() - 1, count, columns) == column && keys.last() > rest {
            keys.last()
        } else {
            rest
        }
    }
}

/// The highest sample of each column, as ordering keys; the samples are spread over at
/// most `pixel_width` columns, in their order.
pub fn graph_columns(keys: &Vec<i64>, pixel_width: u16) -> (columns: Vec<i64>)
    requires
        keys@.len() <= u32::MAX,
    ensures
        columns@.len() == (if keys@.len() < pixel_width {
            keys@.len()
        } else {
            pixel_width as nat
        }),
        forall|c: int|
            0 <= c < columns@.len() ==> #[trigger] columns@[c] == column_top(
                keys@,
                columns@.len() as int,
                c,
            ),
{
    let n: usize = keys.len();
    let width: usize = if n < pixel_width as usize {
        n
    } else {
        pixel_width as usize
    };
    let mut columns: Vec<i64> = Vec::new();
    let mut c: usize = 0;
    while c < width
        invariant
            c <= width,
            columns@.len() == c,
            forall|j: int| 0 <= j < c ==> #[trigger] columns@[j] == 0,
        decreases width - c,
    {
        columns.push(0);
        c = c + 1;
    }
    let mut i: usize = 0;
    assert(keys@.subrange(0, 0).len() == 0);
    while i < n
        invariant
            n == keys@.len(),
            n <= u32::MAX,
            i <= n,
            width <= n,
            width <= u16::MAX,
            columns@.len() == width,
            width == 0 ==> n == 0 || pixel_width == 0,
            forall|j: int|
                0 <= j < width ==> #[trigger] columns@[j] == column_top_of(
                    keys@.subrange(0, i as int),
                    n as int,
                    width as int,
                    j,
                ),
        decreases n - i,
    {
        let ghost next = keys@.subrange(0, i + 1);
        assert(next.drop_last() =~= keys@.subrange(0, i as int));
        assert(next.last() == keys@[i as int]);
        if width > 0 {
            assert(0 <= i * width <= u32::MAX * u16::MAX) by (nonlinear_arith)
                requires
                    0 <= i < n,
                    n <= u32::MAX,
                    0 <= width <= u16::MAX,
            ;
            let at: usize = ((i as u64) * (width as u64) / (n as u64)) as usize;
            assert(i * width / (n as int) < width) by (nonlinear_arith)
                requires
                    0 <= i < n,
                    width > 0,
            ;
            assert(at == column_of(i as int, n as int, width as int));
            if keys[i] > columns[at] {
                columns.set(at, keys[i]);
            }
        }
        i = i + 1;
    }
    assert(keys@.subrange(0, n as int) =~= keys@);
    columns
}

/// The dot of a Braille cell at a place.
pub open spec fn dot_at(x: int, y: int) -> u8 {
    if x % 2 == 0 {
        if y % 4 == 0 {
            0x01
        } else if y % 4 == 1 {
            0x02
        } else if y % 4 == 2 {
            0x04
        } else {
            0x40
        }
    } else {
        if y % 4 == 0 {
            0x08
        } else if y % 4 == 1 {
            0x10
        } else if y % 4 == 2 {
            0x20
        } else {
            0x80
        }
    }
}

/// The dot at a place of the graph is set: the column there is filled that high.
pub open spec fn is_set(filled: Seq<usize>, width: int, height: int, x: int, y: int) -> bool {
    let offset = 2 * width - filled.len();
    offset <= x < 2 * width && 0 <= y < 4 * height && 4 * height - 1 - y < filled[x - offset]
}

/// The number of a Braille character: one for each dot that is set.
pub open spec fn cell_dots(filled: Seq<usize>, width: int, height: int, cx: int, cy: int) -> nat {
    let x = 2 * cx;
    let y = 4 * cy;
    let dot = |dx: int, dy: int|
        if is_set(filled, width, height, x + dx, y + dy) {
            dot_at(dx, dy) as nat
        } else {
            0
        };
    dot(0, 0) + dot(0, 1) + dot(0, 2) + dot(0, 3) + dot(1, 0) + dot(1, 1) + dot(1, 2) + dot(1, 3)
}

fn dot_of(filled: &Vec<usize>, width: usize, height: usize, x: usize, y: usize, bit: u8) -> (dots: u8)
    requires
        filled@.len() <= 2 * width,
        width <= 1000000,
        height <= 1000000,
        x < 2 * width,
        y < 4 * height,
    ensures
        dots == (if is_set(filled@, width as int, height as int, x as int, y as int) {
            bit
        } else {
            0
        }),
{
    let offset: usize = 2 * width - filled.len();
    if x >= offset && 4 * height - 1 - y < filled[x - offset] {
        bit
    } else {
        0
    }
}

/// The dots of each Braille cell of the graph: rows from the top, each as wide as the graph.
/// Column `c` is filled `filled[c]` dots high; what is missing on the left stays empty.
pub fn braille_rows(filled: &Vec<usize>, width: usize, height: usize) -> (rows: Vec<Vec<u8>>)
    requires
        filled@.len() <= 2 * width,
        width <= 1000000,
        height <= 1000000,
    ensures
        rows@.len() == height,
        forall|cy: int| 0 <= cy < height ==> (#[trigger] rows@[cy])@.len() == width,
        forall|cy: int, cx: int|
            0 <= cy < height && 0 <= cx < width ==> (#[trigger] rows@[cy]@[cx])
                == cell_dots(filled@, width as int, height as int, cx, cy),
{
    let mut rows: Vec<Vec<u8>> = Vec::new();
    let mut cy: usize = 0;
    while cy < height
        invariant
            cy <= height,
            filled@.len() <= 2 * width,
            width <= 1000000,
            height <= 1000000,
            rows@.len() == cy,
            forall|j: int| 0 <= j < cy ==> (#[trigger] rows@[j])@.len() == width,
            forall|j: int, k: int|
                0 <= j < cy && 0 <= k < width ==> (#[trigger] rows@[j]@[k])
                    == cell_dots(filled@, width as int, height as int, k, j),
        decreases height - cy,
    {
        let mut row: Vec<u8> = Vec::new();
        let mut cx: usize = 0;
        while cx < width
            invariant
                cx <= width,
                cy < height,
                filled@.len() <= 2 * width,
                width <= 1000000,
                height <= 1000000,
                row@.len() == cx,
                forall|k: int|
                    0 <= k < cx ==> (#[trigger] row@[k]) == cell_dots(
                        filled@,
                        width as int,
                        height as int,
                        k,
                        cy as int,
                    ),
            decreases width - cx,
        {
            let x: usize = 2 * cx;
            let y: usize = 4 * cy;
            let a: u8 = dot_of(filled, width, height, x, y, 0x01);
            let b: u8 = dot_of(filled, width, height, x, y + 1, 0x02);
            let c: u8 = dot_of(filled, width, height, x, y + 2, 0x04);
            let d: u8 = dot_of(filled, width, height, x, y + 3, 0x40);
            let e: u8 = dot_of(filled, width, height, x + 1, y, 0x08);
            let f: u8 = dot_of(filled, width, height, x + 1, y + 1, 0x10);
            let g: u8 = dot_of(filled, width, height, x + 1, y + 2, 0x20);
            let h: u8 = dot_of(filled, width, height, x + 1, y + 3, 0x80);
            let dots: u8 = a + b + c + d + e + f + g + h;
            assert(dots == cell_dots(filled@, width as int, height as int, cx as int, cy as int));
            row.push(dots);
            cx = cx + 1;
        }
        rows.push(row);
        cy = cy + 1;
    }
    rows
}

} // verus!
