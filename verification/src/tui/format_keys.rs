//! The keys of the format page.
use vstd::prelude::*;
use vstd::string::*;

use super::erase_keys::{
    is_leaving, is_letter, is_protected, leaves, letter, only_tells, protected,
};
use super::state::{
    device_claimed, selected_device_claimed, Effect, FormatField, FormatPane, FormatView, Key, Page,
    UiState, WorkerCommand,
};
use crate::app::format::{format_fault, is_control, FormatOptions, FormatRequest};
use crate::app::snapshot::{DeviceSnapshot, MediaLifecycle};
use crate::device::density::{lto_generation_suffix, lto_suffix_spec};
use crate::text::opt_view;

verus! {

/// The media id that the density of the cartridge gives.
pub open spec fn media_id_of(snapshot: DeviceSnapshot) -> Option<Seq<char>> {
    match snapshot.media {
        Some(media) => match media.density_code {
            Some(code) => lto_suffix_spec(code),
            None => None,
        },
        None => None,
    }
}

fn find_media_id(snapshot: &DeviceSnapshot) -> (id: Option<String>)
    ensures
        opt_view(id) == media_id_of(*snapshot),
{
    match &snapshot.media {
        Some(media) => match media.density_code {
            Some(code) => match lto_generation_suffix(code) {
                Some(suffix) => Some(suffix.to_owned()),
                None => None,
            },
            None => None,
        },
        None => None,
    }
}

/// The first six characters of the barcode that the cartridge remembers.
pub open spec fn serial_hint(snapshot: DeviceSnapshot) -> Seq<char> {
    match snapshot.media {
        Some(media) => match media.mam {
            Some(mam) => match mam.barcode {
                Some(barcode) => if barcode@.len() <= 6 {
                    barcode@
                } else {
                    barcode@.subrange(0, 6)
                },
                None => Seq::empty(),
            },
            None => Seq::empty(),
        },
        None => Seq::empty(),
    }
}

fn find_serial(snapshot: &DeviceSnapshot) -> (serial: String)
    ensures
        serial@ == serial_hint(*snapshot),
{
    match &snapshot.media {
        Some(media) => match &media.mam {
            Some(mam) => match &mam.barcode {
                Some(barcode) => if barcode.as_str().unicode_len() <= 6 {
                    barcode.clone()
                } else {
                    barcode.as_str().substring_char(0, 6).to_owned()
                },
                None => String::new(),
            },
            None => String::new(),
        },
        None => String::new(),
    }
}

/// Why the cartridge that is shown cannot be formatted.
pub open spec fn format_refusal(s: UiState) -> Option<Seq<char>> {
    if device_claimed(s) {
        Some("Format blocked: detached operation owns this drive"@)
    } else {
        match s.device.snapshot {
            None => Some("Format requires a device snapshot"@),
            Some(snapshot) => if !(snapshot.lifecycle is LoadedThreaded) {
                Some("Format requires loaded / threaded media"@)
            } else if protected(snapshot) {
                Some("Format blocked: cartridge is write protected"@)
            } else if media_id_of(snapshot) is None {
                Some("Format blocked: unable to derive LTO Media ID"@)
            } else {
                None
            },
        }
    }
}

/// The format page is opened, or it is told why not.
pub open spec fn format_opened(s: UiState, t: UiState) -> bool {
    match format_refusal(s) {
        Some(text) => only_tells(s, text, t),
        None => {
            let snapshot = s.device.snapshot->0;
            &&& t == (UiState { page: Page::Format, format: t.format, ..s })
            &&& t.format.view is Editing
            &&& t.format.field is VolumeSerial
            &&& t.format.volume_serial@ == serial_hint(snapshot)
            &&& t.format.volume_name@ == Seq::<char>::empty()
            &&& opt_view(t.format.media_id) == media_id_of(snapshot)
            &&& t.format.result is None
            &&& t.format.message@
                == "Enter a six-character Volume Serial and LTFS Volume Name"@
        },
    }
}

/// Opens the format page.
pub fn open_format_workflow(state: &mut UiState)
    ensures
        format_opened(*old(state), *final(state)),
{
    if selected_device_claimed(state) {
        state.note.status = "Format blocked: detached operation owns this drive".to_owned();
        return;
    }
    let found = match &state.device.snapshot {
        None => Err("Format requires a device snapshot"),
        Some(snapshot) => if snapshot.lifecycle != MediaLifecycle::LoadedThreaded {
            Err("Format requires loaded / threaded media")
        } else if is_protected(snapshot) {
            Err("Format blocked: cartridge is write protected")
        } else {
            match find_media_id(snapshot) {
                None => Err("Format blocked: unable to derive LTO Media ID"),
                Some(id) => Ok((id, find_serial(snapshot))),
            }
        },
    };
    match found {
        Err(text) => {
            state.note.status = text.to_owned();
        },
        Ok((id, serial)) => {
            let name = String::new();
            assert(name@ =~= Seq::<char>::empty());
            state.format = FormatPane {
                view: FormatView::Editing,
                field: FormatField::VolumeSerial,
                volume_serial: serial,
                volume_name: name,
                media_id: Some(id),
                message: "Enter a six-character Volume Serial and LTFS Volume Name".to_owned(),
                result: None,
            };
            state.page = Page::Format;
        },
    }
}

/// The text without its last character.
pub open spec fn popped(text: Seq<char>) -> Seq<char> {
    if text.len() == 0 {
        text
    } else {
        text.drop_last()
    }
}

/// The text without its last character.
pub fn pop(text: &String) -> (rest: String)
    ensures
        rest@ == popped(text@),
{
    let n: usize = text.as_str().unicode_len();
    if n == 0 {
        text.clone()
    } else {
        let rest = text.as_str().substring_char(0, n - 1).to_owned();
        assert(rest@ =~= text@.drop_last());
        rest
    }
}

/// A letter or digit of ASCII.
pub open spec fn is_alphanumeric(c: char) -> bool {
    ('a' <= c && c <= 'z') || ('A' <= c && c <= 'Z') || ('0' <= c && c <= '9')
}

/// The capital of a letter of ASCII.
pub open spec fn capital(c: char) -> char {
    if 'a' <= c && c <= 'z' {
        ((c as u32) - 32) as char
    } else {
        c
    }
}

fn capital_of(c: char) -> (upper: char)
    ensures
        upper == capital(c),
{
    if 'a' <= c && c <= 'z' {
        ((c as u8) - 32) as char
    } else {
        c
    }
}

/// How many bytes a text takes in UTF-8.
pub open spec fn byte_len(text: Seq<char>) -> nat {
    vstd::utf8::encode_utf8(text).len()
}

/// The serial with a character that was typed: letters become capitals, and there is room
/// for six.
pub open spec fn serial_typed(serial: Seq<char>, c: char) -> Seq<char> {
    if byte_len(serial) < 6 && is_alphanumeric(c) {
        serial.push(capital(c))
    } else {
        serial
    }
}

/// The name with a character that was typed: no control characters, and at most 255.
pub open spec fn name_typed(name: Seq<char>, c: char) -> Seq<char> {
    if name.len() < 255 && !is_control(c) {
        name.push(c)
    } else {
        name
    }
}

/// What a format is asked to make.
pub open spec fn asked_format(s: FormatPane) -> FormatRequest {
    crate::app::format::new_request(s.volume_serial@, s.volume_name@)
}

/// A key while the serial and the name are edited.
pub open spec fn editing_key(s: UiState, key: Key, t: UiState) -> bool {
    let f = s.format;
    match key {
        Key::Tab | Key::Up | Key::Down => t == (UiState {
            format: FormatPane {
                field: match f.field {
                    FormatField::VolumeSerial => FormatField::VolumeName,
                    FormatField::VolumeName => FormatField::VolumeSerial,
                },
                ..f
            },
            ..s
        }),
        Key::Backspace => match f.field {
            FormatField::VolumeSerial => t == (UiState {
                format: FormatPane { volume_serial: t.format.volume_serial, ..f },
                ..s
            }) && t.format.volume_serial@ == popped(f.volume_serial@),
            FormatField::VolumeName => t == (UiState {
                format: FormatPane { volume_name: t.format.volume_name, ..f },
                ..s
            }) && t.format.volume_name@ == popped(f.volume_name@),
        },
        Key::Char(c) => match f.field {
            FormatField::VolumeSerial => t == (UiState {
                format: FormatPane { volume_serial: t.format.volume_serial, ..f },
                ..s
            }) && t.format.volume_serial@ == serial_typed(f.volume_serial@, c),
            FormatField::VolumeName => t == (UiState {
                format: FormatPane { volume_name: t.format.volume_name, ..f },
                ..s
            }) && t.format.volume_name@ == name_typed(f.volume_name@, c),
        },
        Key::Enter => match format_fault(asked_format(f)) {
            Some(message) => t == (UiState {
                format: FormatPane { message: t.format.message, ..f },
                ..s
            }) && t.format.message@ == message,
            None => if byte_len(f.volume_serial@) == 6 {
                t == (UiState {
                    format: FormatPane {
                        view: FormatView::Confirm,
                        message: t.format.message,
                        ..f
                    },
                    ..s
                }) && t.format.message@
                    == "FINAL CONFIRMATION: formatting destroys all existing tape data"@
            } else {
                t == (UiState { format: FormatPane { message: t.format.message, ..f }, ..s })
                    && t.format.message@
                    == "Volume Serial must contain exactly six ASCII letters/digits"@
            },
        },
        _ => t == s,
    }
}

/// The options hold the serial and the name that were shown.
pub open spec fn sends_format(effect: Option<Effect>, f: FormatPane) -> bool {
    match effect {
        Some(Effect::Device(WorkerCommand::Format(options))) => options@ == asked_format(f),
        _ => false,
    }
}

/// What a key does on the format page.
pub open spec fn format_key(s: UiState, key: Key, t: UiState, effect: Option<Effect>) -> bool {
    let same = t == s && effect is None;
    match s.format.view {
        FormatView::Running => only_tells(
            s,
            "Format is running; TUI exit and device commands are disabled"@,
            t,
        ) && effect is None,
        FormatView::Complete => if leaves(key) {
            t == (UiState { page: Page::Ltfs, ..s }) && effect is None
        } else {
            same
        },
        FormatView::Confirm => if letter(key, 'y', 'Y') {
            t == (UiState {
                format: FormatPane {
                    view: FormatView::Running,
                    message: t.format.message,
                    ..s.format
                },
                ..s
            }) && t.format.message@ == "Starting destructive LTFS format"@ && sends_format(
                effect,
                s.format,
            )
        } else if letter(key, 'n', 'N') || leaves(key) {
            t == (UiState {
                format: FormatPane { view: FormatView::Editing, ..s.format },
                ..s
            }) && effect is None
        } else {
            same
        },
        FormatView::Editing => if leaves(key) {
            t == (UiState { page: Page::Ltfs, ..s }) && effect is None
        } else {
            editing_key(s, key, t) && effect is None
        },
    }
}

fn edit(state: &mut UiState, key: Key)
    ensures
        editing_key(*old(state), key, *final(state)),
{
    match key {
        Key::Tab | Key::Up | Key::Down => {
            state.format.field = match state.format.field {
                FormatField::VolumeSerial => FormatField::VolumeName,
                FormatField::VolumeName => FormatField::VolumeSerial,
            };
        },
        Key::Backspace => match state.format.field {
            FormatField::VolumeSerial => {
                state.format.volume_serial = pop(&state.format.volume_serial);
            },
            FormatField::VolumeName => {
                state.format.volume_name = pop(&state.format.volume_name);
            },
        },
        Key::Char(c) => match state.format.field {
            FormatField::VolumeSerial => {
                let room = state.format.volume_serial.as_str().as_bytes().len() < 6;
                if room && (('a' <= c && c <= 'z') || ('A' <= c && c <= 'Z') || ('0' <= c && c
                    <= '9')) {
                    state.format.volume_serial.push(capital_of(c));
                }
            },
            FormatField::VolumeName => {
                let room = state.format.volume_name.as_str().unicode_len() < 255;
                if room && !crate::app::format::is_control_char(c) {
                    state.format.volume_name.push(c);
                }
            },
        },
        Key::Enter => {
            let options = FormatOptions::new(
                state.format.volume_serial.as_str(),
                state.format.volume_name.as_str(),
            );
            match options.validate() {
                Ok(_) => {
                    if state.format.volume_serial.as_str().as_bytes().len() == 6 {
                        state.format.view = FormatView::Confirm;
                        state.format.message =
                        "FINAL CONFIRMATION: formatting destroys all existing tape data".to_owned();
                    } else {
                        state.format.message =
                        "Volume Serial must contain exactly six ASCII letters/digits".to_owned();
                    }
                },
                Err(error) => {
                    state.format.message = error;
                },
            }
        },
        _ => {},
    }
}

/// Takes a key on the format page.
pub fn handle_format_key(state: &mut UiState, key: Key) -> (effect: Option<Effect>)
    ensures
        format_key(*old(state), key, *final(state), effect),
{
    match state.format.view {
        FormatView::Running => {
            state.note.status =
            "Format is running; TUI exit and device commands are disabled".to_owned();
            None
        },
        FormatView::Complete => {
            if is_leaving(key) {
                state.page = Page::Ltfs;
            }
            None
        },
        FormatView::Confirm => {
            if is_letter(key, 'y', 'Y') {
                let options = FormatOptions::new(
                    state.format.volume_serial.as_str(),
                    state.format.volume_name.as_str(),
                );
                state.format.view = FormatView::Running;
                state.format.message = "Starting destructive LTFS format".to_owned();
                Some(Effect::Device(WorkerCommand::Format(options)))
            } else {
                if is_letter(key, 'n', 'N') || is_leaving(key) {
                    state.format.view = FormatView::Editing;
                }
                None
            }
        },
        FormatView::Editing => {
            if is_leaving(key) {
                state.page = Page::Ltfs;
            } else {
                edit(state, key);
            }
            None
        },
    }
}

/// The worker of the device did not take a format.
pub fn format_not_taken(state: &mut UiState)
    ensures
        *final(state) == (UiState {
            format: FormatPane {
                view: FormatView::Complete,
                message: final(state).format.message,
                ..old(state).format
            },
            ..*old(state)
        }),
        final(state).format.message@ == "FORMAT FAILED: device worker is unavailable"@,
{
    state.format.view = FormatView::Complete;
    state.format.message = "FORMAT FAILED: device worker is unavailable".to_owned();
}

/// A cartridge is formatted only once the user has confirmed it, and what was confirmed
/// had been found valid.
pub proof fn format_needs_confirmation(s: UiState, key: Key, t: UiState, effect: Option<Effect>)
    requires
        format_key(s, key, t, effect),
    ensures
        effect is Some ==> s.format.view is Confirm && letter(key, 'y', 'Y'),
        !(s.format.view is Confirm) && t.format.view is Confirm ==> format_fault(
            asked_format(s.format),
        ) is None && byte_len(s.format.volume_serial@) == 6,
{
}

} // verus!
