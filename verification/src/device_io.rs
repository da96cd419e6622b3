//! How the program reads the outcome of its I/O on the HID gadget device:
//! which device it uses, and which error each failure becomes.

use vstd::prelude::*;
use crate::boot_config::{starts_with, text_starts_with, texts};
use crate::errors::ControllerError;
use crate::hardware::HardwareError;
use crate::text;

verus! {

/// The kind of an I/O failure, as far as the program tells them apart: the
/// caller sorts the operating system's error into one of these.
#[derive(Debug, Clone, Copy, PartialEq, Eq, Structural)]
pub enum IoFailure {
    PermissionDenied,
    NotFound,
    /// The host went away: a broken pipe or a shut-down endpoint.
    Disconnected,
    /// The operation would block.
    WouldBlock,
    Other,
}

/// The device to use: the one asked for, or the default when none is named.
pub fn device_path_or<'a>(device_path: &'a str, default: &'a str) -> (r: &'a str)
    ensures
        r@ == (if device_path@.len() == 0 { default@ } else { device_path@ }),
{
    if device_path.is_empty() {
        default
    } else {
        device_path
    }
}

/// `Failed to open <path>: <message>`.
pub open spec fn open_failed_text(path: Seq<char>, message: Seq<char>) -> Seq<char> {
    "Failed to open "@ + path + ": "@ + message
}

fn open_failed_message(path: &str, message: &str) -> (s: String)
    ensures
        s@ == open_failed_text(path@, message@),
{
    let mut s = text::owned("Failed to open ");
    text::push_str(&mut s, path);
    text::push_str(&mut s, ": ");
    text::push_str(&mut s, message);
    s
}

/// The error of failing to open the HID device at `path` for writing (or,
/// when `writing` is false, for reading): a refused permission, a missing
/// device, or else a failed write (read) with the system's message.
pub fn hid_open_failure(kind: IoFailure, path: &str, message: &str, writing: bool) -> (e: ControllerError)
    ensures
        kind == IoFailure::PermissionDenied ==> e == ControllerError::PermissionDenied,
        kind == IoFailure::NotFound ==> (e matches ControllerError::DevicePathNotAvailable(p) && p@ == path@),
        kind != IoFailure::PermissionDenied && kind != IoFailure::NotFound && writing
            ==> (e matches ControllerError::HidWriteFailed(m) && m@ == open_failed_text(path@, message@)),
        kind != IoFailure::PermissionDenied && kind != IoFailure::NotFound && !writing
            ==> (e matches ControllerError::HidReadFailed(m) && m@ == open_failed_text(path@, message@)),
{
    match kind {
        IoFailure::PermissionDenied => ControllerError::PermissionDenied,
        IoFailure::NotFound => ControllerError::DevicePathNotAvailable(text::owned(path)),
        _ => {
            let m = open_failed_message(path, message);
            if writing {
                ControllerError::HidWriteFailed(m)
            } else {
                ControllerError::HidReadFailed(m)
            }
        },
    }
}

/// The error of a device that exists but cannot be opened: a refused
/// permission, or else `Cannot open <path>: <message>`.
pub fn device_access_failure(kind: IoFailure, path: &str, message: &str) -> (e: ControllerError)
    ensures
        kind == IoFailure::PermissionDenied ==> e == ControllerError::PermissionDenied,
        kind != IoFailure::PermissionDenied ==> (e matches ControllerError::DeviceInitFailed(m)
            && m@ == "Cannot open "@ + path@ + ": "@ + message@),
{
    if kind == IoFailure::PermissionDenied {
        ControllerError::PermissionDenied
    } else {
        let mut m = text::owned("Cannot open ");
        text::push_str(&mut m, path);
        text::push_str(&mut m, ": ");
        text::push_str(&mut m, message);
        ControllerError::DeviceInitFailed(m)
    }
}

/// The error of failing to open the gadget device to send a report: a
/// refused permission, or else an I/O error with the system's message.
pub fn report_open_failure(kind: IoFailure, message: &str) -> (e: HardwareError)
    ensures
        kind == IoFailure::PermissionDenied ==> e == HardwareError::PermissionDenied,
        kind != IoFailure::PermissionDenied ==> (e matches HardwareError::IoError(m) && m@ == message@),
{
    if kind == IoFailure::PermissionDenied {
        HardwareError::PermissionDenied
    } else {
        HardwareError::IoError(text::owned(message))
    }
}

/// The error of failing to write a report: the console went away, or else
/// an I/O error with the system's message.
pub fn report_write_failure(kind: IoFailure, message: &str) -> (e: HardwareError)
    ensures
        kind == IoFailure::Disconnected ==> e == HardwareError::NotConnected,
        kind != IoFailure::Disconnected ==> (e matches HardwareError::IoError(m) && m@ == message@),
{
    if kind == IoFailure::Disconnected {
        HardwareError::NotConnected
    } else {
        HardwareError::IoError(text::owned(message))
    }
}

/// Whether a test report reached the console, from how writing it ended
/// (`None`: it was written). A write that would block still counts as
/// connected: the host is merely not polling; a disconnected host is not
/// connected; any other failure is an I/O error.
pub fn probe_outcome(failure: Option<IoFailure>, message: &str) -> (r: Result<bool, HardwareError>)
    ensures
        failure is None ==> r == Ok::<bool, HardwareError>(true),
        failure == Some(IoFailure::WouldBlock) ==> r == Ok::<bool, HardwareError>(true),
        failure == Some(IoFailure::Disconnected) ==> r == Ok::<bool, HardwareError>(false),
        (failure matches Some(k) && k != IoFailure::WouldBlock && k != IoFailure::Disconnected)
            ==> (r matches Err(HardwareError::IoError(m)) && m@ == message@),
{
    match failure {
        None => Ok(true),
        Some(IoFailure::WouldBlock) => Ok(true),
        Some(IoFailure::Disconnected) => Ok(false),
        Some(_) => Err(HardwareError::IoError(text::owned(message))),
    }
}

/// The HID gadget devices among the entries of `/dev`: those whose name
/// begins with `hidg`, as paths under `/dev`, in order.
pub open spec fn hid_device_paths_of(names: Seq<Seq<char>>) -> Seq<Seq<char>>
    decreases names.len(),
{
    if names.len() == 0 {
        Seq::empty()
    } else {
        let rest = hid_device_paths_of(names.drop_last());
        if starts_with(names.last(), "hidg"@) {
            rest.push("/dev/"@ + names.last())
        } else {
            rest
        }
    }
}

/// The HID gadget devices among the entries of `/dev`; see `hid_device_paths_of`.
pub fn hid_device_paths(names: &Vec<String>) -> (r: Vec<String>)
    ensures
        texts(r@) == hid_device_paths_of(texts(names@)),
{
    let mut r: Vec<String> = Vec::new();
    let mut i: usize = 0;
    while i < names.len()
        invariant
            i <= names@.len(),
            texts(r@) == hid_device_paths_of(texts(names@.take(i as int))),
        decreases names@.len() - i,
    {
        let ghost before = texts(r@);
        proof {
            assert(texts(names@.take(i + 1)).drop_last() =~= texts(names@.take(i as int)));
        }
        if text_starts_with(names[i].as_str(), "hidg") {
            let mut p = text::owned("/dev/");
            text::push_str(&mut p, names[i].as_str());
            r.push(p);
            assert(texts(r@) =~= before.push("/dev/"@ + names@[i as int]@));
        }
        i = i + 1;
    }
    assert(names@.take(i as int) =~= names@);
    r
}

/// The gadget devices the controller looks for, in order of preference.
pub open spec fn hid_candidate(i: int) -> Seq<char> {
    "/dev/hidg"@ + seq![text::digit_char(i as nat)]
}

/// The first of `/dev/hidg0` to `/dev/hidg3` that exists (`present[i]`
/// tells whether `/dev/hidg<i>` does), or `DeviceNotFound` when none does.
pub fn first_hid_device(present: &[bool; 4]) -> (r: Result<String, HardwareError>)
    ensures
        (exists|i: int| 0 <= i < 4 && present@[i]) ==> (r matches Ok(p) && exists|i: int|
            0 <= i < 4 && present@[i] && p@ == hid_candidate(i) && forall|j: int| 0 <= j < i ==> !present@[j]),
        !(exists|i: int| 0 <= i < 4 && present@[i]) ==> (r matches Err(HardwareError::DeviceNotFound(m))
            && m@ == "No HID gadget device found"@),
{
    let mut i: usize = 0;
    while i < 4
        invariant
            i <= 4,
            forall|j: int| 0 <= j < i ==> !present@[j],
        decreases 4 - i,
    {
        if present[i] {
            let mut p = text::owned("/dev/hidg");
            text::push_char(&mut p, text::digit(i as u64));
            assert(p@ =~= hid_candidate(i as int));
            return Ok(p);
        }
        i = i + 1;
    }
    Err(HardwareError::DeviceNotFound(text::owned("No HID gadget device found")))
}

} // verus!
