//! Which USB devices are passed through to the virtual machine that runs Docker.

use vstd::prelude::*;
use crate::text::{
    chars_of, concat3, contains, filled_lines, first_word, first_word_of, lines_of, same,
    starts_with, succeeded, text_contains, text_starts_with, texts,
};

verus! {

/// The text that `str::to_lowercase` makes of a text.
pub uninterp spec fn lowercase(s: Seq<char>) -> Seq<char>;

/// Calls `str::to_lowercase` of the standard library, which maps a text to its
/// lower case by the tables of Unicode. Nothing is claimed of the result but that
/// it depends on the text alone.
#[verifier::external_body]
fn to_lowercase(s: &str) -> (r: String)
    ensures
        r@ == lowercase(s@),
{
    s.to_lowercase()
}

/// Whether the description of a device, in lower case, speaks of storage.
pub open spec fn mentions_storage(lower: Seq<char>) -> bool {
    ||| contains(lower, "storage"@)
    ||| contains(lower, "card"@)
    ||| contains(lower, "flash"@)
    ||| contains(lower, "usb disk"@)
    ||| contains(lower, "mass"@)
    ||| contains(lower, "sd"@)
}

/// Whether a line of the list of devices, which is `lower` in lower case, is that
/// of a storage device that is not attached yet.
pub open spec fn is_attachable(line: Seq<char>, lower: Seq<char>) -> bool {
    &&& line.len() > 0
    &&& !starts_with(line, "BUSID"@)
    &&& line[0] != '─'
    &&& contains(lower, "attached"@) ==> contains(lower, "not attached"@)
    &&& mentions_storage(lower)
    &&& first_word(line).len() > 0
    &&& first_word(line) != "BUSID"@
}

/// The bus identifier that stands in a line of the list of devices, if the device
/// is to be attached. `lower` is the line in lower case.
pub fn attachable_busid(line: &str, lower: &str) -> (r: Option<String>)
    ensures
        match r {
            Some(busid) => is_attachable(line@, lower@) && busid@ == first_word(line@),
            None => !is_attachable(line@, lower@),
        },
{
    let v = chars_of(line);
    if v.len() == 0 || text_starts_with(line, "BUSID") || v[0] == '─' {
        return None;
    }
    if text_contains(lower, "attached") && !text_contains(lower, "not attached") {
        return None;
    }
    let is_storage = text_contains(lower, "storage") || text_contains(lower, "card")
        || text_contains(lower, "flash") || text_contains(lower, "usb disk") || text_contains(
        lower,
        "mass",
    ) || text_contains(lower, "sd");
    if !is_storage {
        return None;
    }
    let busid = first_word_of(line);
    if busid.as_str().is_empty() || same(busid.as_str(), "BUSID") {
        return None;
    }
    Some(busid)
}

/// A USB device that is to be attached, with the line that describes it. Its
/// texts are `S`.
#[derive(Debug)]
#[verifier::ext_equal]
pub struct UsbDevice<S> {
    pub line: S,
    pub busid: S,
}

impl View for UsbDevice<String> {
    type V = UsbDevice<Seq<char>>;

    open spec fn view(&self) -> UsbDevice<Seq<char>> {
        UsbDevice { line: self.line@, busid: self.busid@ }
    }
}

/// The device that a line of the list describes.
pub open spec fn device_of(line: Seq<char>) -> UsbDevice<Seq<char>> {
    UsbDevice { line, busid: first_word(line) }
}

/// The lines of the list of devices whose devices are to be attached.
pub open spec fn attachable_lines(lines: Seq<Seq<char>>) -> Seq<Seq<char>> {
    lines.filter(|l: Seq<char>| is_attachable(l, lowercase(l)))
}

/// The storage devices that are not attached yet, in the order in which `usbipd`
/// has listed them.
pub open spec fn devices_of(stdout: Seq<char>) -> Seq<UsbDevice<Seq<char>>> {
    attachable_lines(filled_lines(stdout)).map_values(|l: Seq<char>| device_of(l))
}

/// The texts of a list of devices.
pub open spec fn device_texts(devices: Seq<UsbDevice<String>>) -> Seq<UsbDevice<Seq<char>>> {
    devices.map_values(|d: UsbDevice<String>| d@)
}

/// The storage devices that are not attached yet, in the order in which `usbipd`
/// has listed them.
pub fn usb_storage_to_attach(stdout: &str) -> (r: Vec<UsbDevice<String>>)
    ensures
        device_texts(r@) == devices_of(stdout@),
{
    let lines = lines_of(stdout);
    let mut r: Vec<UsbDevice<String>> = Vec::new();
    let ghost chosen = |l: Seq<char>| is_attachable(l, lowercase(l));
    let ghost describe = |l: Seq<char>| device_of(l);
    let ghost all = texts(lines@);
    let mut i: usize = 0;
    proof {
        reveal_with_fuel(Seq::filter, 2);
        assert(all.take(0) == Seq::<Seq<char>>::empty());
        assert(device_texts(r@) == all.take(0).filter(chosen).map_values(describe));
    }
    while i < lines.len()
        invariant
            i <= lines@.len(),
            all == texts(lines@),
            chosen == (|l: Seq<char>| is_attachable(l, lowercase(l))),
            describe == (|l: Seq<char>| device_of(l)),
            device_texts(r@) == all.take(i as int).filter(chosen).map_values(describe),
        decreases lines@.len() - i,
    {
        let line = lines[i].clone();
        let lower = to_lowercase(line.as_str());
        let ghost before = r@;
        let ghost kept = all.take(i as int).filter(chosen);
        proof {
            reveal_with_fuel(Seq::filter, 2);
            assert(all.take(i + 1).drop_last() == all.take(i as int));
            assert(all.take(i + 1).last() == line@);
        }
        if let Some(busid) = attachable_busid(line.as_str(), lower.as_str()) {
            let device = UsbDevice { line, busid };
            assert(device@ == device_of(line@));
            r.push(device);
            assert(device_texts(r@) =~= device_texts(before).push(device@));
            assert(kept.push(line@).map_values(describe) =~= kept.map_values(describe).push(
                device_of(line@),
            ));
        }
        i += 1;
    }
    assert(all.take(i as int) == all);
    r
}

/// How many seconds pass after a device has been attached.
pub const ATTACH_PAUSE: u64 = 3;

/// How far the passing through of devices has come.
#[derive(Debug)]
pub enum UsbState {
    /// It has to be found out whether `usbipd` is installed.
    Probe,
    /// `usbipd` has to be installed.
    Install,
    /// The search path has to be read again.
    Refresh,
    /// The devices have to be listed.
    List,
    /// These devices are left, and the first has to be attached.
    Attach(Vec<UsbDevice<String>>),
    /// These devices are left, and the first needs some time.
    Pause(Vec<UsbDevice<String>>),
    Done,
}

/// The texts of a [`UsbState`].
#[verifier::ext_equal]
pub enum UsbView {
    Probe,
    Install,
    Refresh,
    List,
    Attach(Seq<UsbDevice<Seq<char>>>),
    Pause(Seq<UsbDevice<Seq<char>>>),
    Done,
}

impl View for UsbState {
    type V = UsbView;

    open spec fn view(&self) -> UsbView {
        match *self {
            UsbState::Probe => UsbView::Probe,
            UsbState::Install => UsbView::Install,
            UsbState::Refresh => UsbView::Refresh,
            UsbState::List => UsbView::List,
            UsbState::Attach(devices) => UsbView::Attach(device_texts(devices@)),
            UsbState::Pause(devices) => UsbView::Pause(device_texts(devices@)),
            UsbState::Done => UsbView::Done,
        }
    }
}

/// What came of what a [`UsbState`] asks for. Its text is `S`.
#[derive(Debug)]
pub enum UsbReply<S> {
    /// The program could not be started.
    NotStarted,
    /// The program ended.
    Ended { code: Option<i32>, stdout: S },
    /// The time has passed.
    Waited,
}

impl View for UsbReply<String> {
    type V = UsbReply<Seq<char>>;

    open spec fn view(&self) -> UsbReply<Seq<char>> {
        match *self {
            UsbReply::NotStarted => UsbReply::NotStarted,
            UsbReply::Ended { code, stdout } => UsbReply::Ended { code, stdout: stdout@ },
            UsbReply::Waited => UsbReply::Waited,
        }
    }
}

/// The devices after the first.
pub open spec fn after_first(devices: Seq<UsbDevice<Seq<char>>>) -> Seq<UsbDevice<Seq<char>>> {
    if devices.len() == 0 {
        devices
    } else {
        devices.skip(1)
    }
}

impl UsbView {
    /// The state in which these devices are left.
    pub open spec fn attaching(devices: Seq<UsbDevice<Seq<char>>>) -> UsbView {
        if devices.len() == 0 {
            UsbView::Done
        } else {
            UsbView::Attach(devices)
        }
    }

    /// Whether a device is being attached, if the state speaks of one.
    pub open spec fn valid(self) -> bool {
        match self {
            UsbView::Attach(devices) => devices.len() > 0,
            UsbView::Pause(devices) => devices.len() > 0,
            _ => true,
        }
    }

    /// Whether a reply answers what the state asks for.
    pub open spec fn fits(self, reply: UsbReply<Seq<char>>) -> bool {
        match self {
            UsbView::Done => false,
            UsbView::Pause(_) => reply is Waited,
            _ => !(reply is Waited),
        }
    }

    /// The state that follows. `usbipd` is installed exactly where it does not
    /// run; without a search path or a list nothing is attached; and what comes of
    /// installing and of attaching does not matter. A reply that does not fit
    /// changes nothing.
    pub open spec fn after(self, reply: UsbReply<Seq<char>>) -> UsbView {
        if !self.fits(reply) {
            self
        } else {
            match self {
                UsbView::Probe => match reply {
                    UsbReply::Ended { code, .. } => if code == Some(0i32) {
                        UsbView::List
                    } else {
                        UsbView::Install
                    },
                    _ => UsbView::Install,
                },
                UsbView::Install => UsbView::Refresh,
                UsbView::Refresh => if reply is NotStarted {
                    UsbView::Done
                } else {
                    UsbView::List
                },
                UsbView::List => match reply {
                    UsbReply::Ended { stdout, .. } => UsbView::attaching(devices_of(stdout)),
                    _ => UsbView::Done,
                },
                UsbView::Attach(devices) => UsbView::Pause(devices),
                UsbView::Pause(devices) => UsbView::attaching(after_first(devices)),
                UsbView::Done => UsbView::Done,
            }
        }
    }

    /// An upper bound on the replies that are still taken, once the devices are
    /// known.
    pub open spec fn replies_left(self) -> nat {
        match self {
            UsbView::Attach(devices) => 2 * devices.len(),
            UsbView::Pause(devices) => (2 * devices.len() - 1) as nat,
            _ => 0,
        }
    }

    /// The number of parts that are left.
    pub open spec fn parts_left(self) -> nat {
        match self {
            UsbView::Probe => 5,
            UsbView::Install => 4,
            UsbView::Refresh => 3,
            UsbView::List => 2,
            UsbView::Attach(_) => 1,
            UsbView::Pause(_) => 1,
            UsbView::Done => 0,
        }
    }
}

impl UsbState {
    /// The first state.
    pub fn start() -> (r: UsbState)
        ensures
            r@ == UsbView::Probe,
    {
        UsbState::Probe
    }

    fn attaching(devices: Vec<UsbDevice<String>>) -> (r: UsbState)
        ensures
            r@ == UsbView::attaching(device_texts(devices@)),
    {
        if devices.len() == 0 {
            UsbState::Done
        } else {
            UsbState::Attach(devices)
        }
    }

    /// The state that follows a reply. One that does not fit changes nothing.
    pub fn advance(self, reply: UsbReply<String>) -> (r: UsbState)
        ensures
            r@ == self@.after(reply@),
    {
        match (self, reply) {
            (UsbState::Pause(devices), UsbReply::Waited) => {
                let mut left = devices;
                if left.len() > 0 {
                    let _ = left.remove(0);
                    assert(device_texts(left@) =~= device_texts(devices@).skip(1));
                }
                Self::attaching(left)
            },
            (UsbState::Pause(devices), _) => UsbState::Pause(devices),
            (state, UsbReply::Waited) => state,
            (UsbState::Probe, UsbReply::Ended { code, .. }) => if succeeded(code) {
                UsbState::List
            } else {
                UsbState::Install
            },
            (UsbState::Probe, UsbReply::NotStarted) => UsbState::Install,
            (UsbState::Install, _) => UsbState::Refresh,
            (UsbState::Refresh, UsbReply::NotStarted) => UsbState::Done,
            (UsbState::Refresh, UsbReply::Ended { .. }) => UsbState::List,
            (UsbState::List, UsbReply::NotStarted) => UsbState::Done,
            (UsbState::List, UsbReply::Ended { stdout, .. }) => Self::attaching(
                usb_storage_to_attach(stdout.as_str()),
            ),
            (UsbState::Attach(devices), _) => UsbState::Pause(devices),
            (UsbState::Done, _) => UsbState::Done,
        }
    }
}

/// The arguments with which `winget` installs `usbipd`.
pub fn install_args() -> (r: Vec<String>)
    ensures
        texts(r@) == seq![
            "install"@,
            "--accept-source-agreements"@,
            "--accept-package-agreements"@,
            "usbipd"@,
            "-h"@,
        ],
{
    let mut r: Vec<String> = Vec::new();
    r.push("install".to_string());
    r.push("--accept-source-agreements".to_string());
    r.push("--accept-package-agreements".to_string());
    r.push("usbipd".to_string());
    r.push("-h".to_string());
    assert(texts(r@) =~= seq![
        "install"@,
        "--accept-source-agreements"@,
        "--accept-package-agreements"@,
        "usbipd"@,
        "-h"@,
    ]);
    r
}

/// The command with which PowerShell reads the search path again.
pub const REFRESH_PATH: &'static str = "& {[Environment]::SetEnvironmentVariable('Path', [Environment]::GetEnvironmentVariable('Path','Machine'), 'Process')}";

/// The arguments with which `powershell` reads the search path again.
pub fn refresh_args() -> (r: Vec<String>)
    ensures
        texts(r@) == seq!["-NoProfile"@, "-Command"@, REFRESH_PATH@],
{
    let mut r: Vec<String> = Vec::new();
    r.push("-NoProfile".to_string());
    r.push("-Command".to_string());
    r.push(REFRESH_PATH.to_string());
    assert(texts(r@) =~= seq!["-NoProfile"@, "-Command"@, REFRESH_PATH@]);
    r
}

/// The arguments with which `usbipd` lists the devices.
pub fn list_args() -> (r: Vec<String>)
    ensures
        texts(r@) == seq!["wsl"@, "list"@],
{
    let mut r: Vec<String> = Vec::new();
    r.push("wsl".to_string());
    r.push("list".to_string());
    assert(texts(r@) =~= seq!["wsl"@, "list"@]);
    r
}

/// The arguments with which `usbipd` attaches a device.
pub fn attach_args(busid: &str) -> (r: Vec<String>)
    ensures
        texts(r@) == seq!["wsl"@, "attach"@, "--busid"@, busid@],
{
    let mut r: Vec<String> = Vec::new();
    r.push("wsl".to_string());
    r.push("attach".to_string());
    r.push("--busid".to_string());
    r.push(busid.to_string());
    assert(texts(r@) =~= seq!["wsl"@, "attach"@, "--busid"@, busid@]);
    r
}

/// What is said before a device is attached.
pub fn attach_line(device: &UsbDevice<String>) -> (r: String)
    ensures
        r@ == "    attaching USB storage ("@ + device.line@ + ") via usbipd..."@,
{
    concat3("    attaching USB storage (", device.line.as_str(), ") via usbipd...")
}

/// Every reply that fits brings the passing through nearer to its end.
pub proof fn lemma_usb_ends(state: UsbView, reply: UsbReply<Seq<char>>)
    requires
        state.valid(),
        state.fits(reply),
    ensures
        ({
            let next = state.after(reply);
            &&& next.valid()
            &&& next.parts_left() < state.parts_left() || (next.parts_left() == state.parts_left()
                && next.replies_left() < state.replies_left())
        }),
{
}

/// The state after these replies.
pub open spec fn passed(state: UsbView, replies: Seq<UsbReply<Seq<char>>>) -> UsbView
    decreases replies.len(),
{
    if replies.len() == 0 {
        state
    } else {
        passed(state.after(replies[0]), replies.drop_first())
    }
}

/// The devices whose attaching was asked for and answered by these replies.
pub open spec fn attached(state: UsbView, replies: Seq<UsbReply<Seq<char>>>) -> Seq<
    UsbDevice<Seq<char>>,
>
    decreases replies.len(),
{
    if replies.len() == 0 {
        Seq::empty()
    } else {
        (match state {
            UsbView::Attach(devices) => if state.fits(replies[0]) {
                seq![devices[0]]
            } else {
                Seq::empty()
            },
            _ => Seq::empty(),
        }) + attached(state.after(replies[0]), replies.drop_first())
    }
}

/// The devices that a state still has to attach.
spec fn to_attach(state: UsbView) -> Seq<UsbDevice<Seq<char>>> {
    match state {
        UsbView::Attach(devices) => devices,
        UsbView::Pause(devices) => after_first(devices),
        _ => Seq::empty(),
    }
}

/// Once the devices have been listed, every one of them that is to be attached is
/// attached once, in the order of the list, whatever comes of it.
pub proof fn lemma_all_are_attached(
    devices: Seq<UsbDevice<Seq<char>>>,
    replies: Seq<UsbReply<Seq<char>>>,
)
    requires
        passed(UsbView::attaching(devices), replies) is Done,
    ensures
        attached(UsbView::attaching(devices), replies) == devices,
{
    lemma_attached(UsbView::attaching(devices), replies);
    assert(to_attach(UsbView::attaching(devices)) =~= devices);
}

proof fn lemma_attached(state: UsbView, replies: Seq<UsbReply<Seq<char>>>)
    requires
        state.valid(),
        state is Attach || state is Pause || state is Done,
        passed(state, replies) is Done,
    ensures
        attached(state, replies) == to_attach(state),
    decreases replies.len(),
{
    if replies.len() > 0 {
        let next = state.after(replies[0]);
        lemma_attached(next, replies.drop_first());
        match state {
            UsbView::Attach(devices) => {
                if state.fits(replies[0]) {
                    assert(seq![devices[0]] + devices.skip(1) =~= devices);
                } else {
                    assert(Seq::<UsbDevice<Seq<char>>>::empty() + devices =~= devices);
                }
            },
            UsbView::Pause(devices) => {
                assert(to_attach(next) =~= devices.skip(1));
                assert(Seq::<UsbDevice<Seq<char>>>::empty() + devices.skip(1) =~= devices.skip(1));
            },
            _ => {
                assert(attached(state, replies) =~= to_attach(state));
            },
        }
    }
}

/// `usbipd` is installed exactly where it does not answer with zero, and after that the
/// search path is read before the devices are listed. What is listed is taken as it is,
/// whatever the code.
pub proof fn lemma_usbipd_is_there_before_the_list(
    code: Option<i32>,
    stdout: Seq<char>,
    reply: UsbReply<Seq<char>>,
)
    ensures
        ({
            let ended = UsbReply::Ended { code, stdout };
            &&& UsbView::Probe.after(ended) is List <==> code == Some(0i32)
            &&& UsbView::Probe.after(ended) is Install <==> code != Some(0i32)
            &&& UsbView::Probe.after(UsbReply::NotStarted) is Install
            &&& UsbView::Refresh.after(ended) is List
            &&& UsbView::List.after(ended) == UsbView::attaching(devices_of(stdout))
        }),
        !(reply is Waited) ==> UsbView::Install.after(reply) is Refresh,
{
}

} // verus!
