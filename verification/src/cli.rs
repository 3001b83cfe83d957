//! The commands that prepare drives: their options, what they say, and how they
//! come to a drive that may be overwritten.

use vstd::prelude::*;
use crate::text::{
    concat2, concat3, first_word, first_word_of, is_space, lemma_first_word, same, texts,
};

verus! {

/// The options of the command that builds an image.
#[derive(Debug)]
pub struct BakeArgs {
    /// Target CPU architecture. It is for the user to see to it that the
    /// configuration matches: the build does not read it.
    pub arch: String,
    /// UUID for the kube-state partition. The image has no such partition, so the
    /// build does not read it: bootstrapping a drive does.
    pub kube_uuid: String,
    /// Output directory for the baked image.
    pub output_dir: String,
    /// Force rebuild even if output exists.
    pub force: bool,
}

impl Clone for BakeArgs {
    fn clone(&self) -> (r: Self)
        ensures
            r == *self,
    {
        BakeArgs {
            arch: self.arch.clone(),
            kube_uuid: self.kube_uuid.clone(),
            output_dir: self.output_dir.clone(),
            force: self.force,
        }
    }
}

/// A copy of a text that may be missing.
fn copy_of(s: &Option<String>) -> (r: Option<String>)
    ensures
        r == *s,
{
    match s {
        Some(text) => Some(text.clone()),
        None => None,
    }
}

/// The options of the command that bootstraps a drive.
#[derive(Debug)]
pub struct BootstrapArgs {
    /// Target block device. If omitted, the available disks are listed.
    pub drive: Option<String>,
    /// Node hostname.
    pub name: String,
    /// Node role.
    pub role: String,
    /// Cluster shared token (auto-generated if omitted).
    pub token: Option<String>,
    /// Control-plane endpoint IP (required for agents).
    pub server_ip: Option<String>,
    /// Static IP in CIDR notation.
    pub ip: Option<String>,
    /// Gateway IP.
    pub gateway: Option<String>,
    /// DNS server IP.
    pub dns: Option<String>,
    /// UUID for the kube-state partition.
    pub kube_uuid: String,
    /// Skip interactive confirmation.
    pub yes: bool,
}

impl Clone for BootstrapArgs {
    fn clone(&self) -> (r: Self)
        ensures
            r == *self,
    {
        BootstrapArgs {
            drive: copy_of(&self.drive),
            name: self.name.clone(),
            role: self.role.clone(),
            token: copy_of(&self.token),
            server_ip: copy_of(&self.server_ip),
            ip: copy_of(&self.ip),
            gateway: copy_of(&self.gateway),
            dns: copy_of(&self.dns),
            kube_uuid: self.kube_uuid.clone(),
            yes: self.yes,
        }
    }
}

/// The options of the command that flashes a drive.
#[derive(Debug)]
pub struct FlashArgs {
    /// Target block device. If omitted, the available disks are listed.
    pub drive: Option<String>,
    /// Path to the baked image file.
    pub image: String,
    /// Skip interactive confirmation.
    pub yes: bool,
}

impl Clone for FlashArgs {
    fn clone(&self) -> (r: Self)
        ensures
            r == *self,
    {
        FlashArgs { drive: copy_of(&self.drive), image: self.image.clone(), yes: self.yes }
    }
}

/// What is wrong with the options of a command.
#[derive(Debug, Clone, Copy, PartialEq, Eq, Structural)]
pub enum ArgsError {
    /// The role is neither `server` nor `agent`.
    UnknownRole,
    /// An agent does not know its server.
    NoServer,
}

impl ArgsError {
    /// What is said of the fault.
    pub open spec fn text(self) -> Seq<char> {
        match self {
            ArgsError::UnknownRole => "The role must be server or agent"@,
            ArgsError::NoServer => "--server-ip is required for agents"@,
        }
    }

    /// What is said of the fault.
    pub fn message(self) -> (r: String)
        ensures
            r@ == self.text(),
    {
        match self {
            ArgsError::UnknownRole => "The role must be server or agent".to_string(),
            ArgsError::NoServer => "--server-ip is required for agents".to_string(),
        }
    }
}

impl BootstrapArgs {
    /// Whether a node can be bootstrapped with these options: its role is
    /// `server` or `agent`, and an agent knows its server.
    pub fn check(&self) -> (r: Result<(), ArgsError>)
        ensures
            match r {
                Ok(_) => self.role@ == "server"@ || (self.role@ == "agent"@ && self.server_ip
                    is Some),
                Err(ArgsError::UnknownRole) => self.role@ != "server"@ && self.role@ != "agent"@,
                Err(ArgsError::NoServer) => self.role@ == "agent"@ && self.server_ip is None,
            },
    {
        let agent = same(self.role.as_str(), "agent");
        let server = same(self.role.as_str(), "server");
        proof {
            reveal_strlit("agent");
            reveal_strlit("server");
        }
        if server {
            return Ok(());
        }
        if !agent {
            return Err(ArgsError::UnknownRole);
        }
        match self.server_ip {
            Some(_) => Ok(()),
            None => Err(ArgsError::NoServer),
        }
    }
}

/// The line for an option, if it was given.
pub open spec fn option_line(label: Seq<char>, value: Option<String>) -> Seq<Seq<char>> {
    match value {
        Some(v) => seq![label + v@],
        None => Seq::empty(),
    }
}

/// What is shown of a node before its drive is overwritten.
pub open spec fn summary(args: BootstrapArgs, drive: Seq<char>, token: Seq<char>) -> Seq<Seq<char>> {
    seq![
        "    drive:      "@ + drive,
        "    name:       "@ + args.name@,
        "    role:       "@ + args.role@,
        "    token:      "@ + token,
    ] + option_line("    server-ip:  "@, args.server_ip) + option_line(
        "    ip:         "@,
        args.ip,
    ) + option_line("    gateway:    "@, args.gateway) + option_line("    dns:        "@, args.dns)
        + seq!["    kube-uuid:  "@ + args.kube_uuid@]
}

/// Appends the line for an option, if it was given.
fn push_option(lines: &mut Vec<String>, label: &str, value: &Option<String>)
    ensures
        texts(final(lines)@) == texts(old(lines)@) + option_line(label@, *value),
{
    let ghost before = lines@;
    if let Some(v) = value {
        lines.push(concat2(label, v.as_str()));
    }
    assert(texts(lines@) =~= texts(before) + option_line(label@, *value));
}

/// What is shown of a node before its drive is overwritten.
pub fn summary_lines(args: &BootstrapArgs, drive: &str, token: &str) -> (r: Vec<String>)
    ensures
        texts(r@) == summary(*args, drive@, token@),
{
    let mut lines: Vec<String> = Vec::new();
    lines.push(concat2("    drive:      ", drive));
    lines.push(concat2("    name:       ", args.name.as_str()));
    lines.push(concat2("    role:       ", args.role.as_str()));
    lines.push(concat2("    token:      ", token));
    assert(texts(lines@) =~= seq![
        "    drive:      "@ + drive@,
        "    name:       "@ + args.name@,
        "    role:       "@ + args.role@,
        "    token:      "@ + token@,
    ]);
    push_option(&mut lines, "    server-ip:  ", &args.server_ip);
    push_option(&mut lines, "    ip:         ", &args.ip);
    push_option(&mut lines, "    gateway:    ", &args.gateway);
    push_option(&mut lines, "    dns:        ", &args.dns);
    let ghost before = lines@;
    lines.push(concat2("    kube-uuid:  ", args.kube_uuid.as_str()));
    assert(texts(lines@) =~= texts(before) + seq!["    kube-uuid:  "@ + args.kube_uuid@]);
    lines
}

/// What is shown before a drive is flashed.
pub fn flash_summary_lines(args: &FlashArgs, drive: &str) -> (r: Vec<String>)
    ensures
        texts(r@) == seq!["    drive: "@ + drive@, "    image: "@ + args.image@],
{
    let mut lines: Vec<String> = Vec::new();
    lines.push(concat2("    drive: ", drive));
    lines.push(concat2("    image: ", args.image.as_str()));
    assert(texts(lines@) =~= seq!["    drive: "@ + drive@, "    image: "@ + args.image@]);
    lines
}

/// What is asked before a drive is overwritten.
pub fn consent_prompt(drive: &str) -> (r: String)
    ensures
        r@ == "WARNING: This will DESTROY ALL DATA on "@ + drive@ + ". Are you absolutely sure?"@,
{
    concat3("WARNING: This will DESTROY ALL DATA on ", drive, ". Are you absolutely sure?")
}

/// What is said of a drive that was bootstrapped.
pub fn bootstrapped_line(drive: &str) -> (r: String)
    ensures
        r@ == "✔ Drive "@ + drive@ + " bootstrapped successfully!"@,
{
    concat3("✔ Drive ", drive, " bootstrapped successfully!")
}

/// What is said of a drive that was flashed.
pub fn flashed_line(drive: &str) -> (r: String)
    ensures
        r@ == "✔ Drive "@ + drive@ + " flashed successfully!"@,
{
    concat3("✔ Drive ", drive, " flashed successfully!")
}

/// Why no drive is overwritten.
#[derive(Debug, Clone, Copy, PartialEq, Eq, Structural)]
pub enum Refusal {
    NoDisks,
    Aborted,
}

impl Refusal {
    /// What is said of the refusal.
    pub open spec fn text(self) -> Seq<char> {
        match self {
            Refusal::NoDisks => "No block devices found. Insert a drive and retry."@,
            Refusal::Aborted => "Aborted by user."@,
        }
    }

    /// What is said of the refusal.
    pub fn message(self) -> (r: String)
        ensures
            r@ == self.text(),
    {
        match self {
            Refusal::NoDisks => "No block devices found. Insert a drive and retry.".to_string(),
            Refusal::Aborted => "Aborted by user.".to_string(),
        }
    }
}

/// How far a command has come to a drive that may be overwritten.
#[derive(Debug)]
pub enum DriveState {
    /// The disks have to be listed.
    List,
    /// One of these disks has to be chosen. Each is a block device, with its
    /// details behind white space.
    Choose(Vec<String>),
    /// The user has to agree that this drive is overwritten.
    Ask(String),
    /// This drive may be overwritten.
    Ready(String),
    Refused(Refusal),
}

/// The drives that a [`DriveState`] holds, as texts.
#[verifier::ext_equal]
pub enum DriveView {
    List,
    Choose(Seq<Seq<char>>),
    Ask(Seq<char>),
    Ready(Seq<char>),
    Refused(Refusal),
}

impl View for DriveState {
    type V = DriveView;

    open spec fn view(&self) -> DriveView {
        match self {
            DriveState::List => DriveView::List,
            DriveState::Choose(disks) => DriveView::Choose(texts(disks@)),
            DriveState::Ask(drive) => DriveView::Ask(drive@),
            DriveState::Ready(drive) => DriveView::Ready(drive@),
            DriveState::Refused(refusal) => DriveView::Refused(*refusal),
        }
    }
}

/// What came of what a [`DriveState`] asks for.
#[derive(Debug)]
pub enum DriveReply {
    /// The disks that there are.
    Disks(Vec<String>),
    /// The position of the disk that was chosen.
    Chosen(usize),
    /// Whether the user agrees.
    Consent(bool),
}

impl DriveView {
    /// The drive is known: `yes` takes the place of the user's consent.
    pub open spec fn with_drive(drive: Seq<char>, yes: bool) -> DriveView {
        if yes {
            DriveView::Ready(drive)
        } else {
            DriveView::Ask(drive)
        }
    }

    /// Whether a reply answers what the state asks for.
    pub open spec fn fits(self, reply: DriveReply) -> bool {
        match (self, reply) {
            (DriveView::List, DriveReply::Disks(_)) => true,
            (DriveView::Choose(disks), DriveReply::Chosen(i)) => i < disks.len(),
            (DriveView::Ask(_), DriveReply::Consent(_)) => true,
            _ => false,
        }
    }

    /// The state that follows. A reply that does not fit changes nothing.
    pub open spec fn after(self, reply: DriveReply, yes: bool) -> DriveView {
        match (self, reply) {
            (DriveView::List, DriveReply::Disks(disks)) => if disks@.len() == 0 {
                DriveView::Refused(Refusal::NoDisks)
            } else {
                DriveView::Choose(texts(disks@))
            },
            (DriveView::Choose(disks), DriveReply::Chosen(i)) => if i < disks.len() {
                DriveView::with_drive(first_word(disks[i as int]), yes)
            } else {
                self
            },
            (DriveView::Ask(drive), DriveReply::Consent(agreed)) => if agreed {
                DriveView::Ready(drive)
            } else {
                DriveView::Refused(Refusal::Aborted)
            },
            _ => self,
        }
    }

    /// An upper bound on the replies that are still needed.
    pub open spec fn left(self) -> nat {
        match self {
            DriveView::List => 3,
            DriveView::Choose(_) => 2,
            DriveView::Ask(_) => 1,
            DriveView::Ready(_) => 0,
            DriveView::Refused(_) => 0,
        }
    }
}

impl DriveState {
    /// The first state: a drive that was named need not be looked for.
    pub fn start(drive: Option<String>, yes: bool) -> (r: DriveState)
        ensures
            r@ == match drive {
                Some(d) => DriveView::with_drive(d@, yes),
                None => DriveView::List,
            },
    {
        match drive {
            Some(d) => DriveState::with_drive(d, yes),
            None => DriveState::List,
        }
    }

    fn with_drive(drive: String, yes: bool) -> (r: DriveState)
        ensures
            r@ == DriveView::with_drive(drive@, yes),
    {
        if yes {
            DriveState::Ready(drive)
        } else {
            DriveState::Ask(drive)
        }
    }

    /// The state that follows a reply. One that does not fit changes nothing.
    pub fn advance(self, reply: DriveReply, yes: bool) -> (r: DriveState)
        ensures
            r@ == self@.after(reply, yes),
    {
        match (self, reply) {
            (DriveState::List, DriveReply::Disks(disks)) => if disks.len() == 0 {
                DriveState::Refused(Refusal::NoDisks)
            } else {
                DriveState::Choose(disks)
            },
            (DriveState::Choose(disks), DriveReply::Chosen(i)) => if i < disks.len() {
                DriveState::with_drive(first_word_of(disks[i].as_str()), yes)
            } else {
                DriveState::Choose(disks)
            },
            (DriveState::Ask(drive), DriveReply::Consent(agreed)) => if agreed {
                DriveState::Ready(drive)
            } else {
                DriveState::Refused(Refusal::Aborted)
            },
            (state, _) => state,
        }
    }
}

/// No drive is overwritten without consent: a state becomes ready only by the
/// user's agreement to that very drive, or where the user said `yes` beforehand.
pub proof fn lemma_consent_is_needed(state: DriveView, reply: DriveReply, yes: bool)
    requires
        !(state is Ready),
        state.after(reply, yes) is Ready,
    ensures
        yes || (reply == DriveReply::Consent(true) && state == DriveView::Ask(
            state.after(reply, yes)->Ready_0,
        )),
{
}

/// Only a disk that was listed is chosen: the drive is the block device that the
/// chosen line names, without its details.
pub proof fn lemma_choice_is_listed(disks: Seq<Seq<char>>, i: usize, yes: bool)
    requires
        i < disks.len(),
    ensures
        DriveView::Choose(disks).after(DriveReply::Chosen(i), yes) == DriveView::with_drive(
            first_word(disks[i as int]),
            yes,
        ),
        disks.contains(disks[i as int]),
{
}

/// A disk that is chosen from the list is the drive that naming its block device
/// gives: from there on the two go the same way.
pub proof fn lemma_choosing_is_naming(
    device: Seq<char>,
    details: Seq<char>,
    disks: Seq<Seq<char>>,
    i: usize,
    yes: bool,
)
    requires
        i < disks.len(),
        disks[i as int] == device + details,
        device.len() > 0,
        forall|k: int| 0 <= k < device.len() ==> !is_space(#[trigger] device[k]),
        details.len() > 0 ==> is_space(details[0]),
    ensures
        DriveView::Choose(disks).after(DriveReply::Chosen(i), yes) == DriveView::with_drive(
            device,
            yes,
        ),
{
    lemma_first_word(device, details);
}

/// Every reply that fits brings the question of the drive closer to its end.
pub proof fn lemma_drive_is_settled(state: DriveView, reply: DriveReply, yes: bool)
    requires
        state.fits(reply),
    ensures
        state.after(reply, yes).left() < state.left(),
        state.left() == 0 <==> (state is Ready || state is Refused),
{
}

/// A refusal is final, and so is a drive that is ready.
pub proof fn lemma_settled_stays(state: DriveView, reply: DriveReply, yes: bool)
    requires
        state is Ready || state is Refused,
    ensures
        state.after(reply, yes) == state,
{
}

} // verus!
