//! The order in which an image is written to a physical drive: its table is
//! read, the drive is cleaned and opened, and the image is copied.

use vstd::prelude::*;
use crate::process::ProcessOutput;
use crate::winflash::{
    clean_failed_text, clean_finished, end_of, ends_fit, furthest_end, lemma_furthest_end,
    next_chunk, write_extent, GptError, GptPartition, CHUNK_SIZE,
};

verus! {

/// How far the writing of an image has come. A refusal is given in `S`.
#[derive(Debug)]
pub enum FlashState<S> {
    /// The partition table of the image has to be read.
    Table,
    /// The drive has to be cleaned. The image ends at `end`.
    Clean { end: u64 },
    /// The drive and the image have to be opened.
    Open { end: u64 },
    /// The bytes of the image up to `done` have been copied.
    Copy { end: u64, done: u64 },
    /// All has been copied; the drive has to be flushed.
    Flush { end: u64 },
    /// All has been written.
    Written { end: u64 },
    /// Nothing more is done.
    Refused(S),
}

impl View for FlashState<String> {
    type V = FlashState<Seq<char>>;

    open spec fn view(&self) -> FlashState<Seq<char>> {
        match *self {
            FlashState::Table => FlashState::Table,
            FlashState::Clean { end } => FlashState::Clean { end },
            FlashState::Open { end } => FlashState::Open { end },
            FlashState::Copy { end, done } => FlashState::Copy { end, done },
            FlashState::Flush { end } => FlashState::Flush { end },
            FlashState::Written { end } => FlashState::Written { end },
            FlashState::Refused(reason) => FlashState::Refused(reason@),
        }
    }
}

/// What came of what a [`FlashState`] asks for.
#[derive(Debug)]
pub enum FlashReply {
    /// The partitions of the image, or why its table is refused.
    Table(Result<Vec<GptPartition>, GptError>),
    /// The program that cleans the drive ended.
    Cleaned(ProcessOutput<String>),
    /// It was done. This answers all the rest.
    Done,
    /// It could not be done.
    Failed(String),
}

impl FlashReply {
    /// Whether the ends of the partitions can be counted with 64 bits.
    pub open spec fn in_range(self) -> bool {
        self matches FlashReply::Table(Ok(parts)) ==> ends_fit(parts@)
    }
}

/// The number of bytes that are copied next when `remaining` are left.
pub open spec fn chunk_of(remaining: int) -> int {
    if remaining < CHUNK_SIZE {
        remaining
    } else {
        CHUNK_SIZE as int
    }
}

impl FlashState<Seq<char>> {
    /// Whether the state is one that the work can reach.
    pub open spec fn valid(self) -> bool {
        self matches FlashState::Copy { end, done } ==> done < end
    }

    /// Whether nothing is left to do.
    pub open spec fn over(self) -> bool {
        self is Written || self is Refused
    }

    /// The state in which the bytes up to `done` have been copied.
    pub open spec fn copied(end: u64, done: u64) -> FlashState<Seq<char>> {
        if done < end {
            FlashState::Copy { end, done }
        } else {
            FlashState::Flush { end }
        }
    }

    /// The state that follows. A reply that does not fit changes nothing.
    pub open spec fn after(self, reply: FlashReply) -> FlashState<Seq<char>> {
        match (self, reply) {
            (FlashState::Table, FlashReply::Table(Ok(parts))) => if parts@.len() == 0 {
                FlashState::Refused("Image has no GPT partitions"@)
            } else {
                FlashState::Clean { end: furthest_end(parts@) as u64 }
            },
            (FlashState::Table, FlashReply::Table(Err(e))) => FlashState::Refused(e.text()),
            (FlashState::Clean { end }, FlashReply::Cleaned(output)) => if output.code == Some(
                0i32,
            ) {
                FlashState::Open { end }
            } else {
                FlashState::Refused(clean_failed_text(output@))
            },
            (FlashState::Open { end }, FlashReply::Done) => Self::copied(end, 0),
            (FlashState::Copy { end, done }, FlashReply::Done) => Self::copied(
                end,
                (done + chunk_of(end - done)) as u64,
            ),
            (FlashState::Flush { end }, FlashReply::Done) => FlashState::Written { end },
            (_, FlashReply::Failed(reason)) => if self.over() {
                self
            } else {
                FlashState::Refused(reason@)
            },
            _ => self,
        }
    }

    /// Whether a reply answers what the state asks for.
    pub open spec fn fits(self, reply: FlashReply) -> bool {
        match self {
            FlashState::Table => reply is Table || reply is Failed,
            FlashState::Clean { .. } => reply is Cleaned || reply is Failed,
            FlashState::Open { .. } => reply is Done || reply is Failed,
            FlashState::Copy { .. } => reply is Done || reply is Failed,
            FlashState::Flush { .. } => reply is Done || reply is Failed,
            FlashState::Written { .. } => false,
            FlashState::Refused(_) => false,
        }
    }

    /// The number of the part of the work that comes next, counted from the end.
    pub open spec fn parts_left(self) -> nat {
        match self {
            FlashState::Table => 5,
            FlashState::Clean { .. } => 4,
            FlashState::Open { .. } => 3,
            FlashState::Copy { .. } => 2,
            FlashState::Flush { .. } => 1,
            FlashState::Written { .. } => 0,
            FlashState::Refused(_) => 0,
        }
    }

    /// Whether the drive has been touched, or may be touched next.
    pub open spec fn touches_drive(self) -> bool {
        !(self is Table) && !(self is Refused)
    }

    /// The number of bytes that have been copied.
    pub open spec fn bytes_copied(self) -> int {
        match self {
            FlashState::Copy { done, .. } => done as int,
            FlashState::Flush { end } => end as int,
            FlashState::Written { end } => end as int,
            _ => 0,
        }
    }

    /// Where the image ends, once that is known.
    pub open spec fn end(self) -> Option<u64> {
        match self {
            FlashState::Clean { end } => Some(end),
            FlashState::Open { end } => Some(end),
            FlashState::Copy { end, .. } => Some(end),
            FlashState::Flush { end } => Some(end),
            FlashState::Written { end } => Some(end),
            _ => None,
        }
    }
}

impl FlashState<String> {
    /// The first state.
    pub fn start() -> (r: Self)
        ensures
            r@ == FlashState::<Seq<char>>::Table,
            r@.valid(),
    {
        FlashState::Table
    }

    /// The part of the image that is copied next: where it begins, and how many
    /// bytes it has.
    pub fn chunk(&self) -> (r: Option<(u64, u64)>)
        requires
            self@.valid(),
        ensures
            match self@ {
                FlashState::Copy { end, done } => r == Some(
                    (done, chunk_of(end - done) as u64),
                ) && 0 < chunk_of(end - done) <= end - done,
                _ => r is None,
            },
    {
        match self {
            FlashState::Copy { end, done } => Some((*done, next_chunk(*end - *done))),
            _ => None,
        }
    }

    fn copied_up_to(end: u64, done: u64) -> (r: Self)
        ensures
            r@ == FlashState::<Seq<char>>::copied(end, done),
    {
        if done < end {
            FlashState::Copy { end, done }
        } else {
            FlashState::Flush { end }
        }
    }

    /// The state that follows a reply. One that does not fit changes nothing.
    pub fn advance(self, reply: FlashReply) -> (r: Self)
        requires
            self@.valid(),
            reply.in_range(),
        ensures
            r@ == self@.after(reply),
            r@.valid(),
    {
        match (self, reply) {
            (FlashState::Table, FlashReply::Table(Ok(parts))) => {
                assert forall|i: int| 0 <= i < parts@.len() implies (
                #[trigger] parts@[i]).byte_offset + parts@[i].byte_size <= u64::MAX by {
                    assert(end_of(parts@[i]) <= u64::MAX);
                }
                match write_extent(&parts) {
                    Ok(end) => FlashState::Clean { end },
                    Err(e) => FlashState::Refused(e.message()),
                }
            },
            (FlashState::Table, FlashReply::Table(Err(e))) => FlashState::Refused(e.message()),
            (FlashState::Clean { end }, FlashReply::Cleaned(output)) => {
                match clean_finished(&output) {
                    Ok(_) => FlashState::Open { end },
                    Err(e) => FlashState::Refused(e),
                }
            },
            (FlashState::Open { end }, FlashReply::Done) => Self::copied_up_to(end, 0),
            (FlashState::Copy { end, done }, FlashReply::Done) => Self::copied_up_to(
                end,
                done + next_chunk(end - done),
            ),
            (FlashState::Flush { end }, FlashReply::Done) => FlashState::Written { end },
            (FlashState::Written { end }, FlashReply::Failed(_)) => FlashState::Written { end },
            (FlashState::Refused(reason), FlashReply::Failed(_)) => FlashState::Refused(reason),
            (_, FlashReply::Failed(reason)) => FlashState::Refused(reason),
            (state, _) => state,
        }
    }
}

/// A refused image never reaches the cleaning: the drive is touched only after a
/// table has been read that holds a partition, and a refusal is final.
pub proof fn lemma_refused_image_touches_nothing(state: FlashState<Seq<char>>, reply: FlashReply)
    ensures
        !state.touches_drive() && state.after(reply).touches_drive() ==> {
            &&& state is Table
            &&& reply matches FlashReply::Table(Ok(parts))
            &&& parts@.len() > 0
            &&& state.after(reply) == (FlashState::<Seq<char>>::Clean {
                end: furthest_end(parts@) as u64,
            })
        },
        state is Refused ==> state.after(reply) == state,
{
}

/// The parts of the work come in their order, and none is left out: cleaning
/// before opening, opening before copying, and copying before flushing.
pub proof fn lemma_flash_order(state: FlashState<Seq<char>>, reply: FlashReply)
    ensures
        ({
            let next = state.after(reply);
            &&& next is Clean ==> state is Table || state is Clean
            &&& next is Open && !(state is Open) ==> state is Clean && (
            reply matches FlashReply::Cleaned(output) && output.code == Some(0i32))
            &&& next is Copy ==> state is Open || state is Copy
            &&& next is Flush ==> state is Open || state is Copy || state is Flush
            &&& next is Written ==> state is Flush || state is Written
        }),
{
}

/// Every reply that fits brings the work nearer to its end: a part of it is done,
/// or fewer bytes are left to copy.
pub proof fn lemma_flash_ends(state: FlashState<Seq<char>>, reply: FlashReply)
    requires
        state.valid(),
        state.fits(reply),
    ensures
        ({
            let next = state.after(reply);
            ||| next.parts_left() < state.parts_left()
            ||| next.parts_left() == state.parts_left() && next.end() == state.end()
                && state.bytes_copied() < next.bytes_copied() <= state.end()->0
        }),
        state.parts_left() == 0 <==> state.over(),
{
}

/// The state after these replies.
pub open spec fn flashed(state: FlashState<Seq<char>>, replies: Seq<FlashReply>) -> FlashState<
    Seq<char>,
>
    decreases replies.len(),
{
    if replies.len() == 0 {
        state
    } else {
        flashed(state.after(replies[0]), replies.drop_first())
    }
}

/// The bytes that a reply adds to the drive: those that were to be copied, if the
/// copy was made.
pub open spec fn added(image: Seq<u8>, state: FlashState<Seq<char>>, reply: FlashReply) -> Seq<u8> {
    match (state, reply) {
        (FlashState::Copy { end, done }, FlashReply::Done) => image.subrange(
            done as int,
            done + chunk_of(end - done),
        ),
        _ => Seq::empty(),
    }
}

/// The bytes that the drive has received after these replies, in order.
pub open spec fn received(
    image: Seq<u8>,
    state: FlashState<Seq<char>>,
    replies: Seq<FlashReply>,
) -> Seq<u8>
    decreases replies.len(),
{
    if replies.len() == 0 {
        Seq::empty()
    } else {
        added(image, state, replies[0]) + received(
            image,
            state.after(replies[0]),
            replies.drop_first(),
        )
    }
}

proof fn lemma_received(
    image: Seq<u8>,
    state: FlashState<Seq<char>>,
    replies: Seq<FlashReply>,
    end: u64,
)
    requires
        state.valid(),
        flashed(state, replies) == (FlashState::<Seq<char>>::Written { end }),
        end <= image.len(),
    ensures
        state is Table || state.end() == Some(end),
        image.take(state.bytes_copied()) + received(image, state, replies) == image.take(
            end as int,
        ),
    decreases replies.len(),
{
    if replies.len() == 0 {
        assert(image.take(end as int) + Seq::<u8>::empty() == image.take(end as int));
    } else {
        let reply = replies[0];
        let rest = replies.drop_first();
        let next = state.after(reply);
        lemma_received(image, next, rest, end);
        let before = image.take(state.bytes_copied());
        let more = added(image, state, reply);
        assert(before + more =~= image.take(next.bytes_copied()));
        assert(before + (more + received(image, next, rest)) =~= (before + more) + received(
            image,
            next,
            rest,
        ));
    }
}

/// A drive that has been written has received the image from its first byte to
/// its end: every byte once and in order, and nothing after it.
pub proof fn lemma_drive_receives_image(image: Seq<u8>, replies: Seq<FlashReply>, end: u64)
    requires
        flashed(FlashState::Table, replies) == (FlashState::<Seq<char>>::Written { end }),
        end <= image.len(),
    ensures
        received(image, FlashState::Table, replies) == image.take(end as int),
{
    lemma_received(image, FlashState::Table, replies, end);
    let all = received(image, FlashState::Table, replies);
    assert(image.take(0) + all =~= all);
}

/// Whether a reply brought a table whose partitions end at `end` at the furthest,
/// all of them within 64 bits.
pub open spec fn brings_table(reply: FlashReply, end: u64) -> bool {
    &&& reply matches FlashReply::Table(Ok(parts))
    &&& parts@.len() > 0
    &&& end == furthest_end(parts@)
    &&& forall|i: int| 0 <= i < parts@.len() ==> end_of(#[trigger] parts@[i]) <= end
}

/// A drive that has been written was given every partition of the image in full:
/// the end of what was copied is the furthest end in the table that was read.
pub proof fn lemma_every_partition_is_written(replies: Seq<FlashReply>, end: u64)
    requires
        flashed(FlashState::Table, replies) == (FlashState::<Seq<char>>::Written { end }),
        forall|k: int| 0 <= k < replies.len() ==> (#[trigger] replies[k]).in_range(),
    ensures
        exists|k: int| 0 <= k < replies.len() && brings_table(#[trigger] replies[k], end),
    decreases replies.len(),
{
    let reply = replies[0];
    let rest = replies.drop_first();
    let next = FlashState::<Seq<char>>::Table.after(reply);
    if next is Table {
        assert forall|k: int| 0 <= k < rest.len() implies (#[trigger] rest[k]).in_range() by {
            assert(rest[k] == replies[k + 1]);
        }
        lemma_every_partition_is_written(rest, end);
        let k = choose|k: int| 0 <= k < rest.len() && brings_table(#[trigger] rest[k], end);
        assert(brings_table(replies[k + 1], end));
    } else {
        lemma_received(Seq::new(end as nat, |i: int| 0u8), next, rest, end);
        match reply {
            FlashReply::Table(Ok(parts)) => {
                lemma_furthest_end(parts@);
                let i = choose|i: int|
                    0 <= i < parts@.len() && end_of(#[trigger] parts@[i]) == furthest_end(parts@);
                assert(end_of(parts@[i]) <= u64::MAX);
                assert(brings_table(replies[0], end));
            },
            _ => {
                lemma_refusal_stays(next, rest);
            },
        }
    }
}

proof fn lemma_refusal_stays(state: FlashState<Seq<char>>, replies: Seq<FlashReply>)
    requires
        state is Refused,
    ensures
        flashed(state, replies) == state,
    decreases replies.len(),
{
    if replies.len() > 0 {
        lemma_refusal_stays(state, replies.drop_first());
    }
}

/// A drive is opened only if the program that cleans it ended with zero, and what
/// cannot be done at any part of the work ends it with the reason for that.
pub proof fn lemma_failed_part_ends_work(
    state: FlashState<Seq<char>>,
    end: u64,
    output: ProcessOutput<String>,
    reason: String,
)
    ensures
        ({
            let cleaned = (FlashState::<Seq<char>>::Clean { end }).after(
                FlashReply::Cleaned(output),
            );
            &&& cleaned is Open <==> output.code == Some(0i32)
            &&& output.code != Some(0i32) ==> cleaned is Refused
        }),
        !state.over() ==> state.after(FlashReply::Failed(reason)) == FlashState::Refused(reason@),
{
}

} // verus!
