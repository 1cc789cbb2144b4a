//! The composer: the rules by which a disk image is written, one step after
//! another, to an output that may fail.
//!
//! The composer itself neither reads nor writes. It says what is to be done
//! next, is told how that went, and decides what follows. Whoever drives it
//! creates the output, reads the kernel and writes the bytes.

use crate::error::Error;
use crate::info_block::KernelInfoBlock;
use crate::layout::{disk_image, lemma_image_len, padding_len, padding_size, zeros};
use vstd::prelude::*;
use vstd::slice::{slice_subrange, slice_to_vec};

verus! {

/// The most that the composer asks to be read of the kernel at a time.
pub const CHUNK_SIZE: usize = 1024;

/// How far the composition has come. The stages follow one another in the
/// order given here; `Failed` is reached from any stage but `Done`, and
/// nothing leads on from `Done` or `Failed`.
#[derive(Clone, Copy, Debug, PartialEq, Eq, Structural)]
pub enum Stage {
    /// The output is not created yet.
    Init,
    /// The output is empty; the bootloader is to be written.
    WriteBootloader,
    /// The kernel info block is to be written.
    WriteMetadata,
    /// The kernel is being copied, a chunk at a time.
    WriteKernel,
    /// The kernel is copied in full; the padding is to be written.
    WritePadding,
    /// The image is complete.
    Done,
    /// The composition was given up; what the output holds is of no use.
    Failed,
}

/// What has happened to the thing that the composer asked for.
#[derive(Debug)]
pub enum Event {
    /// The output was created, or the bytes were written in full.
    Completed,
    /// The kernel source was read and delivered these bytes; none means that
    /// it is exhausted.
    Read(Vec<u8>),
    /// The read was interrupted before it delivered anything.
    Interrupted,
    /// Creating, reading or writing failed in any other way.
    Failed,
}

/// What the composer asks to be done next.
#[derive(Debug)]
pub enum Action<'a> {
    /// Create the output, or empty it if it exists.
    Create,
    /// Append these bytes to the output.
    Write(&'a [u8]),
    /// Read at most `CHUNK_SIZE` bytes from the kernel source.
    Read,
    /// Nothing more: the image is complete.
    Finish,
    /// Nothing more: the composition has failed.
    Abort(Error),
}

/// The model of an action: what is asked for, with the bytes of a write as
/// a sequence.
pub enum Request {
    /// The output is to be created or emptied.
    Create,
    /// These bytes are to be appended to the output.
    Write(Seq<u8>),
    /// The kernel source is to be read.
    Read,
    /// The image is complete.
    Finish,
    /// The composition has failed for the given reason.
    Abort(Error),
}

impl<'a> View for Action<'a> {
    type V = Request;

    open spec fn view(&self) -> Request {
        match *self {
            Action::Create => Request::Create,
            Action::Write(bytes) => Request::Write(bytes@),
            Action::Read => Request::Read,
            Action::Finish => Request::Finish,
            Action::Abort(error) => Request::Abort(error),
        }
    }
}

/// The model of a composer: the stage it is in, the parts of its image, and
/// what has been read and written so far.
pub struct State {
    /// How far the composition has come.
    pub stage: Stage,
    /// The bootloader that the image starts with.
    pub bootloader: Seq<u8>,
    /// The kernel info block that follows the bootloader.
    pub info_block: Seq<u8>,
    /// The length that the kernel source has announced.
    pub kernel_size: u64,
    /// The kernel bytes that the source has delivered so far.
    pub kernel: Seq<u8>,
    /// The kernel bytes that were delivered and are not written yet.
    pub chunk: Seq<u8>,
    /// The bytes of all the writes that were completed, in their order.
    pub written: Seq<u8>,
}

/// The state in which every composition starts.
pub open spec fn initial(bootloader: Seq<u8>, info_block: Seq<u8>, kernel_size: u64) -> State {
    State {
        stage: Stage::Init,
        bootloader,
        info_block,
        kernel_size,
        kernel: Seq::empty(),
        chunk: Seq::empty(),
        written: Seq::empty(),
    }
}

/// What a composer in the given state asks for.
pub open spec fn request(state: State) -> Request {
    match state.stage {
        Stage::Init => Request::Create,
        Stage::WriteBootloader => Request::Write(state.bootloader),
        Stage::WriteMetadata => Request::Write(state.info_block),
        Stage::WriteKernel => if state.chunk.len() == 0 {
            Request::Read
        } else {
            Request::Write(state.chunk)
        },
        Stage::WritePadding => Request::Write(zeros(padding_len(state.kernel_size as int))),
        Stage::Done => Request::Finish,
        Stage::Failed => Request::Abort(Error::Io),
    }
}

/// The stage that follows a completed write.
pub open spec fn stage_after_write(stage: Stage) -> Stage {
    match stage {
        Stage::WriteBootloader => Stage::WriteMetadata,
        Stage::WriteMetadata => Stage::WriteKernel,
        Stage::WriteKernel => Stage::WriteKernel,
        Stage::WritePadding => Stage::Done,
        other => other,
    }
}

/// The given state after the composition was given up.
pub open spec fn failed(state: State) -> State {
    State { stage: Stage::Failed, ..state }
}

/// The state that follows the given one when the kernel source has delivered
/// `bytes`. The source must deliver exactly the length that it announced: one
/// that ends early or goes on for longer fails the composition.
pub open spec fn after_read(state: State, bytes: Seq<u8>) -> State {
    if bytes.len() == 0 {
        if state.kernel.len() == state.kernel_size {
            State { stage: Stage::WritePadding, ..state }
        } else {
            failed(state)
        }
    } else if state.kernel.len() + bytes.len() <= state.kernel_size {
        State { kernel: state.kernel + bytes, chunk: bytes, ..state }
    } else {
        failed(state)
    }
}

/// The state that follows the given one on the given event. A finished or
/// failed composition stays as it is. An interrupted read changes nothing,
/// so that the read is asked for again. An event that does not answer what
/// the composer asked for fails the composition, as a reported failure does.
pub open spec fn step(state: State, event: Event) -> State {
    match state.stage {
        Stage::Done | Stage::Failed => state,
        _ => match (request(state), event) {
            (Request::Create, Event::Completed) => State { stage: Stage::WriteBootloader, ..state },
            (Request::Write(bytes), Event::Completed) => State {
                stage: stage_after_write(state.stage),
                chunk: Seq::empty(),
                written: state.written + bytes,
                ..state
            },
            (Request::Read, Event::Read(bytes)) => after_read(state, bytes@),
            (Request::Read, Event::Interrupted) => state,
            _ => failed(state),
        },
    }
}

/// What holds of every state that a composition reaches: the writes that
/// were completed make up the image as far as the stage says, and the kernel
/// is no longer than announced.
pub open spec fn consistent(state: State) -> bool {
    match state.stage {
        Stage::Init | Stage::WriteBootloader => {
            &&& state.written == Seq::<u8>::empty()
            &&& state.kernel == Seq::<u8>::empty()
            &&& state.chunk == Seq::<u8>::empty()
        },
        Stage::WriteMetadata => {
            &&& state.written == state.bootloader
            &&& state.kernel == Seq::<u8>::empty()
            &&& state.chunk == Seq::<u8>::empty()
        },
        Stage::WriteKernel => {
            &&& state.written + state.chunk == state.bootloader + state.info_block + state.kernel
            &&& state.kernel.len() <= state.kernel_size
        },
        Stage::WritePadding => {
            &&& state.written == state.bootloader + state.info_block + state.kernel
            &&& state.kernel.len() == state.kernel_size
            &&& state.chunk == Seq::<u8>::empty()
        },
        Stage::Done => {
            &&& state.written == disk_image(state.bootloader, state.info_block, state.kernel)
            &&& state.kernel.len() == state.kernel_size
            &&& state.chunk == Seq::<u8>::empty()
        },
        Stage::Failed => true,
    }
}

/// Every composition starts in a consistent state.
pub proof fn lemma_initial_consistent(bootloader: Seq<u8>, info_block: Seq<u8>, kernel_size: u64)
    ensures
        consistent(initial(bootloader, info_block, kernel_size)),
{
}

/// No event leads from a consistent state to one that is not, and none
/// changes the parts that the image is made of.
pub proof fn lemma_step_consistent(state: State, event: Event)
    requires
        consistent(state),
    ensures
        consistent(step(state, event)),
        step(state, event).bootloader == state.bootloader,
        step(state, event).info_block == state.info_block,
        step(state, event).kernel_size == state.kernel_size,
{
    let next = step(state, event);
    match state.stage {
        Stage::WriteMetadata => {
            if event is Completed {
                assert(next.written + next.chunk =~= next.bootloader + next.info_block
                    + next.kernel);
            }
        },
        Stage::WriteKernel => {
            if state.chunk.len() == 0 {
                assert(state.chunk =~= Seq::<u8>::empty());
                assert(state.written =~= state.written + state.chunk);
                if let Event::Read(bytes) = event {
                    if bytes@.len() > 0 && state.kernel.len() + bytes@.len() <= state.kernel_size {
                        assert(next.written + next.chunk =~= next.bootloader + next.info_block
                            + next.kernel);
                    }
                }
            } else if event is Completed {
                assert(next.written + next.chunk =~= next.bootloader + next.info_block
                    + next.kernel);
            }
        },
        _ => {},
    }
}

/// The bytes written grow by completed writes alone: by exactly the bytes
/// of the write that was asked for. That holds of failed compositions too.
pub proof fn lemma_step_written(state: State, event: Event)
    ensures
        step(state, event).written == (match (request(state), event) {
            (Request::Write(bytes), Event::Completed) => state.written + bytes,
            _ => state.written,
        }),
{
}

/// An interrupted read is not seen in the result: the composer is where it
/// was before, and asks for the read again.
pub proof fn lemma_interrupted_read(state: State)
    requires
        request(state) == Request::Read,
    ensures
        step(state, Event::Interrupted) == state,
        request(step(state, Event::Interrupted)) == Request::Read,
{
}

/// A failure reported at any stage but the last gives the composition up,
/// and a composition that was given up stays so.
pub proof fn lemma_failure_is_final(state: State, event: Event)
    ensures
        state.stage != Stage::Done ==> step(state, Event::Failed).stage == Stage::Failed,
        state.stage == Stage::Failed ==> step(state, event) == state,
        state.stage == Stage::Done ==> step(state, event) == state,
        request(failed(state)) == Request::Abort(Error::Io),
{
}

/// What a finished composition has written is the image of its parts, with
/// the kernel at its announced length. The image's length is the sum of the
/// lengths of its parts, and what follows the bootloader fills whole
/// sectors.
pub proof fn lemma_finished(state: State)
    requires
        consistent(state),
        state.stage == Stage::Done,
        state.info_block.len() == 512,
    ensures
        state.written == disk_image(state.bootloader, state.info_block, state.kernel),
        state.kernel.len() == state.kernel_size,
        state.written.len() == state.bootloader.len() + 512 + state.kernel_size + padding_len(
            state.kernel_size as int,
        ),
        (state.written.len() - state.bootloader.len()) % 512 == 0,
{
    lemma_image_len(state.bootloader, state.info_block, state.kernel);
}

/// The state that a composition reaches from the given one on the given
/// events, one after another.
pub open spec fn after(state: State, events: Seq<Event>) -> State
    decreases events.len(),
{
    if events.len() == 0 {
        state
    } else {
        step(after(state, events.drop_last()), events.last())
    }
}

/// Events that come one run after another lead where the two runs lead, one
/// after the other.
pub proof fn lemma_after_concat(state: State, first: Seq<Event>, second: Seq<Event>)
    ensures
        after(state, first + second) == after(after(state, first), second),
    decreases second.len(),
{
    if second.len() == 0 {
        assert(first + second =~= first);
    } else {
        lemma_after_concat(state, first, second.drop_last());
        assert((first + second).drop_last() =~= first + second.drop_last());
        assert((first + second).last() == second.last());
    }
}

/// Whatever happens, a composition is in a consistent state, and the parts
/// that its image is made of are those that it started with.
pub proof fn lemma_after_consistent(
    bootloader: Seq<u8>,
    info_block: Seq<u8>,
    kernel_size: u64,
    events: Seq<Event>,
)
    ensures
        consistent(after(initial(bootloader, info_block, kernel_size), events)),
        after(initial(bootloader, info_block, kernel_size), events).bootloader == bootloader,
        after(initial(bootloader, info_block, kernel_size), events).info_block == info_block,
        after(initial(bootloader, info_block, kernel_size), events).kernel_size == kernel_size,
    decreases events.len(),
{
    if events.len() > 0 {
        lemma_after_consistent(bootloader, info_block, kernel_size, events.drop_last());
        lemma_step_consistent(
            after(initial(bootloader, info_block, kernel_size), events.drop_last()),
            events.last(),
        );
    }
}

/// Whatever happens on the way, a composition that ends in `Done` has
/// written the image of its bootloader, its info block and the kernel that
/// was delivered, and that kernel has the length that was announced.
pub proof fn lemma_done_after(
    bootloader: Seq<u8>,
    info_block: Seq<u8>,
    kernel_size: u64,
    events: Seq<Event>,
)
    requires
        info_block.len() == 512,
        after(initial(bootloader, info_block, kernel_size), events).stage == Stage::Done,
    ensures
        ({
            let end = after(initial(bootloader, info_block, kernel_size), events);
            &&& end.kernel.len() == kernel_size
            &&& end.written == disk_image(bootloader, info_block, end.kernel)
            &&& end.written.len() == bootloader.len() + 512 + kernel_size + padding_len(
                kernel_size as int,
            )
            &&& (end.written.len() - bootloader.len()) % 512 == 0
        }),
{
    lemma_after_consistent(bootloader, info_block, kernel_size, events);
    lemma_finished(after(initial(bootloader, info_block, kernel_size), events));
}

/// A read that is interrupted and then asked for again leaves no trace: the
/// composition ends where it ends without the interruption.
pub proof fn lemma_interruption_leaves_no_trace(
    state: State,
    before: Seq<Event>,
    rest: Seq<Event>,
)
    requires
        request(after(state, before)) == Request::Read,
    ensures
        after(state, before + seq![Event::Interrupted] + rest) == after(state, before + rest),
{
    let interrupted = seq![Event::Interrupted];
    lemma_after_concat(state, before + interrupted, rest);
    lemma_after_concat(state, before, interrupted);
    lemma_after_concat(state, before, rest);
    assert(interrupted.drop_last() =~= Seq::<Event>::empty());
    assert(after(after(state, before), interrupted) == step(
        after(after(state, before), interrupted.drop_last()),
        interrupted.last(),
    ));
    lemma_interrupted_read(after(state, before));
}

/// The composer of one disk image.
pub struct Composer {
    stage: Stage,
    bootloader: Vec<u8>,
    info_block: KernelInfoBlock,
    kernel_size: u64,
    /// The number of kernel bytes that the source has delivered.
    delivered: u64,
    /// The kernel bytes that are to be written next; none while a read is
    /// asked for.
    chunk: Vec<u8>,
    padding: Vec<u8>,
    kernel: Ghost<Seq<u8>>,
    written: Ghost<Seq<u8>>,
}

impl View for Composer {
    type V = State;

    closed spec fn view(&self) -> State {
        State {
            stage: self.stage,
            bootloader: self.bootloader@,
            info_block: self.info_block@,
            kernel_size: self.kernel_size,
            kernel: self.kernel@,
            chunk: self.chunk@,
            written: self.written@,
        }
    }
}

impl Composer {
    /// The composer is in a state that a composition reaches, and its own
    /// records agree with that state.
    pub closed spec fn wf(&self) -> bool {
        &&& consistent(self@)
        &&& self@.info_block.len() == 512
        &&& self.delivered == self.kernel@.len()
        &&& self.padding@ == zeros(padding_len(self.kernel_size as int))
    }

    /// A well-formed composer is in a consistent state, and its info block
    /// has the length of one.
    pub proof fn lemma_wf(&self)
        requires
            self.wf(),
        ensures
            consistent(self@),
            self@.info_block.len() == 512,
    {
    }

    /// Starts the composition of the image of the given bootloader and info
    /// block and of a kernel whose source announces `kernel_size` bytes.
    pub fn new(bootloader: Vec<u8>, info_block: KernelInfoBlock, kernel_size: u64) -> (composer:
        Composer)
        ensures
            composer.wf(),
            composer@ == initial(bootloader@, info_block@, kernel_size),
    {
        let count = padding_size(kernel_size);
        let mut padding: Vec<u8> = Vec::new();
        while padding.len() < count
            invariant
                padding@.len() <= count,
                forall|i: int| 0 <= i < padding@.len() ==> padding@[i] == 0,
            decreases count - padding@.len(),
        {
            padding.push(0);
        }
        proof {
            assert(padding@ =~= zeros(padding_len(kernel_size as int)));
            info_block.lemma_len();
        }
        Composer {
            stage: Stage::Init,
            bootloader,
            info_block,
            kernel_size,
            delivered: 0,
            chunk: Vec::new(),
            padding,
            kernel: Ghost(Seq::empty()),
            written: Ghost(Seq::empty()),
        }
    }

    /// The stage that the composition is in.
    pub fn stage(&self) -> (stage: Stage)
        ensures
            stage == self@.stage,
    {
        self.stage
    }

    /// Tells whether the image is complete.
    pub fn is_done(&self) -> (done: bool)
        ensures
            done == (self@.stage == Stage::Done),
    {
        match self.stage {
            Stage::Done => true,
            _ => false,
        }
    }

    /// The number of kernel bytes that the source has delivered so far.
    pub fn delivered(&self) -> (count: u64)
        requires
            self.wf(),
        ensures
            count == self@.kernel.len(),
    {
        self.delivered
    }

    /// What is to be done next.
    pub fn action(&self) -> (action: Action<'_>)
        requires
            self.wf(),
        ensures
            action@ == request(self@),
    {
        match self.stage {
            Stage::Init => Action::Create,
            Stage::WriteBootloader => Action::Write(self.bootloader.as_slice()),
            Stage::WriteMetadata => Action::Write(self.info_block.as_bytes()),
            Stage::WriteKernel => if self.chunk.len() == 0 {
                Action::Read
            } else {
                Action::Write(self.chunk.as_slice())
            },
            Stage::WritePadding => Action::Write(self.padding.as_slice()),
            Stage::Done => Action::Finish,
            Stage::Failed => Action::Abort(Error::Io),
        }
    }

    /// Takes note of what has happened to the action and moves on.
    pub fn advance(&mut self, event: Event)
        requires
            old(self).wf(),
        ensures
            final(self).wf(),
            final(self)@ == step(old(self)@, event),
    {
        proof {
            lemma_step_consistent(self@, event);
        }
        match self.stage {
            Stage::Done | Stage::Failed => {},
            Stage::Init => match event {
                Event::Completed => {
                    self.stage = Stage::WriteBootloader;
                },
                _ => {
                    self.stage = Stage::Failed;
                },
            },
            Stage::WriteBootloader => match event {
                Event::Completed => {
                    self.stage = Stage::WriteMetadata;
                    self.written = Ghost(self.written@ + self.bootloader@);
                    self.chunk = Vec::new();
                },
                _ => {
                    self.stage = Stage::Failed;
                },
            },
            Stage::WriteMetadata => match event {
                Event::Completed => {
                    self.stage = Stage::WriteKernel;
                    self.written = Ghost(self.written@ + self.info_block@);
                    self.chunk = Vec::new();
                },
                _ => {
                    self.stage = Stage::Failed;
                },
            },
            Stage::WriteKernel => if self.chunk.len() == 0 {
                match event {
                    Event::Read(bytes) => {
                        if bytes.len() == 0 {
                            if self.delivered == self.kernel_size {
                                self.stage = Stage::WritePadding;
                            } else {
                                self.stage = Stage::Failed;
                            }
                        } else if bytes.len() as u64 <= self.kernel_size - self.delivered {
                            self.delivered = self.delivered + bytes.len() as u64;
                            self.kernel = Ghost(self.kernel@ + bytes@);
                            self.chunk = bytes;
                        } else {
                            self.stage = Stage::Failed;
                        }
                    },
                    Event::Interrupted => {},
                    _ => {
                        self.stage = Stage::Failed;
                    },
                }
            } else {
                match event {
                    Event::Completed => {
                        self.written = Ghost(self.written@ + self.chunk@);
                        self.chunk = Vec::new();
                    },
                    _ => {
                        self.stage = Stage::Failed;
                    },
                }
            },
            Stage::WritePadding => match event {
                Event::Completed => {
                    self.stage = Stage::Done;
                    self.written = Ghost(self.written@ + self.padding@);
                    self.chunk = Vec::new();
                },
                _ => {
                    self.stage = Stage::Failed;
                },
            },
        }
    }
}

/// A bound on the number of steps that a composition still takes when no
/// read is interrupted.
spec fn steps_left(state: State) -> int {
    let rest = state.kernel_size - state.kernel.len();
    match state.stage {
        Stage::Init => 2 * rest + 6,
        Stage::WriteBootloader => 2 * rest + 5,
        Stage::WriteMetadata => 2 * rest + 4,
        Stage::WriteKernel => if state.chunk.len() == 0 {
            2 * rest + 3
        } else {
            2 * rest + 4
        },
        Stage::WritePadding => 2,
        Stage::Done => 1,
        Stage::Failed => 0,
    }
}

/// Composes the image in memory: drives a composer with the given kernel as
/// its source and a buffer as its output, neither of which fails.
pub fn create_disk_image(
    kernel: &[u8],
    kernel_info_block: KernelInfoBlock,
    bootloader_data: &[u8],
) -> (image: Vec<u8>)
    ensures
        image@ == disk_image(bootloader_data@, kernel_info_block@, kernel@),
{
    let mut composer = Composer::new(
        slice_to_vec(bootloader_data),
        kernel_info_block,
        kernel.len() as u64,
    );
    let mut image: Vec<u8> = Vec::new();
    let mut position: usize = 0;
    while !composer.is_done()
        invariant
            composer.wf(),
            composer@.stage != Stage::Failed,
            composer@.bootloader == bootloader_data@,
            composer@.info_block == kernel_info_block@,
            composer@.kernel_size == kernel.len(),
            position <= kernel.len(),
            composer@.kernel == kernel@.subrange(0, position as int),
            image@ == composer@.written,
        decreases steps_left(composer@),
    {
        let ghost before = composer@;
        let event = match composer.action() {
            Action::Write(bytes) => {
                image.extend_from_slice(bytes);
                assert(image@ =~= before.written + bytes@);
                Event::Completed
            },
            Action::Read => {
                let rest = kernel.len() - position;
                let count = if rest < CHUNK_SIZE {
                    rest
                } else {
                    CHUNK_SIZE
                };
                let chunk = slice_to_vec(slice_subrange(kernel, position, position + count));
                assert(kernel@.subrange(0, position as int) + chunk@ =~= kernel@.subrange(
                    0,
                    position + count,
                ));
                position = position + count;
                Event::Read(chunk)
            },
            Action::Create | Action::Finish | Action::Abort(_) => Event::Completed,
        };
        composer.advance(event);
    }
    proof {
        composer.lemma_wf();
        assert(kernel@.subrange(0, position as int) =~= kernel@);
    }
    image
}

} // verus!
