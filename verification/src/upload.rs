//! Programming an image into the first flash plane.
//!
//! An upload is a fixed script of steps that depends on the image alone:
//! one write that sets the flash wait states, then for every page its 64
//! words followed by the command that erases and programs the page, and at
//! the end the command that makes the device boot from flash. `Upload` walks
//! through that script one memory access at a time.

use vstd::prelude::*;
use vstd::slice::slice_subrange;
use byteorder::{ByteOrder, LittleEndian};
use crate::eefc::{
    Command, Eefc, Execution, GpnvmNumber, Page, Stage, FLASH_CAPACITY, MAX_STATUS_POLLS, PAGE_SIZE,
    STATUS_READY,
};
use crate::result::Error;
use crate::sam_ba::Access;

verus! {

/// Address of the first byte of the flash plane.
pub const FLASH_BASE: u32 = 0x0008_0000;

/// Size of a word in bytes.
pub const WORD_SIZE: u32 = 4;

/// Number of words in a page.
pub const PAGE_WORDS: u32 = 64;

/// The mode register's value during an upload: six wait states. Without
/// them the controller may corrupt what it programs.
pub const WAIT_STATES: u32 = 0x0000_0600;

/// Number of steps that one page takes: its words and its command.
pub const PAGE_STEPS: u32 = 65;

/// The word whose bytes, least significant first, are `b0` to `b3`.
pub open spec fn le_word(b0: u8, b1: u8, b2: u8, b3: u8) -> u32 {
    (b0 + b1 * 0x100 + b2 * 0x1_0000 + b3 * 0x100_0000) as u32
}

/// The byte of the image at `offset`, and zero beyond its end.
pub open spec fn byte_at(image: Seq<u8>, offset: int) -> u8 {
    if 0 <= offset < image.len() {
        image[offset]
    } else {
        0
    }
}

/// The little-endian word that the image holds at `offset`. Bytes beyond
/// the end of the image count as zero, so a word past the end is zero and a
/// word that straddles the end is padded with zeros.
pub open spec fn word_at(image: Seq<u8>, offset: int) -> u32 {
    le_word(
        byte_at(image, offset),
        byte_at(image, offset + 1),
        byte_at(image, offset + 2),
        byte_at(image, offset + 3),
    )
}

/// Number of pages that an image of `size` bytes takes: `size / 256`,
/// rounded up.
pub open spec fn page_count(size: nat) -> nat {
    (size + PAGE_SIZE - 1) as nat / (PAGE_SIZE as nat)
}

/// Calls `byteorder::LittleEndian::read_u32`, which reads the first four
/// bytes of `buf` as a little-endian word and panics on a shorter buffer.
#[verifier::external_body]
fn read_u32_le(buf: &[u8]) -> (word: u32)
    requires
        buf@.len() >= 4,
    ensures
        word == le_word(buf@[0], buf@[1], buf@[2], buf@[3]),
{
    LittleEndian::read_u32(buf)
}

/// Reads the word of `image` at `offset`, padded with zeros where the image
/// ends.
pub fn source_word(image: &[u8], offset: u32) -> (word: u32)
    ensures
        word == word_at(image@, offset as int),
{
    let size = image.len();
    let start = offset as usize;
    if size >= 4 && start <= size - 4 {
        read_u32_le(slice_subrange(image, start, start + 4))
    } else {
        let mut padded: Vec<u8> = Vec::new();
        let mut i: usize = 0;
        while i < 4
            invariant
                i <= 4,
                start == offset,
                size == image@.len(),
                padded@.len() == i,
                forall|k: int| 0 <= k < i ==> padded@[k] == byte_at(image@, offset + k),
            decreases 4 - i,
        {
            if start < size && i < size - start {
                padded.push(image[start + i]);
            } else {
                padded.push(0);
            }
            i += 1;
        }
        read_u32_le(padded.as_slice())
    }
}

/// Number of pages that an image of `size` bytes takes.
pub fn pages_for(size: u32) -> (pages: u32)
    ensures
        pages == page_count(size as nat),
{
    if size % PAGE_SIZE == 0 {
        size / PAGE_SIZE
    } else {
        size / PAGE_SIZE + 1
    }
}

/// One step of an upload.
#[derive(Clone, Copy, Debug, PartialEq, Eq, Structural)]
pub enum Step {
    /// Write `value` to `address` through the monitor.
    Store { address: u32, value: u32 },
    /// Execute a command on the flash controller.
    Run(Command),
}

/// The step that latches word `index` of page `page`: a write of the
/// image's word to its place in the flash plane.
pub open spec fn latch_step(image: Seq<u8>, page: nat, index: nat) -> Step {
    Step::Store {
        address: (FLASH_BASE + page * PAGE_SIZE + index * WORD_SIZE) as u32,
        value: word_at(image, page * PAGE_SIZE + index * WORD_SIZE),
    }
}

/// The step that erases and programs page `page`.
pub open spec fn commit_step(page: nat) -> Step {
    Step::Run(commit_command(page as int))
}

/// The steps for one page: its 64 words in order, then the command that
/// erases the page and programs it from the words just latched.
pub open spec fn page_steps(image: Seq<u8>, page: nat) -> Seq<Step> {
    Seq::new(PAGE_WORDS as nat, |i: int| latch_step(image, page, i as nat)).push(
        commit_step(page),
    )
}

/// The steps for the first `pages` pages, in order.
pub open spec fn pages_steps(image: Seq<u8>, pages: nat) -> Seq<Step>
    decreases pages,
{
    if pages == 0 {
        Seq::empty()
    } else {
        pages_steps(image, (pages - 1) as nat) + page_steps(image, (pages - 1) as nat)
    }
}

/// The first step of every upload: setting the wait states.
pub open spec fn prepare_step() -> Step {
    Step::Store { address: Eefc::Eefc0.spec_mode_register(), value: WAIT_STATES }
}

/// The last step of every upload: making the device boot from flash.
pub open spec fn boot_step() -> Step {
    Step::Run(Command::SetGpnvmBit(GpnvmNumber::BootModeSelection))
}

/// Everything an upload of `image` does, in order.
pub open spec fn script(image: Seq<u8>) -> Seq<Step> {
    (seq![prepare_step()] + pages_steps(image, page_count(image.len()))).push(boot_step())
}

/// Number of steps in the script of an image of `size` bytes.
pub open spec fn script_len(size: nat) -> nat {
    (PAGE_STEPS * page_count(size) + 2) as nat
}

/// The step at position `k` of the script, worked out from `k` alone.
pub open spec fn step_at(image: Seq<u8>, k: nat) -> Step {
    if k == 0 {
        prepare_step()
    } else if k > PAGE_STEPS * page_count(image.len()) {
        boot_step()
    } else {
        let page = ((k - 1) / PAGE_STEPS as int) as nat;
        let index = ((k - 1) % PAGE_STEPS as int) as nat;
        if index < PAGE_WORDS {
            latch_step(image, page, index)
        } else {
            commit_step(page)
        }
    }
}

/// The steps of the first `pages` pages, by position: step `k` belongs to
/// page `k / 65` and is that page's step `k % 65`.
pub proof fn lemma_pages_steps(image: Seq<u8>, pages: nat)
    ensures
        pages_steps(image, pages).len() == PAGE_STEPS * pages,
        forall|k: int|
            0 <= k < PAGE_STEPS * pages ==> #[trigger] pages_steps(image, pages)[k] == page_steps(
                image,
                (k / PAGE_STEPS as int) as nat,
            )[k % PAGE_STEPS as int],
    decreases pages,
{
    if pages > 0 {
        let earlier = (pages - 1) as nat;
        lemma_pages_steps(image, earlier);
        assert forall|k: int| 0 <= k < PAGE_STEPS * pages implies #[trigger] pages_steps(
            image,
            pages,
        )[k] == page_steps(image, (k / PAGE_STEPS as int) as nat)[k % PAGE_STEPS as int] by {
            if k >= PAGE_STEPS * earlier {
                assert(k / 65 == earlier && k % 65 == k - 65 * earlier);
            }
        }
    }
}

/// The script has `65 * pages + 2` steps, and `step_at` gives each of them.
pub proof fn lemma_script_steps(image: Seq<u8>)
    ensures
        script(image).len() == script_len(image.len()),
        forall|k: int|
            0 <= k < script_len(image.len()) ==> #[trigger] script(image)[k] == step_at(
                image,
                k as nat,
            ),
{
    let pages = page_count(image.len());
    lemma_pages_steps(image, pages);
    assert forall|k: int| 0 <= k < script_len(image.len()) implies #[trigger] script(image)[k]
        == step_at(image, k as nat) by {
        if 0 < k <= PAGE_STEPS * pages {
            let j = k - 1;
            assert(script(image)[k] == pages_steps(image, pages)[j]);
            assert(0 <= j % 65 < 65);
        }
    }
}

/// What a completed upload wrote.
#[derive(Clone, Copy, Debug, PartialEq, Eq, Structural)]
pub struct Report {
    /// Size of the image in bytes.
    pub bytes: u32,
    /// Number of pages that were erased and programmed.
    pub pages: u32,
}

/// The execution that a step begins with, if the step is a command. Every
/// command of an upload goes to the controller of the first plane.
pub open spec fn execution_of(step: Step) -> Option<Execution> {
    match step {
        Step::Run(command) => Some(Execution::begin(Eefc::Eefc0, command)),
        Step::Store { .. } => None,
    }
}

/// The state of an upload: the image, how many steps of its script are
/// done, the execution of the current step if that step is a command and
/// the upload is under way, and the error that stopped the upload, if any.
pub struct State {
    pub image: Seq<u8>,
    pub position: nat,
    pub running: Option<Execution>,
    pub failure: Option<Error>,
}

impl State {
    /// The state before the first step.
    pub open spec fn initial(image: Seq<u8>) -> State {
        State { image, position: 0, running: None, failure: None }
    }

    /// The step that the upload is at, or `None` once it is over.
    pub open spec fn current(self) -> Option<Step> {
        if self.failure is None && self.position < script(self.image).len() {
            Some(script(self.image)[self.position as int])
        } else {
            None
        }
    }

    /// Whether the state can arise in an upload: the image fits the plane,
    /// and a command is under way exactly while the current step is one.
    pub open spec fn wf(self) -> bool {
        &&& self.image.len() <= FLASH_CAPACITY
        &&& self.position <= script(self.image).len()
        &&& match self.current() {
            Some(Step::Run(command)) => {
                &&& self.running matches Some(execution)
                &&& execution.eefc == Eefc::Eefc0
                &&& execution.command == command
                &&& !(execution.stage is Done)
            },
            _ => self.running is None,
        }
    }

    /// The access that the upload waits for, or `None` once it is over.
    pub open spec fn pending(self) -> Option<Access> {
        match self.current() {
            Some(Step::Store { address, value }) => Some(Access::Write { address, value }),
            Some(Step::Run(_)) => match self.running {
                Some(execution) => execution.spec_pending(),
                None => None,
            },
            None => None,
        }
    }

    /// The state once the current step is completed.
    pub open spec fn advanced(self) -> State {
        let position = self.position + 1;
        let running = if position < script(self.image).len() {
            execution_of(script(self.image)[position as int])
        } else {
            None
        };
        State { position, running, ..self }
    }

    /// The state once the upload has failed with `error`.
    pub open spec fn failed(self, error: Error) -> State {
        State { running: None, failure: Some(error), ..self }
    }

    /// The state after the pending access went as `outcome` says. A write
    /// that succeeds completes its step; a command's execution is moved on,
    /// and completes its step when it succeeds. Any failure, of an access or
    /// of a command, ends the upload. An upload that is over stays as it is.
    pub open spec fn after(self, outcome: Result<u32, Error>) -> State {
        match self.current() {
            None => self,
            Some(Step::Store { .. }) => match outcome {
                Ok(_) => self.advanced(),
                Err(error) => self.failed(error),
            },
            Some(Step::Run(_)) => match self.running {
                None => self,
                Some(execution) => match execution.after(outcome).spec_result() {
                    None => State { running: Some(execution.after(outcome)), ..self },
                    Some(Ok(_)) => self.advanced(),
                    Some(Err(error)) => self.failed(error),
                },
            },
        }
    }

    /// How the upload ended, or `None` while it is under way. It succeeds
    /// when every step of the script is done.
    pub open spec fn report(self) -> Option<Result<Report, Error>> {
        match self.failure {
            Some(error) => Some(Err(error)),
            None => if self.position >= script(self.image).len() {
                Some(
                    Ok(
                        Report {
                            bytes: self.image.len() as u32,
                            pages: page_count(self.image.len()) as u32,
                        },
                    ),
                )
            } else {
                None
            },
        }
    }
}

/// Every state that follows a possible state is possible.
pub proof fn lemma_after_wf(state: State, outcome: Result<u32, Error>)
    requires
        state.wf(),
    ensures
        state.after(outcome).wf(),
        state.after(outcome).image == state.image,
{
    lemma_script_steps(state.image);
}

/// Any failure ends the upload at once: when the pending access fails, the
/// upload reports that error, asks for no further access, and stays so
/// whatever is reported to it afterwards. Nothing is retried.
pub proof fn lemma_failure_aborts(
    state: State,
    error: Error,
    later: Result<u32, Error>,
)
    requires
        state.wf(),
        state.pending() is Some,
    ensures
        state.after(Err(error)).report() == Some(Err::<Report, Error>(error)),
        state.after(Err(error)).pending() is None,
        state.after(Err(error)).after(later) == state.after(Err(error)),
        state.after(Err(error)).position == state.position,
{
}

/// An upload is over exactly when it asks for no further access, and it
/// succeeds exactly when every step of its script is done.
pub proof fn lemma_report_when_over(state: State)
    requires
        state.wf(),
    ensures
        state.report() is Some <==> state.pending() is None,
        state.report() matches Some(Ok(report)) ==> state.position == script(state.image).len()
            && report.bytes == state.image.len() && report.pages == page_count(
            state.image.len(),
        ),
{
    lemma_script_steps(state.image);
}

struct Progress {
    position: u32,
    running: Option<Execution>,
    failure: Option<Error>,
}

/// An upload of one image, as a state machine over memory accesses.
///
/// While the upload is under way it waits for one access, `pending`. The
/// caller performs it through the monitor and reports how it went with
/// `supply`. When no access is pending, `report` tells how the upload ended.
pub struct Upload {
    image: Vec<u8>,
    pages: u32,
    progress: Progress,
}

impl View for Upload {
    type V = State;

    closed spec fn view(&self) -> State {
        State {
            image: self.image@,
            position: self.progress.position as nat,
            running: self.progress.running,
            failure: self.progress.failure,
        }
    }
}

impl Upload {
    #[verifier::type_invariant]
    spec fn inv(&self) -> bool {
        &&& self@.wf()
        &&& self.pages == page_count(self.image@.len())
    }

    /// Prepares the upload of `image`. An image larger than the flash plane
    /// is refused here, before anything is written.
    pub fn new(image: Vec<u8>) -> (upload: Result<Upload, Error>)
        ensures
            image@.len() <= FLASH_CAPACITY ==> (upload matches Ok(u) && u@ == State::initial(
                image@,
            )),
            image@.len() > FLASH_CAPACITY ==> (upload matches Err(e) && e == Error::SizeLimit),
    {
        if image.len() > FLASH_CAPACITY as usize {
            return Err(Error::SizeLimit);
        }
        let pages = pages_for(image.len() as u32);
        proof {
            lemma_script_steps(image@);
        }
        Ok(Upload { image, pages, progress: Progress { position: 0, running: None, failure: None } })
    }

    fn step_count(&self) -> (count: u32)
        ensures
            count == script(self@.image).len(),
    {
        proof {
            use_type_invariant(self);
            lemma_script_steps(self.image@);
        }
        PAGE_STEPS * self.pages + 2
    }

    fn step(&self, k: u32) -> (step: Step)
        requires
            k < script(self@.image).len(),
        ensures
            step == script(self@.image)[k as int],
    {
        proof {
            use_type_invariant(self);
            lemma_script_steps(self.image@);
        }
        if k == 0 {
            Step::Store { address: Eefc::Eefc0.mode_register(), value: WAIT_STATES }
        } else if k > PAGE_STEPS * self.pages {
            Step::Run(Command::SetGpnvmBit(GpnvmNumber::BootModeSelection))
        } else {
            let page = (k - 1) / PAGE_STEPS;
            let index = (k - 1) % PAGE_STEPS;
            if index < PAGE_WORDS {
                let offset = page * PAGE_SIZE + index * WORD_SIZE;
                Step::Store {
                    address: FLASH_BASE + offset,
                    value: source_word(self.image.as_slice(), offset),
                }
            } else {
                Step::Run(Command::ErasePageAndWritePage(Page(page as u16)))
            }
        }
    }

    /// The access that the upload waits for, or `None` once it is over.
    pub fn pending(&self) -> (access: Option<Access>)
        ensures
            access == self@.pending(),
    {
        proof {
            use_type_invariant(self);
        }
        if self.progress.failure.is_some() || self.progress.position >= self.step_count() {
            return None;
        }
        match self.step(self.progress.position) {
            Step::Store { address, value } => Some(Access::Write { address, value }),
            Step::Run(_) => match &self.progress.running {
                Some(execution) => execution.pending(),
                None => None,
            },
        }
    }

    /// Reports how the pending access went, and moves the upload on.
    pub fn supply(&mut self, outcome: Result<u32, Error>)
        ensures
            final(self)@ == old(self)@.after(outcome),
    {
        proof {
            use_type_invariant(&*self);
            lemma_after_wf(self@, outcome);
        }
        let count = self.step_count();
        let position = self.progress.position;
        if self.progress.failure.is_some() || position >= count {
            return ;
        }
        let completed = match self.progress.running {
            None => outcome,
            Some(mut execution) => {
                execution.supply(outcome);
                match execution.result() {
                    None => {
                        self.progress = Progress {
                            position,
                            running: Some(execution),
                            failure: None,
                        };
                        return ;
                    },
                    Some(result) => result,
                }
            },
        };
        match completed {
            Err(error) => {
                self.progress = Progress { position, running: None, failure: Some(error) };
            },
            Ok(_) => {
                let next = position + 1;
                let running = if next < count {
                    match self.step(next) {
                        Step::Run(command) => Some(Eefc::Eefc0.execute_command(command)),
                        Step::Store { .. } => None,
                    }
                } else {
                    None
                };
                self.progress = Progress { position: next, running, failure: None };
            },
        }
    }

    /// How the upload ended, or `None` while it is under way.
    pub fn report(&self) -> (report: Option<Result<Report, Error>>)
        ensures
            report == self@.report(),
    {
        proof {
            use_type_invariant(self);
        }
        match self.progress.failure {
            Some(error) => Some(Err(error)),
            None => if self.progress.position >= self.step_count() {
                Some(Ok(Report { bytes: self.image.len() as u32, pages: self.pages }))
            } else {
                None
            },
        }
    }
}

/// The commands among `steps`, in the order in which they are executed.
pub open spec fn commands(steps: Seq<Step>) -> Seq<Command>
    decreases steps.len(),
{
    if steps.len() == 0 {
        Seq::empty()
    } else {
        let earlier = commands(steps.drop_last());
        match steps.last() {
            Step::Run(command) => earlier.push(command),
            Step::Store { .. } => earlier,
        }
    }
}

/// The writes among `steps`, each as address and value, in the order in
/// which they are made.
pub open spec fn stores(steps: Seq<Step>) -> Seq<(u32, u32)>
    decreases steps.len(),
{
    if steps.len() == 0 {
        Seq::empty()
    } else {
        let earlier = stores(steps.drop_last());
        match steps.last() {
            Step::Store { address, value } => earlier.push((address, value)),
            Step::Run(_) => earlier,
        }
    }
}

/// The page with index `page`.
pub open spec fn nth_page(page: int) -> Page {
    Page(page as u16)
}

/// The command that erases and programs page `page`.
pub open spec fn commit_command(page: int) -> Command {
    Command::ErasePageAndWritePage(nth_page(page))
}

/// The write that latches word `index` of the image, counted from the
/// start of the plane: to the word's address in flash, of the word's value.
pub open spec fn latch_store(image: Seq<u8>, index: int) -> (u32, u32) {
    ((FLASH_BASE + WORD_SIZE * index) as u32, word_at(image, WORD_SIZE * index))
}

proof fn lemma_projections_add(a: Seq<Step>, b: Seq<Step>)
    ensures
        commands(a + b) == commands(a) + commands(b),
        stores(a + b) == stores(a) + stores(b),
    decreases b.len(),
{
    if b.len() == 0 {
        assert(a + b =~= a);
    } else {
        lemma_projections_add(a, b.drop_last());
        assert((a + b).drop_last() =~= a + b.drop_last());
    }
}

proof fn lemma_latches(image: Seq<u8>, page: nat, count: nat)
    ensures
        commands(Seq::new(count, |i: int| latch_step(image, page, i as nat)))
            == Seq::<Command>::empty(),
        stores(Seq::new(count, |i: int| latch_step(image, page, i as nat))) == Seq::new(
            count,
            |i: int| latch_store(image, PAGE_WORDS * page + i),
        ),
    decreases count,
{
    let latches = Seq::new(count, |i: int| latch_step(image, page, i as nat));
    if count > 0 {
        let fewer = (count - 1) as nat;
        lemma_latches(image, page, fewer);
        assert(latches.drop_last() =~= Seq::new(fewer, |i: int| latch_step(image, page, i as nat)));
    }
}

proof fn lemma_page_projections(image: Seq<u8>, page: nat)
    ensures
        commands(page_steps(image, page)) == seq![commit_command(page as int)],
        stores(page_steps(image, page)) == Seq::new(
            PAGE_WORDS as nat,
            |i: int| latch_store(image, PAGE_WORDS * page + i),
        ),
{
    let latches = Seq::new(PAGE_WORDS as nat, |i: int| latch_step(image, page, i as nat));
    lemma_latches(image, page, PAGE_WORDS as nat);
    assert(page_steps(image, page).drop_last() =~= latches);
}

proof fn lemma_pages_projections(image: Seq<u8>, pages: nat)
    ensures
        commands(pages_steps(image, pages)) == Seq::new(pages, |p: int| commit_command(p)),
        stores(pages_steps(image, pages)) == Seq::new(
            (PAGE_WORDS * pages) as nat,
            |i: int| latch_store(image, i),
        ),
    decreases pages,
{
    if pages > 0 {
        let earlier = (pages - 1) as nat;
        lemma_pages_projections(image, earlier);
        lemma_page_projections(image, earlier);
        lemma_projections_add(pages_steps(image, earlier), page_steps(image, earlier));
    }
}

/// The commands of an upload are one erase-and-write for each page of the
/// image, in rising order of the pages, and then the command that sets the
/// boot bit: `page_count` erase-and-write commands, none for an empty image,
/// and the boot bit is set in either case. Every page lies within the plane.
pub proof fn lemma_script_commands(image: Seq<u8>)
    requires
        image.len() <= FLASH_CAPACITY,
    ensures
        commands(script(image)) == Seq::new(
            page_count(image.len()),
            |p: int| commit_command(p),
        ).push(Command::SetGpnvmBit(GpnvmNumber::BootModeSelection)),
        commands(script(image)).len() == page_count(image.len()) + 1,
        forall|p: int|
            0 <= p < page_count(image.len()) ==> (#[trigger] nth_page(p)).in_flash() && nth_page(
                p,
            ).0 == p,
{
    let pages = page_count(image.len());
    let body = pages_steps(image, pages);
    lemma_pages_projections(image, pages);
    lemma_projections_add(seq![prepare_step()], body);
    assert(script(image).drop_last() =~= seq![prepare_step()] + body);
    assert(seq![prepare_step()].drop_last() =~= Seq::<Step>::empty());
    assert(commands(seq![prepare_step()]) =~= Seq::<Command>::empty()) by {
        reveal_with_fuel(commands, 2);
    }
}

/// The writes of an upload are the one that sets the wait states and then
/// one for every word of every page, in rising order of the addresses:
/// `64 * page_count` words, each the image's word at its offset, padded
/// with zeros beyond the end of the image.
pub proof fn lemma_script_stores(image: Seq<u8>)
    ensures
        stores(script(image)) == seq![(Eefc::Eefc0.spec_mode_register(), WAIT_STATES)] + Seq::new(
            (PAGE_WORDS * page_count(image.len())) as nat,
            |i: int| latch_store(image, i),
        ),
        stores(script(image)).len() == PAGE_WORDS * page_count(image.len()) + 1,
{
    let pages = page_count(image.len());
    let body = pages_steps(image, pages);
    lemma_pages_projections(image, pages);
    lemma_projections_add(seq![prepare_step()], body);
    assert(script(image).drop_last() =~= seq![prepare_step()] + body);
    assert(seq![prepare_step()].drop_last() =~= Seq::<Step>::empty());
    assert(stores(seq![prepare_step()]) =~= seq![
        (Eefc::Eefc0.spec_mode_register(), WAIT_STATES),
    ]) by {
        reveal_with_fuel(stores, 2);
    }
}

/// Within the script, the 64 words of a page come directly before the
/// command that erases and programs that page.
pub proof fn lemma_page_order(image: Seq<u8>, page: nat, index: nat)
    requires
        page < page_count(image.len()),
        index < PAGE_WORDS,
    ensures
        script(image)[1 + PAGE_STEPS * page + index] == latch_step(image, page, index),
        script(image)[1 + PAGE_STEPS * page + PAGE_WORDS] == commit_step(page),
        1 + PAGE_STEPS * page + PAGE_WORDS < script(image).len(),
{
    lemma_script_steps(image);
    let k = 1 + PAGE_STEPS * page + index;
    let c = 1 + PAGE_STEPS * page + PAGE_WORDS;
    assert((k - 1) / 65 == page && (k - 1) % 65 == index);
    assert((c - 1) / 65 == page && (c - 1) % 65 == 64);
    assert(PAGE_STEPS * page + PAGE_STEPS <= PAGE_STEPS * page_count(image.len())) by (nonlinear_arith)
        requires
            page < page_count(image.len()),
    ;
    assert(script(image)[k] == step_at(image, k as nat));
    assert(script(image)[c] == step_at(image, c as nat));
}

impl State {
    /// The state in which the first `position` steps are done and the next
    /// one, if there is one, has not begun.
    pub open spec fn at(image: Seq<u8>, position: nat) -> State {
        State {
            image,
            position,
            running: if position < script(image).len() {
                execution_of(script(image)[position as int])
            } else {
                None
            },
            failure: None,
        }
    }

    /// The state after a series of accesses, each reported in turn.
    pub open spec fn run(self, outcomes: Seq<Result<u32, Error>>) -> State
        decreases outcomes.len(),
    {
        if outcomes.len() == 0 {
            self
        } else {
            self.run(outcomes.drop_last()).after(outcomes.last())
        }
    }
}

/// `count` accesses that all succeed, each read giving a status word with
/// the ready flag alone: what a target answers that completes every command
/// before the first poll.
pub open spec fn prompt(count: nat) -> Seq<Result<u32, Error>> {
    Seq::new(count, |i: int| Ok(STATUS_READY))
}

/// Number of accesses that `steps` take on such a target: one for a write,
/// and two for a command, the write of the command word and one poll.
pub open spec fn cost(steps: Seq<Step>) -> nat
    decreases steps.len(),
{
    if steps.len() == 0 {
        0
    } else {
        cost(steps.drop_last()) + match steps.last() {
            Step::Store { .. } => 1nat,
            Step::Run(_) => 2nat,
        }
    }
}

/// A step that is a write takes one access, the write itself. A step that
/// is a command takes the write of the command word to the command register
/// and then reads of the status register, and is done with the first read
/// that shows the controller ready and the command accepted.
pub proof fn lemma_step_accesses(image: Seq<u8>, position: nat, any: u32)
    requires
        image.len() <= FLASH_CAPACITY,
        position < script(image).len(),
    ensures
        State::initial(image) == State::at(image, 0),
        State::at(image, position).wf(),
        match script(image)[position as int] {
            Step::Store { address, value } => {
                &&& State::at(image, position).pending() == Some(Access::Write { address, value })
                &&& State::at(image, position).after(Ok(any)) == State::at(image, position + 1)
            },
            Step::Run(command) => {
                let issued = State::at(image, position).after(Ok(any));
                &&& !command.spec_has_result()
                &&& State::at(image, position).pending() == Some(
                    Access::Write {
                        address: Eefc::Eefc0.spec_command_register(),
                        value: command.spec_word(),
                    },
                )
                &&& issued.pending() == Some(
                    Access::Read { address: Eefc::Eefc0.spec_status_register() },
                )
                &&& issued.after(Ok(STATUS_READY)) == State::at(image, position + 1)
            },
        },
{
    lemma_script_steps(image);
    assert(STATUS_READY & STATUS_READY != 0 && STATUS_READY & 0x2 == 0) by (bit_vector);
    let state = State::at(image, position);
    match script(image)[position as int] {
        Step::Store { .. } => {},
        Step::Run(command) => {
            let execution = Execution::begin(Eefc::Eefc0, command);
            assert(state.running == Some(execution));
            let issued = execution.after(Ok(any));
            assert(issued.stage == Stage::Poll { remaining: MAX_STATUS_POLLS });
            assert(issued.after(Ok(STATUS_READY)).stage == Stage::Done(Ok::<u32, Error>(0)));
        },
    }
}

proof fn lemma_prompt_run(image: Seq<u8>, position: nat)
    requires
        image.len() <= FLASH_CAPACITY,
        position <= script(image).len(),
    ensures
        State::initial(image).run(prompt(cost(script(image).take(position as int))))
            == State::at(image, position),
    decreases position,
{
    let start = State::initial(image);
    let steps = script(image).take(position as int);
    lemma_script_steps(image);
    if position == 0 {
        assert(cost(steps) == 0);
        assert(start == State::at(image, 0));
    } else {
        let done = (position - 1) as nat;
        let earlier = script(image).take(done as int);
        lemma_prompt_run(image, done);
        lemma_step_accesses(image, done, STATUS_READY);
        assert(steps.drop_last() =~= earlier);
        assert(steps.last() == script(image)[done as int]);
        let n = cost(earlier);
        assert(prompt(n + 1).drop_last() =~= prompt(n));
        assert(prompt(n + 2).drop_last() =~= prompt(n + 1));
        assert(prompt(n + 1).last() == Ok::<u32, Error>(STATUS_READY));
        assert(prompt(n + 2).last() == Ok::<u32, Error>(STATUS_READY));
        match script(image)[done as int] {
            Step::Store { .. } => {
                assert(cost(steps) == n + 1);
            },
            Step::Run(_) => {
                assert(cost(steps) == n + 2);
                assert(start.run(prompt(n + 1)) == start.run(prompt(n)).after(Ok(STATUS_READY)));
            },
        }
    }
}

proof fn lemma_cost(steps: Seq<Step>)
    ensures
        cost(steps) == stores(steps).len() + 2 * commands(steps).len(),
    decreases steps.len(),
{
    if steps.len() > 0 {
        lemma_cost(steps.drop_last());
    }
}

/// On a target that performs every access and completes every command
/// before the first poll, the upload of an image that fits the plane
/// succeeds after exactly `66 * page_count + 3` accesses: one write for the
/// wait states, 64 writes and one command for every page, and the command
/// that sets the boot bit, each command taking one write and one poll. It is
/// not over before, and it reports the size of the image and the number of
/// its pages.
pub proof fn lemma_upload_completes(image: Seq<u8>)
    requires
        image.len() <= FLASH_CAPACITY,
    ensures
        cost(script(image)) == 66 * page_count(image.len()) + 3,
        State::initial(image).run(prompt(cost(script(image)))).report() == Some(
            Ok::<Report, Error>(
                Report {
                    bytes: image.len() as u32,
                    pages: page_count(image.len()) as u32,
                },
            ),
        ),
        forall|position: nat|
            position < script(image).len() ==> (#[trigger] State::initial(image).run(
                prompt(cost(script(image).take(position as int))),
            )).report() is None,
{
    lemma_script_steps(image);
    lemma_script_commands(image);
    lemma_script_stores(image);
    lemma_cost(script(image));
    lemma_prompt_run(image, script(image).len());
    assert(script(image).take(script(image).len() as int) =~= script(image));
    assert forall|position: nat| position < script(image).len() implies (
    #[trigger] State::initial(image).run(
        prompt(cost(script(image).take(position as int))),
    )).report() is None by {
        lemma_prompt_run(image, position);
    }
}

} // verus!
