//! The pipeline driver: the order in which a run reads lines, embeds
//! sections and stores points.
//!
//! The driver does none of the outside work. It is told what happened (a line
//! was read, the input ended, the engine computed, the engine's output was
//! read, the store answered) and says what comes next. While a section is
//! being embedded or stored it takes no line: one section is in flight at a
//! time.
use crate::chunker::{
    closed_sections, run, sections_of, ChunkState, Chunker, Section, SectionView,
};
use crate::config::{ConfigView, PipelineConfig};
use crate::embedding::{
    compute_severity, embedding_from_output, embedding_of_text, output_buffer_size,
    output_capacity, result_view, severity_of, utf8_lossy, written_part, ComputeOutcome,
    EmbedError, EmbeddingVector, Severity,
};
use crate::point::{
    identifier, request_for, source_key, upsert_request, UpsertRequest, UpsertRequestView,
};
use crate::text::{blank, truncate, truncated};
use vstd::prelude::*;

verus! {

/// What the driver waits for.
#[derive(Debug, Clone, Copy, PartialEq, Eq, Structural)]
pub enum Phase {
    /// The next line, or the end of the input.
    Reading,
    /// The end of the engine's compute step on the job that was handed out
    /// last.
    Computing,
    /// The engine's output for that job.
    ReadingOutput,
    /// The store's answer to the request that was handed out last.
    Upserting,
}

/// A job as the contracts see it.
pub struct JobView {
    pub index: nat,
    pub id: nat,
    pub text: Seq<char>,
    pub truncated: bool,
}

/// A section that is to be embedded and stored.
pub struct Job {
    /// The position of the section in the run, from 0.
    pub index: u64,
    /// The identifier under which the section is stored.
    pub id: u64,
    /// The text to embed: that of the section, cut to the maximum context
    /// length where it was longer.
    pub text: String,
    /// Whether the text was cut. A caller warns of it, naming `index`.
    pub truncated: bool,
}

impl View for Job {
    type V = JobView;

    open spec fn view(&self) -> JobView {
        JobView {
            index: self.index as nat,
            id: self.id as nat,
            text: self.text@,
            truncated: self.truncated,
        }
    }
}

/// What the driver says after a compute step: with what weight the outcome
/// is logged, if at all, and how large a buffer the output is read into.
pub struct OutputRead {
    pub log: Option<Severity>,
    pub buffer_size: usize,
}

/// The text of a section as it is embedded under `config`.
pub open spec fn embedded_text(config: ConfigView, text: Seq<char>) -> Seq<char> {
    match config.max_context_length {
        Some(max) => truncated(text, max),
        None => text,
    }
}

/// The job that the section with index `index` becomes under `config`.
pub open spec fn job_of(config: ConfigView, index: nat, section: SectionView) -> JobView {
    JobView {
        index,
        id: identifier(config.start_vector_id, index),
        text: embedded_text(config, section.text),
        truncated: config.max_context_length matches Some(max) && section.text.len() > max,
    }
}

/// The jobs of a whole document, given by its lines: one for each section,
/// in order.
pub open spec fn jobs_of(config: ConfigView, lines: Seq<Seq<char>>) -> Seq<JobView> {
    Seq::new(sections_of(lines).len(), |k: int| job_of(config, k as nat, sections_of(lines)[k]))
}

/// A handed-out result with its request taken by its view.
pub open spec fn request_view(r: Result<UpsertRequest, EmbedError>) -> Result<
    UpsertRequestView,
    EmbedError,
> {
    match r {
        Ok(request) => Ok(request@),
        Err(error) => Err(error),
    }
}

/// The state of a driver.
pub struct DriverState {
    pub config: ConfigView,
    pub chunk: ChunkState,
    /// The index of the section in flight, or of the next one.
    pub next_index: nat,
    /// The job that is with the engine.
    pub pending: Option<JobView>,
    pub phase: Phase,
}

impl DriverState {
    /// The state before the first line.
    pub open spec fn initial(config: ConfigView) -> DriverState {
        DriverState {
            config,
            chunk: ChunkState::initial(),
            next_index: 0,
            pending: None,
            phase: Phase::Reading,
        }
    }

    /// Whether the section in flight, or the next one, has an identifier:
    /// whether the start identifier and the index together stay within the
    /// largest identifier.
    pub open spec fn can_identify(self) -> bool {
        identifier(self.config.start_vector_id, self.next_index) <= u64::MAX
    }

    /// Whether the index can still grow by one.
    pub open spec fn has_room(self) -> bool {
        self.next_index < u64::MAX
    }

    /// The state after the chunker moved to `chunk` and handed out
    /// `section`.
    pub open spec fn accept(self, chunk: ChunkState, section: Option<SectionView>) -> DriverState {
        match section {
            Some(section) => DriverState {
                chunk,
                pending: Some(job_of(self.config, self.next_index, section)),
                phase: Phase::Computing,
                ..self
            },
            None => DriverState { chunk, ..self },
        }
    }

    /// The state after a line.
    pub open spec fn feed(self, line: Seq<char>) -> DriverState {
        self.accept(self.chunk.step(line), self.chunk.emitted(line))
    }

    /// The state after the end of the input.
    pub open spec fn finish(self) -> DriverState {
        self.accept(ChunkState::initial(), self.chunk.flushed())
    }

    /// The state after the section in flight is done with, whatever became of
    /// it: the index has grown by one, and lines are read again.
    pub open spec fn completed(self) -> DriverState {
        DriverState {
            next_index: self.next_index + 1,
            pending: None,
            phase: Phase::Reading,
            ..self
        }
    }

    /// The state after a compute step: whatever its outcome, the output is
    /// read next.
    pub open spec fn computed(self, outcome: ComputeOutcome) -> DriverState {
        DriverState { phase: Phase::ReadingOutput, ..self }
    }

    /// The state after the engine's output was read as `buffer`, of which
    /// the engine filled `written` bytes.
    pub open spec fn output(self, buffer: Seq<u8>, written: nat) -> DriverState {
        self.embedded(self.embedding(buffer, written))
    }

    /// The vector that such an output gives.
    pub open spec fn embedding(self, buffer: Seq<u8>, written: nat) -> Result<
        Seq<u64>,
        EmbedError,
    > {
        embedding_of_text(utf8_lossy(written_part(buffer, written)), self.config.vector_size)
    }

    /// The state after the output was made a vector, or failed to be: with a
    /// vector the point goes to the store; without one the section is done
    /// with, and nothing is stored for it.
    pub open spec fn embedded(self, result: Result<Seq<u64>, EmbedError>) -> DriverState {
        match result {
            Ok(_) => DriverState { pending: None, phase: Phase::Upserting, ..self },
            Err(_) => self.completed(),
        }
    }

    /// What is handed out after the output was made a vector, or failed to
    /// be: the request that stores the section, or the error.
    pub open spec fn handed_out(self, result: Result<Seq<u64>, EmbedError>) -> Result<
        UpsertRequestView,
        EmbedError,
    > {
        match result {
            Ok(vector) => Ok(self.request(vector)),
            Err(error) => Err(error),
        }
    }

    /// The request that stores the job in flight with `vector`.
    pub open spec fn request(self, vector: Seq<u64>) -> UpsertRequestView {
        request_for(
            self.config.collection_name,
            self.next_index,
            self.config.start_vector_id,
            vector,
            self.pending->Some_0.text,
        )
    }

    /// The state after the store's answer, whether it stored the point or
    /// not.
    pub open spec fn upserted(self, stored: bool) -> DriverState {
        self.completed()
    }

    /// The state after `line`, when the section that the line closes, if it
    /// closes one, is done with before the next line.
    pub open spec fn advance(self, line: Seq<char>) -> DriverState {
        let fed = self.feed(line);
        if fed.phase == Phase::Reading {
            fed
        } else {
            fed.completed()
        }
    }
}

/// The state of a driver that was fed `lines`, each section done with before
/// the next line.
pub open spec fn drive(config: ConfigView, lines: Seq<Seq<char>>) -> DriverState
    decreases lines.len(),
{
    if lines.len() == 0 {
        DriverState::initial(config)
    } else {
        drive(config, lines.drop_last()).advance(lines.last())
    }
}

/// The jobs that a driver hands out while it is fed `lines`, each section
/// done with before the next line.
pub open spec fn jobs_while_reading(config: ConfigView, lines: Seq<Seq<char>>) -> Seq<JobView>
    decreases lines.len(),
{
    if lines.len() == 0 {
        Seq::empty()
    } else {
        let before = jobs_while_reading(config, lines.drop_last());
        match drive(config, lines.drop_last()).feed(lines.last()).pending {
            Some(job) => before.push(job),
            None => before,
        }
    }
}

/// All jobs that a driver hands out for a document: those while it is fed
/// the lines, then the one at the end of the input.
pub open spec fn driven_jobs(config: ConfigView, lines: Seq<Seq<char>>) -> Seq<JobView> {
    match drive(config, lines).finish().pending {
        Some(job) => jobs_while_reading(config, lines).push(job),
        None => jobs_while_reading(config, lines),
    }
}

/// A driver that is fed the lines of a document, each section done with
/// before the next line, reads again after every line; its chunker has seen
/// all lines, and its index counts the sections closed so far.
pub proof fn lemma_drive(config: ConfigView, lines: Seq<Seq<char>>)
    ensures
        drive(config, lines).phase == Phase::Reading,
        drive(config, lines).pending is None,
        drive(config, lines).config == config,
        drive(config, lines).chunk == run(ChunkState::initial(), lines),
        drive(config, lines).next_index == closed_sections(lines).len(),
        jobs_while_reading(config, lines) == Seq::new(
            closed_sections(lines).len(),
            |k: int| job_of(config, k as nat, closed_sections(lines)[k]),
        ),
    decreases lines.len(),
{
    if lines.len() > 0 {
        lemma_drive(config, lines.drop_last());
    }
}

/// The driver hands out one job for each section of the document, in order,
/// and the job of the section at position `k` carries the index `k` and the
/// identifier `start_vector_id + k`.
pub proof fn lemma_identifiers_follow_sections(config: ConfigView, lines: Seq<Seq<char>>)
    ensures
        driven_jobs(config, lines) == jobs_of(config, lines),
        driven_jobs(config, lines).len() == sections_of(lines).len(),
        forall|k: int|
            0 <= k < sections_of(lines).len() ==> {
                &&& (#[trigger] driven_jobs(config, lines)[k]).index == k
                &&& driven_jobs(config, lines)[k].id == config.start_vector_id + k
                &&& driven_jobs(config, lines)[k].text == embedded_text(
                    config,
                    sections_of(lines)[k].text,
                )
            },
{
    lemma_drive(config, lines);
}

/// The output of the engine is read after every compute step, whether it
/// succeeded or not.
pub proof fn lemma_output_is_read_after_every_outcome(state: DriverState, outcome: ComputeOutcome)
    ensures
        state.computed(outcome).phase == Phase::ReadingOutput,
        state.computed(outcome) == state.computed(ComputeOutcome::Success),
{
}

/// An output that gives no vector ends the work on its section only:
/// nothing is stored for it, the index grows by one, and the driver reads
/// on.
pub proof fn lemma_bad_output_skips_one_section(state: DriverState, error: EmbedError)
    ensures
        state.embedded(Err(error)) == state.completed(),
        state.handed_out(Err(error)) is Err,
        state.embedded(Err(error)).phase == Phase::Reading,
        state.embedded(Err(error)).next_index == state.next_index + 1,
        state.embedded(Err(error)).chunk == state.chunk,
{
}

/// The point that goes to the store carries the vector as the engine gave
/// it, the text of the job as it was embedded, and the job's identifier.
pub proof fn lemma_point_carries_vector_and_text(state: DriverState, vector: Seq<u64>)
    requires
        state.pending matches Some(job) && job.index == state.next_index && job.id == identifier(
            state.config.start_vector_id,
            state.next_index,
        ),
    ensures
        state.handed_out(Ok(vector)) matches Ok(request) && {
            &&& request.collection == state.config.collection_name
            &&& request.points.len() == 1
            &&& request.points[0].vector == vector
            &&& request.points[0].source == state.pending->Some_0.text
            &&& request.points[0].id == state.pending->Some_0.id
            &&& request.points[0].payload() == Map::<Seq<char>, Seq<char>>::empty().insert(
                source_key(),
                state.pending->Some_0.text,
            )
        },
{
}

/// Whether the store took a point or refused it makes no difference to what
/// follows: the driver is in the same state after either answer, ready for
/// the next line, with the index grown by one.
pub proof fn lemma_store_failure_does_not_stop(state: DriverState)
    ensures
        state.upserted(false) == state.upserted(true),
        state.upserted(false).phase == Phase::Reading,
        state.upserted(false).next_index == state.next_index + 1,
        state.upserted(false).chunk == state.chunk,
{
}

/// The driver of one run.
pub struct Driver {
    config: PipelineConfig,
    chunker: Chunker,
    next_index: u64,
    pending: Option<Job>,
    phase: Phase,
}

impl View for Driver {
    type V = DriverState;

    closed spec fn view(&self) -> DriverState {
        DriverState {
            config: self.config@,
            chunk: self.chunker@,
            next_index: self.next_index as nat,
            pending: match self.pending {
                Some(job) => Some(job@),
                None => None,
            },
            phase: self.phase,
        }
    }
}

impl Driver {
    /// The driver's invariant: a job is pending exactly while one is with
    /// the engine, and it carries the current index and the identifier that
    /// goes with it.
    pub closed spec fn wf(&self) -> bool {
        &&& self.chunker.wf()
        &&& self.pending is Some <==> (self.phase == Phase::Computing || self.phase
            == Phase::ReadingOutput)
        &&& self.pending matches Some(job) ==> {
            &&& job.index == self.next_index
            &&& job.id == identifier(self.config@.start_vector_id, self.next_index as nat)
        }
    }

    /// A driver before the first line.
    pub fn new(config: PipelineConfig) -> (driver: Driver)
        ensures
            driver.wf(),
            driver@ == DriverState::initial(config@),
    {
        Driver {
            config,
            chunker: Chunker::new(),
            next_index: 0,
            pending: None,
            phase: Phase::Reading,
        }
    }

    /// What the driver waits for.
    pub fn phase(&self) -> (r: Phase)
        ensures
            r == self@.phase,
    {
        self.phase
    }

    /// The index of the section in flight, or of the next one: the number of
    /// sections done with so far.
    pub fn next_index(&self) -> (r: u64)
        ensures
            r == self@.next_index,
    {
        self.next_index
    }

    /// The settings of the run.
    pub fn config(&self) -> (r: &PipelineConfig)
        ensures
            r@ == self@.config,
    {
        &self.config
    }

    /// Whether the section in flight, or the next one, has an identifier.
    pub fn can_identify(&self) -> (r: bool)
        ensures
            r == self@.can_identify(),
    {
        self.config.start_vector_id() <= u64::MAX - self.next_index
    }

    /// Whether the section in flight can be done with: whether the index can
    /// grow by one.
    pub fn has_room(&self) -> (r: bool)
        ensures
            r == self@.has_room(),
    {
        self.next_index < u64::MAX
    }

    /// Whether `line` would close a section, so that the section needs an
    /// identifier.
    pub fn closes(&self, line: &str) -> (r: bool)
        requires
            self.wf(),
        ensures
            r == self@.chunk.closes(line@),
    {
        !self.chunker.in_code_block() && self.chunker.has_content() && blank(line)
    }

    /// Whether the end of the input would close a section, so that the
    /// section needs an identifier.
    pub fn holds_section(&self) -> (r: bool)
        requires
            self.wf(),
        ensures
            r == self@.chunk.flushed() is Some,
    {
        self.chunker.has_content()
    }

    fn accept(&mut self, section: Option<Section>) -> (r: Option<Job>)
        requires
            old(self).wf(),
            old(self).phase == Phase::Reading,
            section is Some ==> old(self)@.can_identify(),
        ensures
            final(self).wf(),
            final(self).config == old(self).config,
            final(self).chunker == old(self).chunker,
            final(self).next_index == old(self).next_index,
            match (section, r) {
                (Some(section), Some(job)) => {
                    &&& job@ == job_of(old(self).config@, old(self).next_index as nat, section@)
                    &&& final(self).pending matches Some(pending) && pending@ == job@
                    &&& final(self).phase == Phase::Computing
                },
                (None, None) => {
                    &&& final(self).pending is None
                    &&& final(self).phase == Phase::Reading
                },
                _ => false,
            },
    {
        match section {
            None => None,
            Some(section) => {
                let (text, cut) = match self.config.max_context_length() {
                    Some(max) => truncate(section.text.as_str(), max),
                    None => (section.text, false),
                };
                let id = self.config.start_vector_id() + self.next_index;
                let job = Job { index: self.next_index, id, text: text.clone(), truncated: cut };
                self.pending = Some(Job { index: self.next_index, id, text, truncated: cut });
                self.phase = Phase::Computing;
                Some(job)
            },
        }
    }

    /// Takes one line of the input, without its line feed. Where the line
    /// closes a section, the section is handed out as a job, with its index,
    /// its identifier and its text cut to the maximum context length, and the
    /// driver waits for the engine to compute on that text.
    pub fn feed_line(&mut self, line: &str) -> (r: Option<Job>)
        requires
            old(self).wf(),
            old(self)@.phase == Phase::Reading,
            old(self)@.chunk.closes(line@) ==> old(self)@.can_identify(),
        ensures
            final(self).wf(),
            final(self)@ == old(self)@.feed(line@),
            match r {
                Some(job) => final(self)@.pending == Some(job@),
                None => final(self)@.pending is None,
            },
    {
        let section = self.chunker.feed(line);
        self.accept(section)
    }

    /// Ends the input. Where the buffer holds a section, it is handed out as
    /// the last job, like any other.
    pub fn finish(&mut self) -> (r: Option<Job>)
        requires
            old(self).wf(),
            old(self)@.phase == Phase::Reading,
            old(self)@.chunk.flushed() is Some ==> old(self)@.can_identify(),
        ensures
            final(self).wf(),
            final(self)@ == old(self)@.finish(),
            match r {
                Some(job) => final(self)@.pending == Some(job@),
                None => final(self)@.pending is None,
            },
    {
        let section = self.chunker.flush();
        self.accept(section)
    }

    /// Takes the outcome of the compute step. Whatever it is, the output is
    /// read next, into a buffer of the size that is handed out; an outcome
    /// other than success is logged with the weight that is handed out.
    pub fn computed(&mut self, outcome: ComputeOutcome) -> (r: OutputRead)
        requires
            old(self).wf(),
            old(self)@.phase == Phase::Computing,
        ensures
            final(self).wf(),
            final(self)@ == old(self)@.computed(outcome),
            final(self)@.phase == Phase::ReadingOutput,
            r.log == severity_of(outcome),
            r.buffer_size == output_capacity(old(self)@.config.vector_size),
    {
        let buffer_size = output_buffer_size(self.config.vector_size()).unwrap();
        self.phase = Phase::ReadingOutput;
        OutputRead { log: compute_severity(outcome), buffer_size }
    }

    /// Takes the engine's output: the buffer, and how many bytes of it the
    /// engine says it filled. The vector is read out of it and handed on as
    /// `embedded` says.
    pub fn output(&mut self, buffer: &[u8], written: usize) -> (r: Result<
        UpsertRequest,
        EmbedError,
    >)
        requires
            old(self).wf(),
            old(self)@.phase == Phase::ReadingOutput,
            old(self)@.has_room(),
        ensures
            final(self).wf(),
            final(self)@ == old(self)@.output(buffer@, written as nat),
            request_view(r) == old(self)@.handed_out(
                old(self)@.embedding(buffer@, written as nat),
            ),
    {
        let result = embedding_from_output(buffer, written, self.config.vector_size());
        self.embedded(result)
    }

    /// Takes the vector for the job in flight, or the reason why there is
    /// none. With a vector, the request that stores the section is handed
    /// out: one point with the job's identifier, the vector as it came, and
    /// the job's text; the driver then waits for the store. Without one,
    /// nothing is stored for the section, the reason is handed back, and the
    /// driver goes on with the next line.
    pub fn embedded(&mut self, result: Result<EmbeddingVector, EmbedError>) -> (r: Result<
        UpsertRequest,
        EmbedError,
    >)
        requires
            old(self).wf(),
            old(self)@.phase == Phase::ReadingOutput,
            result is Err ==> old(self)@.has_room(),
        ensures
            final(self).wf(),
            final(self)@ == old(self)@.embedded(result_view(result)),
            request_view(r) == old(self)@.handed_out(result_view(result)),
    {
        let pending = self.pending.take();
        match result {
            Ok(vector) => {
                let job = pending.unwrap();
                self.phase = Phase::Upserting;
                Ok(
                    upsert_request(
                        self.config.collection_name(),
                        self.next_index,
                        self.config.start_vector_id(),
                        vector,
                        job.text,
                    ),
                )
            },
            Err(error) => {
                self.next_index = self.next_index + 1;
                self.phase = Phase::Reading;
                Err(error)
            },
        }
    }

    /// Takes the store's answer. Stored or not, the section is done with:
    /// the index grows by one and the driver goes on with the next line.
    pub fn upserted(&mut self, stored: bool)
        requires
            old(self).wf(),
            old(self)@.phase == Phase::Upserting,
            old(self)@.has_room(),
        ensures
            final(self).wf(),
            final(self)@ == old(self)@.upserted(stored),
            final(self)@ == old(self)@.completed(),
    {
        self.next_index = self.next_index + 1;
        self.phase = Phase::Reading;
    }
}

} // verus!
