use vstd::prelude::*;
use crate::FFT_SIZE;
use crate::deinterleave::{deinterleave, deinterleaved};
use crate::format::AudioInfo;
use crate::matrix::{Matrix, chunk_at, chunk_count, chunks_of, views_of};
use crate::ring::{lemma_slide_len, slide};
use crate::spectrum::SpectrumBuffer;

verus! {

/// Number of frames in each data batch handed to the consumer.
pub const CHUNK_FRAMES: usize = 80;

/// What the capture side reports to its consumer.
#[derive(Debug, Clone)]
pub enum PwEvent<T> {
    /// The service settled on a (new) stream format.
    FormatChange(AudioInfo),
    /// A batch of captured samples, one sequence per channel.
    DataNew(Matrix<T>),
    /// Magnitudes of the spectrum of the most recent mono window.
    Spectrum(Vec<T>),
    /// The stream failed; nothing follows for this session.
    PwErr,
}

/// The event is a failure report.
pub open spec fn is_failure<T>(e: PwEvent<T>) -> bool {
    match e {
        PwEvent::PwErr => true,
        _ => false,
    }
}

/// The event is a data batch holding exactly the channels `v`.
pub open spec fn is_batch_of<T: Copy>(e: PwEvent<T>, v: Seq<Seq<T>>) -> bool {
    match e {
        PwEvent::DataNew(b) => b@ == v && b.wf(),
        _ => false,
    }
}

/// Life cycle of a capture session.
#[derive(Debug, Clone, Copy, PartialEq, Eq, Structural)]
pub enum SessionState {
    Disconnected,
    Connecting,
    Negotiating,
    Streaming,
    Failed,
}

/// Format proposals are heeded in these states.
pub open spec fn hears_proposals(s: SessionState) -> bool {
    s == SessionState::Connecting || s == SessionState::Negotiating || s
        == SessionState::Streaming
}

/// The decisions of a capture session: which events a format proposal, a
/// captured buffer or a failure gives, and the rolling mono window that the
/// spectrum is computed from. Samples are the raw 32-bit words of the
/// little-endian float samples the service delivers.
#[derive(Debug, Clone)]
pub struct CaptureSession {
    state: SessionState,
    format: AudioInfo,
    spectrum: SpectrumBuffer<u32>,
}

impl CaptureSession {
    /// Current state.
    pub closed spec fn spec_state(&self) -> SessionState {
        self.state
    }

    /// The last format accepted.
    pub closed spec fn spec_format(&self) -> AudioInfo {
        self.format
    }

    /// The rolling mono window, oldest sample first.
    pub closed spec fn spec_window(&self) -> Seq<u32> {
        self.spectrum@
    }

    /// A disconnected session with a silent window of `FFT_SIZE` samples.
    pub fn new() -> (r: CaptureSession)
        ensures
            r.spec_state() == SessionState::Disconnected,
            r.spec_format().spec_rate() == 0,
            r.spec_format().spec_channels() == 0,
            r.spec_window() == Seq::new(FFT_SIZE as nat, |i: int| 0u32),
    {
        CaptureSession {
            state: SessionState::Disconnected,
            format: AudioInfo::new(0, 0),
            spectrum: SpectrumBuffer::new_filled(FFT_SIZE, 0),
        }
    }

    /// Current state.
    pub fn state(&self) -> (r: SessionState)
        ensures
            r == self.spec_state(),
    {
        self.state
    }

    /// The last format accepted.
    pub fn format(&self) -> (r: AudioInfo)
        ensures
            r == self.spec_format(),
    {
        self.format
    }

    /// A copy of the rolling mono window, oldest sample first.
    pub fn spectrum_window(&self) -> (r: Vec<u32>)
        ensures
            r@ == self.spec_window(),
    {
        self.spectrum.snapshot()
    }

    /// A start request: a disconnected session starts connecting. Returns
    /// whether it did; in any other state nothing changes.
    pub fn start(&mut self) -> (r: bool)
        ensures
            r == (old(self).spec_state() == SessionState::Disconnected),
            final(self).spec_state() == if r {
                SessionState::Connecting
            } else {
                old(self).spec_state()
            },
            final(self).spec_format() == old(self).spec_format(),
            final(self).spec_window() == old(self).spec_window(),
    {
        if self.state == SessionState::Disconnected {
            self.state = SessionState::Connecting;
            true
        } else {
            false
        }
    }

    /// The connection and the stream registration succeeded: a connecting
    /// session waits for a format. In any other state nothing changes.
    pub fn connected(&mut self)
        ensures
            final(self).spec_state() == if old(self).spec_state() == SessionState::Connecting {
                SessionState::Negotiating
            } else {
                old(self).spec_state()
            },
            final(self).spec_format() == old(self).spec_format(),
            final(self).spec_window() == old(self).spec_window(),
    {
        if self.state == SessionState::Connecting {
            self.state = SessionState::Negotiating;
        }
    }

    /// The service proposed a format. `raw_audio` tells whether it is raw
    /// audio; `format` is its rate and channel count, or `None` where they
    /// could not be read. Other proposals, and any proposal outside
    /// connecting, negotiating and streaming, are ignored. A raw-audio
    /// proposal that could not be read fails the session.
    pub fn param_changed(&mut self, raw_audio: bool, format: Option<AudioInfo>) -> (r: Vec<
        PwEvent<u32>,
    >)
        ensures
            final(self).spec_window() == old(self).spec_window(),
            !(raw_audio && hears_proposals(old(self).spec_state())) ==> {
                &&& r@.len() == 0
                &&& final(self).spec_state() == old(self).spec_state()
                &&& final(self).spec_format() == old(self).spec_format()
            },
            raw_audio && hears_proposals(old(self).spec_state()) ==> match format {
                Some(f) => {
                    &&& r@ == seq![PwEvent::<u32>::FormatChange(f)]
                    &&& final(self).spec_state() == SessionState::Streaming
                    &&& final(self).spec_format() == f
                },
                None => {
                    &&& r@ == seq![PwEvent::<u32>::PwErr]
                    &&& final(self).spec_state() == SessionState::Failed
                    &&& final(self).spec_format() == old(self).spec_format()
                },
            },
    {
        let mut out: Vec<PwEvent<u32>> = Vec::new();
        let hears = self.state == SessionState::Connecting || self.state
            == SessionState::Negotiating || self.state == SessionState::Streaming;
        if !raw_audio || !hears {
            return out;
        }
        match format {
            Some(f) => {
                self.format = f;
                self.state = SessionState::Streaming;
                out.push(PwEvent::FormatChange(f));
            },
            None => {
                self.state = SessionState::Failed;
                out.push(PwEvent::PwErr);
            },
        }
        out
    }

    /// A fatal error (connection, registration or run loop): the session
    /// fails and reports it once. A failed session reports nothing more.
    pub fn fail(&mut self) -> (r: Vec<PwEvent<u32>>)
        ensures
            final(self).spec_state() == SessionState::Failed,
            final(self).spec_format() == old(self).spec_format(),
            final(self).spec_window() == old(self).spec_window(),
            old(self).spec_state() == SessionState::Failed ==> r@.len() == 0,
            old(self).spec_state() != SessionState::Failed ==> r@ == seq![PwEvent::<u32>::PwErr],
    {
        let mut out: Vec<PwEvent<u32>> = Vec::new();
        if self.state != SessionState::Failed {
            self.state = SessionState::Failed;
            out.push(PwEvent::PwErr);
        }
        out
    }

    /// An explicit stop: the session disconnects, unless it failed.
    pub fn stop(&mut self)
        ensures
            final(self).spec_state() == if old(self).spec_state() == SessionState::Failed {
                SessionState::Failed
            } else {
                SessionState::Disconnected
            },
            final(self).spec_format() == old(self).spec_format(),
            final(self).spec_window() == old(self).spec_window(),
    {
        if self.state != SessionState::Failed {
            self.state = SessionState::Disconnected;
        }
    }

    /// One capture callback. `region` is the first data region of the
    /// dequeued buffer, `None` where no buffer or no region came, and `size`
    /// the number of valid bytes the buffer reports; no more bytes than the
    /// region holds are read. A streaming session with at least one channel splits the bytes
    /// into channels, slides channel 0 into the mono window and returns one
    /// data batch per whole chunk of `CHUNK_FRAMES` frames, in order; a
    /// trailing partial chunk is dropped. Otherwise nothing changes and `None`
    /// comes back.
    pub fn process(&mut self, region: Option<&[u8]>, size: usize) -> (r: Option<Vec<PwEvent<u32>>>)
        ensures
            final(self).spec_state() == old(self).spec_state(),
            final(self).spec_format() == old(self).spec_format(),
            r is None <==> (region is None || old(self).spec_state() != SessionState::Streaming
                || old(self).spec_format().spec_channels() == 0),
            r is None ==> final(self).spec_window() == old(self).spec_window(),
            r matches Some(events) ==> {
                let bytes = region->Some_0@;
                let valid = if size <= bytes.len() {
                    bytes.take(size as int)
                } else {
                    bytes
                };
                let m = deinterleaved(valid, old(self).spec_format().spec_channels() as nat);
                &&& final(self).spec_window() == slide(old(self).spec_window(), m[0])
                &&& final(self).spec_window().len() == old(self).spec_window().len()
                &&& events@.len() == chunk_count(m, CHUNK_FRAMES as nat)
                &&& forall|k: int|
                    0 <= k < events@.len() ==> is_batch_of(
                        #[trigger] events@[k],
                        chunk_at(m, CHUNK_FRAMES as nat, k),
                    )
            },
    {
        if self.state != SessionState::Streaming {
            return None;
        }
        let channels = self.format.channels();
        if channels == 0 {
            return None;
        }
        let bytes = match region {
            Some(b) => b,
            None => {
                return None;
            },
        };
        let len = if size <= bytes.len() {
            size
        } else {
            bytes.len()
        };
        assert(bytes@.take(bytes@.len() as int) =~= bytes@);
        let matrix = deinterleave(bytes, len, channels as usize);
        let rows = matrix.data();
        assert(rows@.len() == matrix@.len());
        assert(rows@[0]@ == matrix@[0]);
        self.spectrum.append(rows[0].as_slice());
        let chunks = matrix.chunks(CHUNK_FRAMES);
        let events = batch_events(chunks);
        proof {
            lemma_slide_len(old(self).spec_window(), matrix@[0]);
            assert(views_of(chunks@).len() == chunks@.len());
            assert(events@.len() == chunk_count(matrix@, CHUNK_FRAMES as nat));
            assert forall|j: int| 0 <= j < events@.len() implies is_batch_of(
                #[trigger] events@[j],
                chunk_at(matrix@, CHUNK_FRAMES as nat, j),
            ) by {
                assert(views_of(chunks@)[j] == chunks@[j]@);
                assert(chunks_of(matrix@, CHUNK_FRAMES as nat)[j] == chunk_at(
                    matrix@,
                    CHUNK_FRAMES as nat,
                    j,
                ));
            }
            let valid = if size <= bytes@.len() {
                bytes@.take(size as int)
            } else {
                bytes@
            };
            assert(valid == bytes@.take(len as int));
        }
        Some(events)
    }
}

/// One data-batch event per batch, in order.
fn batch_events(batches: Vec<Matrix<u32>>) -> (r: Vec<PwEvent<u32>>)
    requires
        forall|j: int| 0 <= j < batches@.len() ==> (#[trigger] batches@[j]).wf(),
    ensures
        r@.len() == batches@.len(),
        forall|j: int| 0 <= j < r@.len() ==> is_batch_of(#[trigger] r@[j], batches@[j]@),
{
    let total = batches.len();
    let mut events: Vec<PwEvent<u32>> = Vec::with_capacity(total);
    let mut rest = batches;
    let ghost all = rest@;
    let mut k: usize = 0;
    while rest.len() > 0
        invariant
            total == all.len(),
            k + rest@.len() == total,
            forall|j: int| 0 <= j < rest@.len() ==> #[trigger] rest@[j] == all[k + j],
            events@.len() == k,
            forall|j: int| 0 <= j < k ==> is_batch_of(#[trigger] events@[j], all[j]@),
            forall|j: int| 0 <= j < all.len() ==> (#[trigger] all[j]).wf(),
        decreases rest@.len(),
    {
        let b = rest.remove(0);
        events.push(PwEvent::DataNew(b));
        k += 1;
        assert forall|j: int| 0 <= j < rest@.len() implies #[trigger] rest@[j] == all[k + j] by {
            assert(rest@[j] == all[k + j]);
        }
    }
    events
}

} // verus!
