use vstd::prelude::*;
use crate::FFT_SIZE;
use crate::capture::PwEvent;
use crate::matrix::Matrix;
use crate::ring::{MatrixFixed, appended};

verus! {

/// Samples kept per channel for the waveform after a format change.
pub const HISTORY_LEN: usize = 500;

/// Channels of the waveform history before any format is known.
pub const INITIAL_CHANNELS: usize = 2;

/// Sample rate assumed before any format is known.
pub const INITIAL_RATE: u32 = 50000;

/// What the consumer side keeps of the event stream: the waveform history,
/// the last spectrum and the sample rate.
#[derive(Debug, Clone)]
pub struct LineDatas<T> {
    raw_matrix: MatrixFixed<T>,
    spectrum: Vec<T>,
    rate: u32,
}

impl<T: Copy> LineDatas<T> {
    /// The waveform history.
    pub closed spec fn spec_raw(&self) -> MatrixFixed<T> {
        self.raw_matrix
    }

    /// The last spectrum received.
    pub closed spec fn spec_spectrum(&self) -> Seq<T> {
        self.spectrum@
    }

    /// The sample rate.
    pub closed spec fn spec_rate(&self) -> u32 {
        self.rate
    }

    /// The waveform history is well formed.
    pub open spec fn wf(&self) -> bool {
        self.spec_raw().wf()
    }

    /// The waveform history.
    pub fn raw_matrix(&self) -> (r: &MatrixFixed<T>)
        ensures
            *r == self.spec_raw(),
    {
        &self.raw_matrix
    }

    /// The last spectrum received.
    pub fn spectrum(&self) -> (r: &Vec<T>)
        ensures
            r@ == self.spec_spectrum(),
    {
        &self.spectrum
    }

    /// The sample rate.
    pub fn rate(&self) -> (r: u32)
        ensures
            r == self.spec_rate(),
    {
        self.rate
    }

    pub fn set_rate(&mut self, rate: u32)
        ensures
            final(self).spec_rate() == rate,
            final(self).spec_raw() == old(self).spec_raw(),
            final(self).spec_spectrum() == old(self).spec_spectrum(),
    {
        self.rate = rate;
    }

    pub fn set_spectrum(&mut self, spectrum: Vec<T>)
        ensures
            final(self).spec_spectrum() == spectrum@,
            final(self).spec_raw() == old(self).spec_raw(),
            final(self).spec_rate() == old(self).spec_rate(),
    {
        self.spectrum = spectrum;
    }

    /// Appends a batch to the waveform history.
    pub fn append_data(&mut self, matrix: Matrix<T>)
        requires
            old(self).wf(),
            matrix.wf(),
            matrix@.len() == old(self).spec_raw().spec_channel(),
        ensures
            final(self).wf(),
            final(self).spec_raw().spec_len() == old(self).spec_raw().spec_len(),
            final(self).spec_raw().spec_channel() == old(self).spec_raw().spec_channel(),
            final(self).spec_raw()@ == appended(old(self).spec_raw()@, matrix@),
            final(self).spec_spectrum() == old(self).spec_spectrum(),
            final(self).spec_rate() == old(self).spec_rate(),
    {
        self.raw_matrix.append(matrix);
    }
}

impl<T: Copy + Default> LineDatas<T> {
    /// Two channels of `HISTORY_LEN` default samples, a spectrum of
    /// `FFT_SIZE` default values and the initial rate.
    pub fn new() -> (r: LineDatas<T>)
        ensures
            r.wf(),
            r.spec_raw().spec_len() == HISTORY_LEN,
            r.spec_raw().spec_channel() == INITIAL_CHANNELS,
            r.spec_spectrum().len() == FFT_SIZE,
            r.spec_rate() == INITIAL_RATE,
            forall|i: int|
                0 <= i < FFT_SIZE ==> call_ensures(T::default, (), #[trigger] r.spec_spectrum()[i]),
            forall|c: int, i: int|
                0 <= c < INITIAL_CHANNELS && 0 <= i < HISTORY_LEN ==> call_ensures(
                    T::default,
                    (),
                    #[trigger] r.spec_raw()@[c][i],
                ),
    {
        let d = T::default();
        let mut spectrum: Vec<T> = Vec::with_capacity(FFT_SIZE);
        let mut i: usize = 0;
        while i < FFT_SIZE
            invariant
                i <= FFT_SIZE,
                spectrum@.len() == i,
                forall|j: int| 0 <= j < i ==> #[trigger] spectrum@[j] == d,
            decreases FFT_SIZE - i,
        {
            spectrum.push(d);
            i += 1;
        }
        LineDatas {
            raw_matrix: MatrixFixed::new_filled(HISTORY_LEN, INITIAL_CHANNELS, d),
            spectrum,
            rate: INITIAL_RATE,
        }
    }

    /// Replaces the waveform history by `channel` channels of `len` default
    /// samples.
    pub fn reset_matrix(&mut self, len: usize, channel: usize)
        ensures
            final(self).wf(),
            final(self).spec_raw().spec_len() == len,
            final(self).spec_raw().spec_channel() == channel,
            forall|c: int, i: int|
                0 <= c < channel && 0 <= i < len ==> call_ensures(
                    T::default,
                    (),
                    #[trigger] final(self).spec_raw()@[c][i],
                ),
            final(self).spec_spectrum() == old(self).spec_spectrum(),
            final(self).spec_rate() == old(self).spec_rate(),
    {
        self.raw_matrix = MatrixFixed::new(len, channel);
    }

    /// Takes in one event: a format change resets the history to
    /// `HISTORY_LEN` samples of each of the new channels and takes the new
    /// rate; a spectrum replaces the last one; a data batch with the
    /// history's channel count is appended. A failure report changes nothing.
    /// Returns false, changing nothing, for a data batch whose channels differ
    /// in number or length from the history's.
    pub fn apply(&mut self, event: PwEvent<T>) -> (r: bool)
        requires
            old(self).wf(),
        ensures
            final(self).wf(),
            match event {
                PwEvent::FormatChange(f) => {
                    &&& r
                    &&& final(self).spec_raw().spec_len() == HISTORY_LEN
                    &&& final(self).spec_raw().spec_channel() == f.spec_channels()
                    &&& forall|c: int, i: int|
                        0 <= c < f.spec_channels() && 0 <= i < HISTORY_LEN ==> call_ensures(
                            T::default,
                            (),
                            #[trigger] final(self).spec_raw()@[c][i],
                        )
                    &&& final(self).spec_rate() == f.spec_rate()
                    &&& final(self).spec_spectrum() == old(self).spec_spectrum()
                },
                PwEvent::Spectrum(s) => {
                    &&& r
                    &&& final(self).spec_spectrum() == s@
                    &&& final(self).spec_raw() == old(self).spec_raw()
                    &&& final(self).spec_rate() == old(self).spec_rate()
                },
                PwEvent::DataNew(m) => {
                    &&& r == (m.wf() && m@.len() == old(self).spec_raw().spec_channel())
                    &&& r ==> final(self).spec_raw()@ == appended(old(self).spec_raw()@, m@)
                    &&& r ==> final(self).spec_raw().spec_len() == old(self).spec_raw().spec_len()
                    &&& r ==> final(self).spec_raw().spec_channel()
                        == old(self).spec_raw().spec_channel()
                    &&& !r ==> final(self).spec_raw() == old(self).spec_raw()
                    &&& final(self).spec_spectrum() == old(self).spec_spectrum()
                    &&& final(self).spec_rate() == old(self).spec_rate()
                },
                PwEvent::PwErr => {
                    &&& r
                    &&& final(self).spec_raw() == old(self).spec_raw()
                    &&& final(self).spec_spectrum() == old(self).spec_spectrum()
                    &&& final(self).spec_rate() == old(self).spec_rate()
                },
            },
    {
        match event {
            PwEvent::FormatChange(f) => {
                self.reset_matrix(HISTORY_LEN, f.channels() as usize);
                self.set_rate(f.rate());
                true
            },
            PwEvent::Spectrum(s) => {
                self.set_spectrum(s);
                true
            },
            PwEvent::DataNew(m) => {
                if m.is_rectangular() && m.channel() == self.raw_matrix.channel() {
                    self.append_data(m);
                    true
                } else {
                    false
                }
            },
            PwEvent::PwErr => true,
        }
    }
}

} // verus!
