//! The pipeline orchestrator.
//!
//! One `Pipeline` drives every channel of a stream through the per-frame
//! sequence: the externally computed spectrum and network outputs come in,
//! the channel's spectral history advances, the deep filter blends the low
//! bins, the mask scales every covered bin, and the enhanced spectrum goes
//! back out for synthesis. Channels never share state: a frame only ever
//! reads and writes the channel it belongs to, which makes the per-channel
//! streams independent by construction.

use vstd::prelude::*;

verus! {

use crate::config::DfConfig;
use crate::errors::DfError;
use crate::filter::{
    apply_mask,
    coefs_check,
    coefs_wf,
    deep_filter,
    filtered_im,
    filtered_re,
    gains_check,
    rows,
};
use crate::num::{
    Complex,
    frame_in,
    frame_within,
    GAIN_LIMIT,
    GAIN_ONE,
    lemma_scaled_one,
    lemma_scaled_zero,
    mag_sq,
    mag_sq_parts,
    ORDER_LIMIT,
    SAMPLE_LIMIT,
    scaled,
};
use crate::ring::{SpectralBuffer, zero_frame};
use crate::stage::{
    ConversionReport,
    conversion_error,
    coef_stage_spec,
    decoder_spec,
    encoder_spec,
    report_admits,
    StageMode,
    StageRuntime,
};

/// The orchestrator's lifecycle. `Uninitialized` names the state before
/// construction; a `Pipeline` value exists only from `Ready` on, since any
/// construction failure is terminal (`Failed`) and yields no pipeline.
#[derive(Clone, Copy, PartialEq, Eq, Structural, Debug)]
pub enum Phase {
    /// No stage constructed yet.
    Uninitialized,
    /// Every stage constructed, no frame accepted yet.
    Ready,
    /// At least one frame accepted.
    Streaming,
    /// Input exhausted on all channels.
    Finished,
    /// A stage failed to construct, or a frame violated a shape contract.
    Failed,
}

/// Everything one channel owns: one stage runtime per network stage, the
/// spectral history ring, and the drain/abort flags. Never shared between
/// channels.
#[derive(Debug)]
pub struct ChannelState {
    pub enc: StageRuntime,
    pub dec: StageRuntime,
    pub coef_net: StageRuntime,
    pub buf: SpectralBuffer,
    /// The channel's input is exhausted (a short frame arrived).
    pub done: bool,
    /// The channel's stream aborted on a frame error.
    pub aborted: bool,
}

/// What one full frame of one channel hands the orchestrator: the current
/// complex spectrum from analysis, and the two network products.
pub struct FrameData {
    /// The frame's complex spectrum, all `n_freq` bins.
    pub spectrum: Vec<Complex>,
    /// Deep-filter coefficients, `df_order` rows of `nb_df` bins.
    pub coefs: Vec<Vec<Complex>>,
    /// Per-bin gains for the low `nb_erb` bins.
    pub mask: Vec<i64>,
}

/// One per-frame event of one channel.
pub enum FrameEvent {
    /// A full frame arrived and the network stages ran on it.
    Frame(FrameData),
    /// Fewer samples than one hop arrived: the channel drains.
    Short,
}

/// The component the enhanced bin `f` carries before masking: deep-filtered
/// below `nb_df`, the raw spectrum from `nb_df` up.
pub open spec fn pre_mask_re(
    spectrum: Seq<Complex>,
    coefs: Seq<Seq<Complex>>,
    lags: Seq<Seq<Complex>>,
    nb_df: int,
    f: int,
) -> int {
    if f < nb_df {
        filtered_re(coefs, lags, f)
    } else {
        spectrum[f].re as int
    }
}

/// Imaginary counterpart of [`pre_mask_re`].
pub open spec fn pre_mask_im(
    spectrum: Seq<Complex>,
    coefs: Seq<Seq<Complex>>,
    lags: Seq<Seq<Complex>>,
    nb_df: int,
    f: int,
) -> int {
    if f < nb_df {
        filtered_im(coefs, lags, f)
    } else {
        spectrum[f].im as int
    }
}

/// The output of one channel's frame is fully determined by the channel's
/// advanced history `lags`, the frame's spectrum, coefficients and mask:
/// deep filtering on the low bins, pass-through above, then the mask gain on
/// every covered bin.
pub open spec fn channel_output_ok(
    nb_df: int,
    spectrum: Seq<Complex>,
    coefs: Seq<Seq<Complex>>,
    lags: Seq<Seq<Complex>>,
    mask: Seq<i64>,
    out: Seq<Complex>,
) -> bool {
    &&& out.len() == spectrum.len()
    &&& forall|f: int|
        0 <= f < out.len() ==> (#[trigger] out[f]).re == (if f < mask.len() {
            scaled(mask[f] as int, pre_mask_re(spectrum, coefs, lags, nb_df, f))
        } else {
            pre_mask_re(spectrum, coefs, lags, nb_df, f)
        }) && out[f].im == (if f < mask.len() {
            scaled(mask[f] as int, pre_mask_im(spectrum, coefs, lags, nb_df, f))
        } else {
            pre_mask_im(spectrum, coefs, lags, nb_df, f)
        })
}

/// The pipeline orchestrator: the lifecycle phase, one state per channel,
/// and the bound dimensions.
#[derive(Debug)]
pub struct Pipeline {
    pub phase: Phase,
    pub channels: Vec<ChannelState>,
    /// Usable frequency bins per spectrum.
    pub n_freq: usize,
    /// Low bins the deep filter covers.
    pub nb_df: usize,
    /// Bins the mask covers.
    pub nb_erb: usize,
    /// Depth of each channel's spectral history.
    pub df_order: usize,
    /// Samples per frame; a shorter frame drains its channel.
    pub hop_size: usize,
}

/// The dimensions a usable configuration must satisfy: a history the
/// arithmetic supports, and filter and mask ranges inside the spectrum.
pub open spec fn spec_dims_ok(cfg: DfConfig) -> bool {
    &&& 1 <= cfg.df_order <= ORDER_LIMIT
    &&& cfg.nb_df <= cfg.fft_size / 2 + 1
    &&& cfg.nb_erb <= cfg.fft_size / 2 + 1
}

/// A channel exactly as construction leaves it: fresh runtimes carrying the
/// discovered delays, an all-zero history, nothing drained or aborted.
pub open spec fn channel_fresh(
    c: ChannelState,
    cfg: DfConfig,
    enc_report: ConversionReport,
    coef_report: ConversionReport,
) -> bool {
    &&& c.enc.mode == StageMode::Streaming
    &&& enc_report.discovered_delay == Some(c.enc.delay)
    &&& c.enc.frames_fed == 0
    &&& c.dec.mode == StageMode::Stateless
    &&& c.dec.delay == 0
    &&& c.dec.frames_fed == 0
    &&& c.coef_net.mode == StageMode::Streaming
    &&& coef_report.discovered_delay == Some(c.coef_net.delay)
    &&& c.coef_net.frames_fed == 0
    &&& c.buf.wf()
    &&& c.buf.order() == cfg.df_order
    &&& c.buf.nb_df() == cfg.nb_df
    &&& forall|k: int| 0 <= k < cfg.df_order ==> c.buf.lags()[k] == zero_frame(cfg.nb_df as int)
    &&& !c.done
    &&& !c.aborted
}

impl Pipeline {
    /// Every channel's ring is consistent with the bound dimensions.
    pub open spec fn wf(self) -> bool {
        &&& 1 <= self.df_order <= ORDER_LIMIT
        &&& self.nb_df <= self.n_freq
        &&& self.nb_erb <= self.n_freq
        &&& forall|i: int|
            0 <= i < self.channels@.len() ==> (#[trigger] self.channels@[i]).buf.wf()
                && self.channels@[i].buf.order() == self.df_order
                && self.channels@[i].buf.nb_df() == self.nb_df
    }

    /// Every channel's input is exhausted.
    pub open spec fn all_done(self) -> bool {
        forall|i: int| 0 <= i < self.channels@.len() ==> (#[trigger] self.channels@[i]).done
    }

    /// The data of one frame matches every bound shape and the fixed-point
    /// domain.
    pub open spec fn frame_data_ok(self, d: FrameData) -> bool {
        &&& d.spectrum@.len() == self.n_freq
        &&& frame_in(d.spectrum@, SAMPLE_LIMIT as int)
        &&& coefs_wf(rows(d.coefs@), self.df_order as int, self.nb_df as int)
        &&& d.mask@.len() == self.nb_erb
        &&& forall|f: int| 0 <= f < d.mask@.len() ==> 0 <= #[trigger] d.mask@[f] <= GAIN_LIMIT
    }

    /// Construct the whole pipeline: validate the configured dimensions,
    /// decide every stage's construction from its conversion report, and
    /// give each of the `n_channels` channels its own fresh stage runtimes
    /// and all-zero history. Succeeds exactly when the dimensions are usable
    /// and every report admits its stage; any failure is terminal and yields
    /// no pipeline.
    pub fn build(
        cfg: &DfConfig,
        enc_report: &ConversionReport,
        dec_report: &ConversionReport,
        coef_report: &ConversionReport,
        n_channels: usize,
    ) -> (r: Result<Pipeline, DfError>)
        requires
            cfg.gru_groups >= 1,
            cfg.conv_ch * cfg.conv_width_factor * cfg.conv_width_factor <= usize::MAX,
        ensures
            match r {
                Ok(p) => {
                    &&& spec_dims_ok(*cfg)
                    &&& report_admits(StageMode::Streaming, *enc_report)
                    &&& report_admits(StageMode::Stateless, *dec_report)
                    &&& report_admits(StageMode::Streaming, *coef_report)
                    &&& p.wf()
                    &&& p.phase == Phase::Ready
                    &&& p.n_freq == cfg.fft_size / 2 + 1
                    &&& p.nb_df == cfg.nb_df
                    &&& p.nb_erb == cfg.nb_erb
                    &&& p.df_order == cfg.df_order
                    &&& p.hop_size == cfg.hop_size
                    &&& p.channels@.len() == n_channels
                    &&& forall|i: int|
                        0 <= i < n_channels ==> channel_fresh(
                            #[trigger] p.channels@[i],
                            *cfg,
                            *enc_report,
                            *coef_report,
                        )
                },
                Err(e) => {
                    &&& !(spec_dims_ok(*cfg) && report_admits(StageMode::Streaming, *enc_report)
                        && report_admits(StageMode::Stateless, *dec_report) && report_admits(
                        StageMode::Streaming,
                        *coef_report,
                    ))
                    &&& if !(1 <= cfg.df_order <= ORDER_LIMIT) {
                        e matches DfError::ConfigError(k) && k@ == "df_order"@
                    } else if !(cfg.nb_df <= cfg.fft_size / 2 + 1) {
                        e matches DfError::ConfigError(k) && k@ == "nb_df"@
                    } else if !(cfg.nb_erb <= cfg.fft_size / 2 + 1) {
                        e matches DfError::ConfigError(k) && k@ == "nb_erb"@
                    } else if !report_admits(StageMode::Streaming, *enc_report) {
                        conversion_error("encoder"@, *enc_report, e)
                    } else if !report_admits(StageMode::Stateless, *dec_report) {
                        conversion_error("decoder"@, *dec_report, e)
                    } else {
                        conversion_error("coef_stage"@, *coef_report, e)
                    }
                },
            },
    {
        let n_freq = cfg.n_freq();
        if cfg.df_order < 1 || cfg.df_order > ORDER_LIMIT {
            return Err(DfError::ConfigError("df_order".to_owned()));
        }
        if cfg.nb_df > n_freq {
            return Err(DfError::ConfigError("nb_df".to_owned()));
        }
        if cfg.nb_erb > n_freq {
            return Err(DfError::ConfigError("nb_erb".to_owned()));
        }
        let enc_spec = encoder_spec(cfg);
        let dec_spec = decoder_spec(cfg);
        let coef_spec = coef_stage_spec(cfg);
        let enc_rt = StageRuntime::from_report(&enc_spec, enc_report)?;
        let dec_rt = StageRuntime::from_report(&dec_spec, dec_report)?;
        let coef_rt = StageRuntime::from_report(&coef_spec, coef_report)?;
        let mut channels: Vec<ChannelState> = Vec::new();
        let mut i: usize = 0;
        while i < n_channels
            invariant
                i <= n_channels,
                channels@.len() == i,
                1 <= cfg.df_order <= ORDER_LIMIT,
                forall|j: int|
                    0 <= j < i ==> channel_fresh(
                        #[trigger] channels@[j],
                        *cfg,
                        *enc_report,
                        *coef_report,
                    ),
                forall|j: int|
                    0 <= j < i ==> (#[trigger] channels@[j]).buf.wf() && channels@[j].buf.order()
                        == cfg.df_order && channels@[j].buf.nb_df() == cfg.nb_df,
                enc_rt.mode == StageMode::Streaming,
                enc_report.discovered_delay == Some(enc_rt.delay),
                enc_rt.frames_fed == 0,
                dec_rt.mode == StageMode::Stateless,
                dec_rt.delay == 0,
                dec_rt.frames_fed == 0,
                coef_rt.mode == StageMode::Streaming,
                coef_report.discovered_delay == Some(coef_rt.delay),
                coef_rt.frames_fed == 0,
            decreases n_channels - i,
        {
            let buf = SpectralBuffer::new(cfg.df_order, cfg.nb_df);
            channels.push(
                ChannelState {
                    enc: enc_rt,
                    dec: dec_rt,
                    coef_net: coef_rt,
                    buf,
                    done: false,
                    aborted: false,
                },
            );
            i = i + 1;
        }
        Ok(
            Pipeline {
                phase: Phase::Ready,
                channels,
                n_freq,
                nb_df: cfg.nb_df,
                nb_erb: cfg.nb_erb,
                df_order: cfg.df_order,
                hop_size: cfg.hop_size,
            },
        )
    }

    /// The delay the pipeline reports for one channel: the largest output
    /// delay among its stages. The first so many enhanced frames are warm-up
    /// output; callers that need time alignment discard or shift by this
    /// count.
    pub fn reported_delay(&self, ch: usize) -> (r: usize)
        requires
            ch < self.channels@.len(),
        ensures
            r == if self.channels@[ch as int].enc.delay >= self.channels@[ch as int].coef_net.delay {
                self.channels@[ch as int].enc.delay as int
            } else {
                self.channels@[ch as int].coef_net.delay as int
            },
    {
        let c = &self.channels[ch];
        if c.enc.delay >= c.coef_net.delay {
            c.enc.delay
        } else {
            c.coef_net.delay
        }
    }

    /// Whether a frame of `sample_count` samples continues the stream; a
    /// frame shorter than one hop drains the channel instead.
    pub fn frame_fits(&self, sample_count: usize) -> (r: bool)
        ensures
            r == (sample_count >= self.hop_size),
    {
        sample_count >= self.hop_size
    }

    /// Check one frame's data against the bound shapes and domains.
    fn check_frame(&self, d: &FrameData) -> (r: bool)
        ensures
            r == self.frame_data_ok(*d),
    {
        if d.spectrum.len() != self.n_freq {
            return false;
        }
        if !frame_within(&d.spectrum, SAMPLE_LIMIT) {
            return false;
        }
        if !coefs_check(&d.coefs, self.df_order, self.nb_df) {
            return false;
        }
        if d.mask.len() != self.nb_erb {
            return false;
        }
        if !gains_check(&d.mask) {
            return false;
        }
        true
    }

    /// Drive one channel one event forward.
    ///
    /// A `Short` event drains the channel (not an error); once every channel
    /// is drained the stream is `Finished`. A `Frame` event advances the
    /// channel's history by the frame's low band and returns the enhanced
    /// spectrum: deep-filtered low bins, raw bins above, the mask's gain on
    /// every covered bin. A frame that violates a bound shape aborts this
    /// channel and fails the stream; every other channel's state — and any
    /// output already produced — is untouched.
    pub fn process_frame(&mut self, ch: usize, event: FrameEvent) -> (r: Result<
        Option<Vec<Complex>>,
        DfError,
    >)
        requires
            old(self).wf(),
            ch < old(self).channels@.len(),
            old(self).phase == Phase::Ready || old(self).phase == Phase::Streaming,
            !old(self).channels@[ch as int].done,
            !old(self).channels@[ch as int].aborted,
            old(self).channels@[ch as int].enc.frames_fed < u64::MAX,
            old(self).channels@[ch as int].dec.frames_fed < u64::MAX,
            old(self).channels@[ch as int].coef_net.frames_fed < u64::MAX,
        ensures
            final(self).wf(),
            final(self).channels@.len() == old(self).channels@.len(),
            final(self).n_freq == old(self).n_freq,
            final(self).nb_df == old(self).nb_df,
            final(self).nb_erb == old(self).nb_erb,
            final(self).df_order == old(self).df_order,
            final(self).hop_size == old(self).hop_size,
            forall|i: int|
                0 <= i < old(self).channels@.len() && i != ch ==> final(self).channels@[i] == old(
                    self,
                ).channels@[i],
            match event {
                FrameEvent::Short => {
                    &&& r == Ok::<Option<Vec<Complex>>, DfError>(None)
                    &&& final(self).channels@[ch as int].done
                    &&& !final(self).channels@[ch as int].aborted
                    &&& final(self).channels@[ch as int].buf == old(self).channels@[ch as int].buf
                    &&& final(self).channels@[ch as int].enc == old(self).channels@[ch as int].enc
                    &&& final(self).channels@[ch as int].dec == old(self).channels@[ch as int].dec
                    &&& final(self).channels@[ch as int].coef_net == old(self).channels@[
                    ch as int].coef_net
                    &&& final(self).phase == (if final(self).all_done() {
                        Phase::Finished
                    } else {
                        old(self).phase
                    })
                },
                FrameEvent::Frame(data) => {
                    if old(self).frame_data_ok(data) {
                        &&& r matches Ok(Some(out)) && channel_output_ok(
                            old(self).nb_df as int,
                            data.spectrum@,
                            rows(data.coefs@),
                            final(self).channels@[ch as int].buf.lags(),
                            data.mask@,
                            out@,
                        )
                        &&& final(self).channels@[ch as int].buf.lags() == seq![
                            data.spectrum@.take(old(self).nb_df as int),
                        ] + old(self).channels@[ch as int].buf.lags().drop_last()
                        &&& !final(self).channels@[ch as int].done
                        &&& !final(self).channels@[ch as int].aborted
                        &&& final(self).channels@[ch as int].enc.frames_fed == old(
                            self,
                        ).channels@[ch as int].enc.frames_fed + 1
                        &&& final(self).channels@[ch as int].dec.frames_fed == old(
                            self,
                        ).channels@[ch as int].dec.frames_fed + 1
                        &&& final(self).channels@[ch as int].coef_net.frames_fed == old(
                            self,
                        ).channels@[ch as int].coef_net.frames_fed + 1
                        &&& final(self).phase == Phase::Streaming
                    } else {
                        &&& r == Err::<Option<Vec<Complex>>, DfError>(DfError::FrameShapeMismatch)
                        &&& final(self).channels@[ch as int].aborted
                        &&& final(self).channels@[ch as int].buf == old(self).channels@[
                        ch as int].buf
                        &&& final(self).phase == Phase::Failed
                    }
                },
            },
    {
        match event {
            FrameEvent::Short => {
                let c = &mut self.channels[ch];
                c.done = true;
                let n = self.channels.len();
                let mut all = true;
                let mut i: usize = 0;
                while i < n
                    invariant
                        i <= n == self.channels@.len(),
                        all == (forall|j: int| 0 <= j < i ==> (#[trigger] self.channels@[j]).done),
                    decreases n - i,
                {
                    if !self.channels[i].done {
                        all = false;
                    }
                    i = i + 1;
                }
                if all {
                    self.phase = Phase::Finished;
                }
                Ok(None)
            },
            FrameEvent::Frame(data) => {
                if !self.check_frame(&data) {
                    let c = &mut self.channels[ch];
                    c.aborted = true;
                    self.phase = Phase::Failed;
                    return Err(DfError::FrameShapeMismatch);
                }
                let nb_df = self.nb_df;
                let n_freq = self.n_freq;
                let mut low: Vec<Complex> = Vec::new();
                proof {
                    assert(low@ =~= data.spectrum@.take(0));
                }
                let mut f: usize = 0;
                while f < nb_df
                    invariant
                        f <= nb_df <= data.spectrum@.len(),
                        low@ == data.spectrum@.take(f as int),
                        frame_in(data.spectrum@, SAMPLE_LIMIT as int),
                    decreases nb_df - f,
                {
                    low.push(data.spectrum[f]);
                    f = f + 1;
                    proof {
                        assert(low@ =~= data.spectrum@.take(f as int));
                    }
                }
                proof {
                    assert(frame_in(low@, SAMPLE_LIMIT as int));
                }
                let c = &mut self.channels[ch];
                c.enc.note_frame();
                c.dec.note_frame();
                c.coef_net.note_frame();
                c.buf.push(low);
                let mut out = deep_filter(&data.coefs, &c.buf);
                let ghost new_lags = c.buf.lags();
                let mut f: usize = nb_df;
                while f < n_freq
                    invariant
                        nb_df <= f <= n_freq == data.spectrum@.len(),
                        out@.len() == f,
                        frame_in(data.spectrum@, SAMPLE_LIMIT as int),
                        forall|j: int|
                            0 <= j < nb_df ==> (#[trigger] out@[j]).re == filtered_re(
                                rows(data.coefs@),
                                new_lags,
                                j,
                            ) && out@[j].im == filtered_im(rows(data.coefs@), new_lags, j),
                        forall|j: int| nb_df <= j < f ==> #[trigger] out@[j] == data.spectrum@[j],
                        frame_in(out@, crate::num::FILTERED_LIMIT as int),
                    decreases n_freq - f,
                {
                    out.push(data.spectrum[f]);
                    f = f + 1;
                    proof {
                        assert(crate::num::cpx_in(
                            data.spectrum@[f - 1],
                            crate::num::FILTERED_LIMIT as int,
                        ));
                    }
                }
                apply_mask(&mut out, &data.mask);
                self.phase = Phase::Streaming;
                Ok(Some(out))
            },
        }
    }
}

/// Frame-level mask law, never amplifying: in any output that meets the
/// per-frame contract, a covered bin whose gain is at most 1.0 (fixed point:
/// `GAIN_ONE`) never exceeds in magnitude the value it scales — the
/// deep-filtered bin below `nb_df`, the raw spectrum bin above.
pub proof fn lemma_frame_mask_never_amplifies(
    nb_df: int,
    spectrum: Seq<Complex>,
    coefs: Seq<Seq<Complex>>,
    lags: Seq<Seq<Complex>>,
    mask: Seq<i64>,
    out: Seq<Complex>,
    f: int,
)
    requires
        channel_output_ok(nb_df, spectrum, coefs, lags, mask, out),
        0 <= f < out.len(),
        f < mask.len(),
        0 <= mask[f] <= GAIN_ONE,
    ensures
        mag_sq(out[f]) <= mag_sq_parts(
            pre_mask_re(spectrum, coefs, lags, nb_df, f),
            pre_mask_im(spectrum, coefs, lags, nb_df, f),
        ),
{
    crate::filter::lemma_scaled_pair_never_amplifies(
        mask[f] as int,
        pre_mask_re(spectrum, coefs, lags, nb_df, f),
        pre_mask_im(spectrum, coefs, lags, nb_df, f),
    );
}

/// Frame-level mask law, identity: in any output that meets the per-frame
/// contract, a covered bin whose gain is exactly 1.0 carries the
/// deep-filtered (below `nb_df`) or raw (above) value unchanged, and a bin
/// whose gain is 0 is silent.
pub proof fn lemma_frame_unit_and_zero_mask(
    nb_df: int,
    spectrum: Seq<Complex>,
    coefs: Seq<Seq<Complex>>,
    lags: Seq<Seq<Complex>>,
    mask: Seq<i64>,
    out: Seq<Complex>,
    f: int,
)
    requires
        channel_output_ok(nb_df, spectrum, coefs, lags, mask, out),
        0 <= f < out.len(),
        f < mask.len(),
    ensures
        mask[f] == GAIN_ONE ==> out[f].re == pre_mask_re(spectrum, coefs, lags, nb_df, f)
            && out[f].im == pre_mask_im(spectrum, coefs, lags, nb_df, f),
        mask[f] == 0 ==> out[f] == Complex::spec_zero(),
{
    if mask[f] == GAIN_ONE {
        lemma_scaled_one(pre_mask_re(spectrum, coefs, lags, nb_df, f));
        lemma_scaled_one(pre_mask_im(spectrum, coefs, lags, nb_df, f));
    }
    if mask[f] == 0 {
        lemma_scaled_zero(pre_mask_re(spectrum, coefs, lags, nb_df, f));
        lemma_scaled_zero(pre_mask_im(spectrum, coefs, lags, nb_df, f));
    }
}

/// Channel independence law: one frame's output is a function of the
/// channel's own advanced history and that frame's data alone, so running a
/// channel alone produces exactly the output it produces beside any other
/// channels. Two outputs that both satisfy the per-frame contract on the
/// same history and data are equal, bit for bit.
pub proof fn lemma_channel_independence(
    nb_df: int,
    spectrum: Seq<Complex>,
    coefs: Seq<Seq<Complex>>,
    lags: Seq<Seq<Complex>>,
    mask: Seq<i64>,
    out1: Seq<Complex>,
    out2: Seq<Complex>,
)
    requires
        channel_output_ok(nb_df, spectrum, coefs, lags, mask, out1),
        channel_output_ok(nb_df, spectrum, coefs, lags, mask, out2),
    ensures
        out1 == out2,
{
    assert forall|f: int| 0 <= f < out1.len() implies out1[f] == out2[f] by {
        assert(out1[f].re == out2[f].re);
        assert(out1[f].im == out2[f].im);
    }
    assert(out1 =~= out2);
}

} // verus!
