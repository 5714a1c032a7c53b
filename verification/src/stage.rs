//! Stage shape binding and streaming conversion bookkeeping.
//!
//! A `StageSpec` declares, for one network stage, the named input ports with
//! their shape templates (exactly one dimension left streaming for stages
//! converted to frame-incremental form), the canonical output port names the
//! orchestrator hard-codes, and the recurrent-state ports to freeze to zero
//! before conversion. The external graph facility binds, renames, infers and
//! converts; what it found comes back as a `ConversionReport`, from which
//! [`StageRuntime::from_report`] decides — exactly as construction must —
//! whether the stage starts, with which variant and which discovered delay,
//! or which fatal error aborts the whole pipeline.

use vstd::prelude::*;

verus! {

use crate::config::DfConfig;
use crate::errors::DfError;

/// One dimension of a shape template.
#[derive(Clone, Copy, PartialEq, Eq, Structural, Debug)]
pub enum Dim {
    /// A concrete size, pulled from the configuration.
    Fixed(usize),
    /// The unbounded streaming (time) dimension.
    Stream,
}

/// A named input port with its shape template.
pub struct PortSpec {
    pub name: &'static str,
    pub dims: Vec<Dim>,
}

/// How a stage executes after conversion: the tagged union chosen at
/// construction time.
#[derive(Clone, Copy, PartialEq, Eq, Structural, Debug)]
pub enum StageMode {
    /// Frame-incremental with internally-threaded state and a discovered
    /// output delay.
    Streaming,
    /// Re-executed per call on a fixed-size window; stateless and delay 0
    /// (for graphs whose operators do not convert, such as
    /// fractionally-strided convolutions).
    Stateless,
}

/// The declaration of one computation stage.
pub struct StageSpec {
    /// The stage's name, carried into its errors.
    pub name: &'static str,
    /// Declared input ports, in binding order.
    pub inputs: Vec<PortSpec>,
    /// Canonical output port names, in binding order.
    pub outputs: Vec<&'static str>,
    /// Recurrent-state ports to freeze to a zero constant of the given
    /// shape; a graph without them is tolerated.
    pub constant_ports: Vec<PortSpec>,
    /// The conversion variant this stage is built for.
    pub mode: StageMode,
}

fn dims1(a: Dim) -> (r: Vec<Dim>)
    ensures
        r@ == seq![a],
{
    let mut r: Vec<Dim> = Vec::new();
    r.push(a);
    proof {
        assert(r@ =~= seq![a]);
    }
    r
}

fn dims2(a: Dim, b: Dim) -> (r: Vec<Dim>)
    ensures
        r@ == seq![a, b],
{
    let mut r: Vec<Dim> = Vec::new();
    r.push(a);
    r.push(b);
    proof {
        assert(r@ =~= seq![a, b]);
    }
    r
}

fn dims3(a: Dim, b: Dim, c: Dim) -> (r: Vec<Dim>)
    ensures
        r@ == seq![a, b, c],
{
    let mut r: Vec<Dim> = Vec::new();
    r.push(a);
    r.push(b);
    r.push(c);
    proof {
        assert(r@ =~= seq![a, b, c]);
    }
    r
}

fn dims4(a: Dim, b: Dim, c: Dim, d: Dim) -> (r: Vec<Dim>)
    ensures
        r@ == seq![a, b, c, d],
{
    let mut r: Vec<Dim> = Vec::new();
    r.push(a);
    r.push(b);
    r.push(c);
    r.push(d);
    proof {
        assert(r@ =~= seq![a, b, c, d]);
    }
    r
}

/// The encoder stage: ERB and low-band complex features in, embedding, four
/// skip tensors, the coefficient-net input and the signal-to-noise estimate
/// out; its embedding recurrence state is frozen for conversion.
pub fn encoder_spec(cfg: &DfConfig) -> (s: StageSpec)
    requires
        cfg.gru_groups >= 1,
    ensures
        s.name@ == "encoder"@,
        s.inputs@.len() == 2,
        s.inputs@[0].name@ == "feat_erb"@,
        s.inputs@[0].dims@ == seq![
            Dim::Fixed(1),
            Dim::Fixed(1),
            Dim::Stream,
            Dim::Fixed(cfg.nb_erb),
        ],
        s.inputs@[1].name@ == "feat_spec"@,
        s.inputs@[1].dims@ == seq![
            Dim::Fixed(1),
            Dim::Fixed(2),
            Dim::Stream,
            Dim::Fixed(cfg.nb_df),
        ],
        s.outputs@.len() == 7,
        s.outputs@[0]@ == "e0"@,
        s.outputs@[1]@ == "e1"@,
        s.outputs@[2]@ == "e2"@,
        s.outputs@[3]@ == "e3"@,
        s.outputs@[4]@ == "emb"@,
        s.outputs@[5]@ == "c0"@,
        s.outputs@[6]@ == "lsnr"@,
        s.constant_ports@.len() == 1,
        s.constant_ports@[0].name@ == "h0emb"@,
        s.constant_ports@[0].dims@ == seq![
            Dim::Fixed(1),
            Dim::Fixed(1),
            Dim::Fixed((cfg.emb_hidden_dim / cfg.gru_groups) as usize),
        ],
        s.mode == StageMode::Streaming,
{
    let mut inputs: Vec<PortSpec> = Vec::new();
    inputs.push(
        PortSpec {
            name: "feat_erb",
            dims: dims4(Dim::Fixed(1), Dim::Fixed(1), Dim::Stream, Dim::Fixed(cfg.nb_erb)),
        },
    );
    inputs.push(
        PortSpec {
            name: "feat_spec",
            dims: dims4(Dim::Fixed(1), Dim::Fixed(2), Dim::Stream, Dim::Fixed(cfg.nb_df)),
        },
    );
    let mut outputs: Vec<&'static str> = Vec::new();
    outputs.push("e0");
    outputs.push("e1");
    outputs.push("e2");
    outputs.push("e3");
    outputs.push("emb");
    outputs.push("c0");
    outputs.push("lsnr");
    let mut constant_ports: Vec<PortSpec> = Vec::new();
    constant_ports.push(
        PortSpec {
            name: "h0emb",
            dims: dims3(
                Dim::Fixed(1),
                Dim::Fixed(1),
                Dim::Fixed(cfg.emb_hidden_dim / cfg.gru_groups),
            ),
        },
    );
    StageSpec { name: "encoder", inputs, outputs, constant_ports, mode: StageMode::Streaming }
}

/// The decoder stage: embedding plus the four skip tensors in, the ERB mask
/// out. Its fractionally-strided convolutions do not convert, so it runs
/// stateless on a fixed one-frame window.
pub fn decoder_spec(cfg: &DfConfig) -> (s: StageSpec)
    requires
        cfg.conv_ch * cfg.conv_width_factor * cfg.conv_width_factor <= usize::MAX,
    ensures
        s.name@ == "decoder"@,
        s.inputs@.len() == 5,
        s.inputs@[0].name@ == "emb"@,
        s.inputs@[0].dims@ == seq![Dim::Fixed(1), Dim::Fixed(1), Dim::Fixed(cfg.emb_hidden_dim)],
        s.inputs@[1].name@ == "e3"@,
        s.inputs@[1].dims@ == seq![
            Dim::Fixed(1),
            Dim::Fixed((cfg.conv_ch * cfg.conv_width_factor * cfg.conv_width_factor) as usize),
            Dim::Fixed(1),
            Dim::Fixed((cfg.nb_erb / 4) as usize),
        ],
        s.inputs@[2].name@ == "e2"@,
        s.inputs@[2].dims@ == s.inputs@[1].dims@,
        s.inputs@[3].name@ == "e1"@,
        s.inputs@[3].dims@ == seq![
            Dim::Fixed(1),
            Dim::Fixed((cfg.conv_ch * cfg.conv_width_factor) as usize),
            Dim::Fixed(1),
            Dim::Fixed((cfg.nb_erb / 2) as usize),
        ],
        s.inputs@[4].name@ == "e0"@,
        s.inputs@[4].dims@ == seq![
            Dim::Fixed(1),
            Dim::Fixed(cfg.conv_ch),
            Dim::Fixed(1),
            Dim::Fixed(cfg.nb_erb),
        ],
        s.outputs@.len() == 1,
        s.outputs@[0]@ == "m"@,
        s.constant_ports@.len() == 0,
        s.mode == StageMode::Stateless,
{
    proof {
        assert(cfg.conv_ch * cfg.conv_width_factor <= usize::MAX) by (nonlinear_arith)
            requires
                cfg.conv_ch * cfg.conv_width_factor * cfg.conv_width_factor <= usize::MAX,
                cfg.conv_ch >= 0,
                cfg.conv_width_factor >= 0,
        ;
    }
    let e1ch = cfg.conv_ch * cfg.conv_width_factor;
    let e3ch = e1ch * cfg.conv_width_factor;
    let e3f = cfg.nb_erb / 4;
    let e1f = cfg.nb_erb / 2;
    let mut inputs: Vec<PortSpec> = Vec::new();
    inputs.push(
        PortSpec {
            name: "emb",
            dims: dims3(Dim::Fixed(1), Dim::Fixed(1), Dim::Fixed(cfg.emb_hidden_dim)),
        },
    );
    inputs.push(
        PortSpec {
            name: "e3",
            dims: dims4(Dim::Fixed(1), Dim::Fixed(e3ch), Dim::Fixed(1), Dim::Fixed(e3f)),
        },
    );
    inputs.push(
        PortSpec {
            name: "e2",
            dims: dims4(Dim::Fixed(1), Dim::Fixed(e3ch), Dim::Fixed(1), Dim::Fixed(e3f)),
        },
    );
    inputs.push(
        PortSpec {
            name: "e1",
            dims: dims4(Dim::Fixed(1), Dim::Fixed(e1ch), Dim::Fixed(1), Dim::Fixed(e1f)),
        },
    );
    inputs.push(
        PortSpec {
            name: "e0",
            dims: dims4(Dim::Fixed(1), Dim::Fixed(cfg.conv_ch), Dim::Fixed(1), Dim::Fixed(
                cfg.nb_erb,
            )),
        },
    );
    let mut outputs: Vec<&'static str> = Vec::new();
    outputs.push("m");
    StageSpec {
        name: "decoder",
        inputs,
        outputs,
        constant_ports: Vec::new(),
        mode: StageMode::Stateless,
    }
}

/// The deep-filter-coefficient stage: embedding and the low-band input in,
/// complex coefficients and the blend weight out; its recurrence state is
/// frozen for conversion.
pub fn coef_stage_spec(cfg: &DfConfig) -> (s: StageSpec)
    requires
        cfg.gru_groups >= 1,
    ensures
        s.name@ == "coef_stage"@,
        s.inputs@.len() == 2,
        s.inputs@[0].name@ == "emb"@,
        s.inputs@[0].dims@ == seq![Dim::Fixed(1), Dim::Stream, Dim::Fixed(cfg.emb_hidden_dim)],
        s.inputs@[1].name@ == "c0"@,
        s.inputs@[1].dims@ == seq![
            Dim::Fixed(1),
            Dim::Fixed(cfg.conv_ch),
            Dim::Stream,
            Dim::Fixed(cfg.nb_df),
        ],
        s.outputs@.len() == 2,
        s.outputs@[0]@ == "coefs"@,
        s.outputs@[1]@ == "alpha"@,
        s.constant_ports@.len() == 1,
        s.constant_ports@[0].name@ == "hdf"@,
        s.constant_ports@[0].dims@ == seq![
            Dim::Fixed(cfg.df_num_layers),
            Dim::Fixed(1),
            Dim::Fixed((cfg.df_hidden_dim / cfg.gru_groups) as usize),
        ],
        s.mode == StageMode::Streaming,
{
    let mut inputs: Vec<PortSpec> = Vec::new();
    inputs.push(
        PortSpec {
            name: "emb",
            dims: dims3(Dim::Fixed(1), Dim::Stream, Dim::Fixed(cfg.emb_hidden_dim)),
        },
    );
    inputs.push(
        PortSpec {
            name: "c0",
            dims: dims4(Dim::Fixed(1), Dim::Fixed(cfg.conv_ch), Dim::Stream, Dim::Fixed(
                cfg.nb_df,
            )),
        },
    );
    let mut outputs: Vec<&'static str> = Vec::new();
    outputs.push("coefs");
    outputs.push("alpha");
    let mut constant_ports: Vec<PortSpec> = Vec::new();
    constant_ports.push(
        PortSpec {
            name: "hdf",
            dims: dims3(Dim::Fixed(cfg.df_num_layers), Dim::Fixed(1), Dim::Fixed(
                cfg.df_hidden_dim / cfg.gru_groups,
            )),
        },
    );
    StageSpec { name: "coef_stage", inputs, outputs, constant_ports, mode: StageMode::Streaming }
}

/// The spectrum alignment stage: the full spectrum in, the same spectrum
/// delayed to stay time-aligned with the network path out.
pub fn delay_stage_spec(cfg: &DfConfig) -> (s: StageSpec)
    ensures
        s.name@ == "delay_stage"@,
        s.inputs@.len() == 1,
        s.inputs@[0].name@ == "spec"@,
        s.inputs@[0].dims@ == seq![
            Dim::Stream,
            Dim::Fixed((cfg.fft_size / 2 + 1) as usize),
            Dim::Fixed(2),
        ],
        s.outputs@.len() == 1,
        s.outputs@[0]@ == "spec_d"@,
        s.constant_ports@.len() == 0,
        s.mode == StageMode::Streaming,
{
    let n_freq = cfg.n_freq();
    let mut inputs: Vec<PortSpec> = Vec::new();
    inputs.push(
        PortSpec { name: "spec", dims: dims3(Dim::Stream, Dim::Fixed(n_freq), Dim::Fixed(2)) },
    );
    let mut outputs: Vec<&'static str> = Vec::new();
    outputs.push("spec_d");
    StageSpec {
        name: "delay_stage",
        inputs,
        outputs,
        constant_ports: Vec::new(),
        mode: StageMode::Streaming,
    }
}

/// The deep-filter application stage: current spectrum, coefficients, blend
/// weight and the history buffer in, the filtered spectrum and the advanced
/// buffer out. Fixed-size inputs each call, so it runs stateless.
pub fn filter_stage_spec(cfg: &DfConfig) -> (s: StageSpec)
    ensures
        s.name@ == "filter_stage"@,
        s.inputs@.len() == 4,
        s.inputs@[0].name@ == "spec"@,
        s.inputs@[0].dims@ == seq![Dim::Fixed((cfg.fft_size / 2 + 1) as usize), Dim::Fixed(2)],
        s.inputs@[1].name@ == "coefs"@,
        s.inputs@[1].dims@ == seq![
            Dim::Fixed(cfg.df_order),
            Dim::Fixed(cfg.nb_df),
            Dim::Fixed(2),
        ],
        s.inputs@[2].name@ == "alpha"@,
        s.inputs@[2].dims@ == seq![Dim::Fixed(1)],
        s.inputs@[3].name@ == "spec_buf_in"@,
        s.inputs@[3].dims@ == seq![
            Dim::Fixed(cfg.df_order),
            Dim::Fixed((cfg.fft_size / 2 + 1) as usize),
            Dim::Fixed(2),
        ],
        s.outputs@.len() == 2,
        s.outputs@[0]@ == "spec_f"@,
        s.outputs@[1]@ == "spec_buf"@,
        s.constant_ports@.len() == 0,
        s.mode == StageMode::Stateless,
{
    let n_freq = cfg.n_freq();
    let mut inputs: Vec<PortSpec> = Vec::new();
    inputs.push(PortSpec { name: "spec", dims: dims2(Dim::Fixed(n_freq), Dim::Fixed(2)) });
    inputs.push(
        PortSpec {
            name: "coefs",
            dims: dims3(Dim::Fixed(cfg.df_order), Dim::Fixed(cfg.nb_df), Dim::Fixed(2)),
        },
    );
    inputs.push(PortSpec { name: "alpha", dims: dims1(Dim::Fixed(1)) });
    inputs.push(
        PortSpec {
            name: "spec_buf_in",
            dims: dims3(Dim::Fixed(cfg.df_order), Dim::Fixed(n_freq), Dim::Fixed(2)),
        },
    );
    let mut outputs: Vec<&'static str> = Vec::new();
    outputs.push("spec_f");
    outputs.push("spec_buf");
    StageSpec {
        name: "filter_stage",
        inputs,
        outputs,
        constant_ports: Vec::new(),
        mode: StageMode::Stateless,
    }
}

/// What the external graph facility reports back from binding, renaming,
/// inference and streaming conversion of one stage.
pub struct ConversionReport {
    /// Whether the declared recurrent-state port existed and was frozen.
    /// Its absence is tolerated: stages without memory have no such port.
    pub constant_port_found: bool,
    /// The first declared port name the graph lacks, if any. Fatal.
    pub missing_port: Option<String>,
    /// Whether shape/type inference succeeded.
    pub shapes_ok: bool,
    /// The output delay discovered by streaming conversion, or `None` when
    /// conversion failed.
    pub discovered_delay: Option<usize>,
}

/// The error a failed stage construction carries: a missing declared port
/// first (fatal, with the port's name), then failed inference, then failed
/// conversion, the latter two naming the stage.
pub open spec fn conversion_error(name: Seq<char>, report: ConversionReport, e: DfError) -> bool {
    match report.missing_port {
        Some(p) => e == DfError::PortNotFound(p),
        None => if !report.shapes_ok {
            e matches DfError::ShapeInference(n) && n@ == name
        } else {
            e matches DfError::StreamConversion(n) && n@ == name
        },
    }
}

/// Construction succeeds exactly when no declared port is missing, shapes
/// infer, and — for a streaming stage — conversion discovered a delay.
pub open spec fn report_admits(spec_mode: StageMode, report: ConversionReport) -> bool {
    &&& report.missing_port is None
    &&& report.shapes_ok
    &&& (spec_mode is Streaming ==> report.discovered_delay is Some)
}

/// The executable form of a stage: its variant, its discovered output delay,
/// and how many frames it has been fed.
#[derive(Clone, Copy, PartialEq, Eq, Structural, Debug)]
pub struct StageRuntime {
    pub mode: StageMode,
    pub delay: usize,
    pub frames_fed: u64,
}

impl StageRuntime {
    /// Decide construction from the conversion report, exactly as the stage
    /// lifecycle demands: a missing declared port is fatal (`PortNotFound`),
    /// then failed inference (`ShapeInference`), then — for a streaming
    /// stage — failed conversion (`StreamConversion`); a stateless stage
    /// skips conversion and is delay 0. A missing recurrent-state port is
    /// tolerated and changes nothing.
    pub fn from_report(spec: &StageSpec, report: &ConversionReport) -> (r: Result<
        StageRuntime,
        DfError,
    >)
        ensures
            match r {
                Ok(rt) => {
                    &&& report_admits(spec.mode, *report)
                    &&& rt.mode == spec.mode
                    &&& (spec.mode is Streaming ==> report.discovered_delay == Some(rt.delay))
                    &&& (spec.mode is Stateless ==> rt.delay == 0)
                    &&& rt.frames_fed == 0
                },
                Err(e) => {
                    &&& !report_admits(spec.mode, *report)
                    &&& conversion_error(spec.name@, *report, e)
                },
            },
    {
        match &report.missing_port {
            Some(p) => Err(DfError::PortNotFound(p.clone())),
            None => {
                if !report.shapes_ok {
                    return Err(DfError::ShapeInference(spec.name.to_owned()));
                }
                match spec.mode {
                    StageMode::Stateless => Ok(
                        StageRuntime { mode: StageMode::Stateless, delay: 0, frames_fed: 0 },
                    ),
                    StageMode::Streaming => match report.discovered_delay {
                        Some(d) => Ok(
                            StageRuntime { mode: StageMode::Streaming, delay: d, frames_fed: 0 },
                        ),
                        None => Err(DfError::StreamConversion(spec.name.to_owned())),
                    },
                }
            },
        }
    }

    /// Record that one frame was fed.
    pub fn note_frame(&mut self)
        requires
            old(self).frames_fed < u64::MAX,
        ensures
            final(self).frames_fed == old(self).frames_fed + 1,
            final(self).mode == old(self).mode,
            final(self).delay == old(self).delay,
    {
        self.frames_fed = self.frames_fed + 1;
    }

    /// Whether the newest output is already semantically valid: outputs are
    /// valid starting `delay` frames after the first call, so the output of
    /// call `n` (counting from 0) is valid once `n >= delay`.
    pub fn output_valid(&self) -> (r: bool)
        ensures
            r == (self.frames_fed > self.delay),
    {
        self.frames_fed > self.delay as u64
    }
}

} // verus!
