use df_stream::config::{parse_usize, ConfigSection, DfConfig};
use df_stream::errors::DfErrorKind;
use df_stream::num::{Complex, GAIN_ONE};
use df_stream::pipeline::{FrameData, FrameEvent, Phase, Pipeline};
use df_stream::stage::{
    coef_stage_spec, decoder_spec, delay_stage_spec, encoder_spec, filter_stage_spec,
    ConversionReport, Dim, StageMode, StageRuntime,
};

fn section(pairs: &[(&str, &str)]) -> ConfigSection {
    let mut s = ConfigSection::empty();
    for &(k, v) in pairs {
        s.insert(k.to_owned(), v.to_owned());
    }
    s
}

fn net_section() -> ConfigSection {
    section(&[
        ("df_order", "2"),
        ("emb_hidden_dim", "8"),
        ("df_hidden_dim", "8"),
        ("df_num_layers", "2"),
        ("conv_ch", "2"),
        ("conv_width_factor", "2"),
        ("gru_groups", "1"),
    ])
}

fn df_section() -> ConfigSection {
    section(&[
        ("sr", "48000"),
        ("hop_size", "2"),
        ("fft_size", "4"),
        ("min_nb_erb_freqs", "1"),
        ("nb_erb", "3"),
        ("nb_df", "2"),
        ("norm_alpha", "0.99"),
    ])
}

fn config() -> DfConfig {
    DfConfig::from_sections(&net_section(), &df_section()).unwrap()
}

fn ok_report(delay: usize) -> ConversionReport {
    ConversionReport {
        constant_port_found: true,
        missing_port: None,
        shapes_ok: true,
        discovered_delay: Some(delay),
    }
}

fn frame(vals: &[(i64, i64)]) -> Vec<Complex> {
    let mut f = Vec::new();
    for &(re, im) in vals {
        f.push(Complex { re, im });
    }
    f
}

fn identity_frame_data(spectrum: Vec<Complex>) -> FrameData {
    let coefs = vec![
        vec![Complex { re: GAIN_ONE, im: 0 }, Complex { re: GAIN_ONE, im: 0 }],
        vec![Complex { re: 0, im: 0 }, Complex { re: 0, im: 0 }],
    ];
    FrameData { spectrum, coefs, mask: vec![GAIN_ONE; 3] }
}

#[test]
fn parse_usize_accepts_digit_strings() {
    assert_eq!(parse_usize("48000"), Some(48000));
    assert_eq!(parse_usize("007"), Some(7));
    assert_eq!(parse_usize("0"), Some(0));
}

#[test]
fn parse_usize_rejects_bad_strings() {
    assert_eq!(parse_usize(""), None);
    assert_eq!(parse_usize("12a"), None);
    assert_eq!(parse_usize("-3"), None);
    assert_eq!(parse_usize("99999999999999999999999999"), None);
}

#[test]
fn config_binds_every_key() {
    let cfg = config();
    assert_eq!(cfg.sr, 48000);
    assert_eq!(cfg.hop_size, 2);
    assert_eq!(cfg.fft_size, 4);
    assert_eq!(cfg.min_nb_erb_freqs, 1);
    assert_eq!(cfg.nb_erb, 3);
    assert_eq!(cfg.nb_df, 2);
    assert_eq!(cfg.df_order, 2);
    assert_eq!(cfg.emb_hidden_dim, 8);
    assert_eq!(cfg.df_hidden_dim, 8);
    assert_eq!(cfg.df_num_layers, 2);
    assert_eq!(cfg.conv_ch, 2);
    assert_eq!(cfg.conv_width_factor, 2);
    assert_eq!(cfg.gru_groups, 1);
    assert_eq!(cfg.n_freq(), 3);
}

#[test]
fn smoothing_factor_is_kept_verbatim() {
    let cfg = config();
    assert_eq!(cfg.norm_alpha.as_str(), "0.99");
}

#[test]
fn missing_smoothing_factor_fails_construction() {
    let df = section(&[
        ("sr", "48000"),
        ("hop_size", "2"),
        ("fft_size", "4"),
        ("min_nb_erb_freqs", "1"),
        ("nb_erb", "3"),
        ("nb_df", "2"),
    ]);
    let err = DfConfig::from_sections(&net_section(), &df).unwrap_err();
    assert_eq!(err.kind(), DfErrorKind::ConfigError);
    assert_eq!(err.name().unwrap().as_str(), "norm_alpha");
}

#[test]
fn ini_text_binds_whole_configuration() {
    let text = "[deepfilternet]\ndf_order = 2\nemb_hidden_dim = 8\ndf_hidden_dim = 8\n\
                df_num_layers = 2\nconv_ch = 2\nconv_width_factor = 2\ngru_groups = 1\n\
                [df]\nsr = 48000\nhop_size = 2\nfft_size = 4\nmin_nb_erb_freqs = 1\n\
                nb_erb = 3\nnb_df = 2\nnorm_alpha = 0.99\n";
    let cfg = DfConfig::from_ini_text(text).unwrap();
    assert_eq!(cfg.sr, 48000);
    assert_eq!(cfg.fft_size, 4);
    assert_eq!(cfg.df_order, 2);
    assert_eq!(cfg.norm_alpha.as_str(), "0.99");
}

#[test]
fn ini_text_without_df_section_fails() {
    let text = "[deepfilternet]\ndf_order = 2\n";
    let err = DfConfig::from_ini_text(text).unwrap_err();
    assert_eq!(err.kind(), DfErrorKind::ConfigError);
    assert_eq!(err.name().unwrap().as_str(), "df");
}

#[test]
fn ini_text_with_missing_key_names_it() {
    let text = "[deepfilternet]\ndf_order = 2\nemb_hidden_dim = 8\ndf_hidden_dim = 8\n\
                df_num_layers = 2\nconv_ch = 2\nconv_width_factor = 2\ngru_groups = 1\n\
                [df]\nsr = 48000\nhop_size = 2\nmin_nb_erb_freqs = 1\n\
                nb_erb = 3\nnb_df = 2\nnorm_alpha = 0.99\n";
    let err = DfConfig::from_ini_text(text).unwrap_err();
    assert_eq!(err.kind(), DfErrorKind::ConfigError);
    assert_eq!(err.name().unwrap().as_str(), "fft_size");
}

#[test]
fn config_first_binding_wins() {
    let mut df = df_section();
    df.insert("sr".to_owned(), "1".to_owned());
    let cfg = DfConfig::from_sections(&net_section(), &df).unwrap();
    assert_eq!(cfg.sr, 48000);
}

#[test]
fn missing_fft_size_fails_construction() {
    // Construction with a configuration missing fft_size must fail with
    // ConfigError and bind nothing.
    let df = section(&[
        ("sr", "48000"),
        ("hop_size", "2"),
        ("min_nb_erb_freqs", "1"),
        ("nb_erb", "3"),
        ("nb_df", "2"),
        ("norm_alpha", "0.99"),
    ]);
    let err = DfConfig::from_sections(&net_section(), &df).unwrap_err();
    assert_eq!(err.kind(), DfErrorKind::ConfigError);
    assert_eq!(err.name().unwrap().as_str(), "fft_size");
}

#[test]
fn unparsable_key_fails_construction() {
    let mut df = section(&[
        ("sr", "48000"),
        ("hop_size", "2"),
        ("min_nb_erb_freqs", "1"),
        ("nb_erb", "3"),
        ("nb_df", "2"),
        ("norm_alpha", "0.99"),
    ]);
    df.insert("fft_size".to_owned(), "96O".to_owned());
    let err = DfConfig::from_sections(&net_section(), &df).unwrap_err();
    assert_eq!(err.kind(), DfErrorKind::ConfigError);
    assert_eq!(err.name().unwrap().as_str(), "fft_size");
}

#[test]
fn stage_specs_bind_configured_shapes() {
    let cfg = config();
    let enc = encoder_spec(&cfg);
    assert_eq!(enc.name, "encoder");
    assert_eq!(enc.inputs[0].name, "feat_erb");
    assert_eq!(
        enc.inputs[0].dims,
        vec![Dim::Fixed(1), Dim::Fixed(1), Dim::Stream, Dim::Fixed(3)]
    );
    assert_eq!(enc.inputs[1].name, "feat_spec");
    assert_eq!(
        enc.inputs[1].dims,
        vec![Dim::Fixed(1), Dim::Fixed(2), Dim::Stream, Dim::Fixed(2)]
    );
    assert_eq!(enc.outputs, vec!["e0", "e1", "e2", "e3", "emb", "c0", "lsnr"]);
    assert_eq!(enc.constant_ports[0].name, "h0emb");
    assert_eq!(
        enc.constant_ports[0].dims,
        vec![Dim::Fixed(1), Dim::Fixed(1), Dim::Fixed(8)]
    );
    assert_eq!(enc.mode, StageMode::Streaming);

    let dec = decoder_spec(&cfg);
    assert_eq!(dec.name, "decoder");
    // conv_ch * wf^2 = 8 channels, nb_erb / 4 = 0 bands at this tiny size.
    assert_eq!(
        dec.inputs[1].dims,
        vec![Dim::Fixed(1), Dim::Fixed(8), Dim::Fixed(1), Dim::Fixed(0)]
    );
    assert_eq!(dec.outputs, vec!["m"]);
    assert_eq!(dec.mode, StageMode::Stateless);
    assert!(dec.constant_ports.is_empty());

    let coef = coef_stage_spec(&cfg);
    assert_eq!(coef.name, "coef_stage");
    assert_eq!(coef.outputs, vec!["coefs", "alpha"]);
    assert_eq!(coef.constant_ports[0].name, "hdf");
    assert_eq!(
        coef.constant_ports[0].dims,
        vec![Dim::Fixed(2), Dim::Fixed(1), Dim::Fixed(8)]
    );

    let delay = delay_stage_spec(&cfg);
    assert_eq!(delay.name, "delay_stage");
    assert_eq!(
        delay.inputs[0].dims,
        vec![Dim::Stream, Dim::Fixed(3), Dim::Fixed(2)]
    );

    let filt = filter_stage_spec(&cfg);
    assert_eq!(filt.name, "filter_stage");
    assert_eq!(
        filt.inputs[3].dims,
        vec![Dim::Fixed(2), Dim::Fixed(3), Dim::Fixed(2)]
    );
    assert_eq!(filt.outputs, vec!["spec_f", "spec_buf"]);
    assert_eq!(filt.mode, StageMode::Stateless);
}

#[test]
fn conversion_discovers_delay() {
    let cfg = config();
    let rt = StageRuntime::from_report(&encoder_spec(&cfg), &ok_report(5)).unwrap();
    assert_eq!(rt.mode, StageMode::Streaming);
    assert_eq!(rt.delay, 5);
    assert_eq!(rt.frames_fed, 0);
}

#[test]
fn missing_declared_port_is_fatal() {
    let cfg = config();
    let mut report = ok_report(0);
    report.missing_port = Some("emb".to_owned());
    let err = StageRuntime::from_report(&encoder_spec(&cfg), &report).unwrap_err();
    assert_eq!(err.kind(), DfErrorKind::PortNotFound);
    assert_eq!(err.name().unwrap().as_str(), "emb");
}

#[test]
fn missing_constant_port_is_tolerated() {
    let cfg = config();
    let mut report = ok_report(1);
    report.constant_port_found = false;
    let rt = StageRuntime::from_report(&encoder_spec(&cfg), &report).unwrap();
    assert_eq!(rt.delay, 1);
}

#[test]
fn failed_inference_is_fatal() {
    let cfg = config();
    let mut report = ok_report(0);
    report.shapes_ok = false;
    let err = StageRuntime::from_report(&encoder_spec(&cfg), &report).unwrap_err();
    assert_eq!(err.kind(), DfErrorKind::ShapeInference);
    assert_eq!(err.name().unwrap().as_str(), "encoder");
}

#[test]
fn failed_streaming_conversion_is_fatal() {
    let cfg = config();
    let mut report = ok_report(0);
    report.discovered_delay = None;
    let err = StageRuntime::from_report(&encoder_spec(&cfg), &report).unwrap_err();
    assert_eq!(err.kind(), DfErrorKind::StreamConversion);
    assert_eq!(err.name().unwrap().as_str(), "encoder");
}

#[test]
fn stateless_stage_skips_conversion() {
    let cfg = config();
    let mut report = ok_report(0);
    report.discovered_delay = None;
    let rt = StageRuntime::from_report(&decoder_spec(&cfg), &report).unwrap();
    assert_eq!(rt.mode, StageMode::Stateless);
    assert_eq!(rt.delay, 0);
}

#[test]
fn stage_outputs_become_valid_after_delay() {
    let cfg = config();
    let mut rt = StageRuntime::from_report(&encoder_spec(&cfg), &ok_report(1)).unwrap();
    assert!(!rt.output_valid());
    rt.note_frame();
    assert!(!rt.output_valid());
    rt.note_frame();
    assert!(rt.output_valid());
}

#[test]
fn build_starts_ready() {
    let cfg = config();
    let p = Pipeline::build(&cfg, &ok_report(2), &ok_report(0), &ok_report(1), 2).unwrap();
    assert_eq!(p.phase, Phase::Ready);
    assert_eq!(p.channels.len(), 2);
    assert_eq!(p.n_freq, 3);
    assert_eq!(p.channels[0].enc.delay, 2);
    assert_eq!(p.channels[0].dec.delay, 0);
    assert_eq!(p.channels[0].coef_net.delay, 1);
    assert_eq!(p.reported_delay(0), 2);
}

#[test]
fn build_fails_on_failed_stage() {
    let cfg = config();
    let mut bad = ok_report(0);
    bad.missing_port = Some("feat_erb".to_owned());
    let err = Pipeline::build(&cfg, &bad, &ok_report(0), &ok_report(1), 1).unwrap_err();
    assert_eq!(err.kind(), DfErrorKind::PortNotFound);
}

#[test]
fn build_fails_on_unusable_dimensions() {
    let net = net_section();
    let df = section(&[
        ("sr", "48000"),
        ("hop_size", "2"),
        ("fft_size", "4"),
        ("min_nb_erb_freqs", "1"),
        ("nb_erb", "3"),
        ("nb_df", "9"),
        ("norm_alpha", "0.99"),
    ]);
    let cfg = DfConfig::from_sections(&net, &df).unwrap();
    let err = Pipeline::build(&cfg, &ok_report(2), &ok_report(0), &ok_report(1), 1).unwrap_err();
    assert_eq!(err.kind(), DfErrorKind::ConfigError);
    assert_eq!(err.name().unwrap().as_str(), "nb_df");
}

#[test]
fn silence_and_tone_stream_end_to_end() {
    // Two channels: channel 0 pure silence, channel 1 a fixed tone. With the
    // identity coefficients and an all-ones mask the enhanced output must
    // reconstruct silence and the tone exactly.
    let cfg = config();
    let mut p = Pipeline::build(&cfg, &ok_report(0), &ok_report(0), &ok_report(0), 2).unwrap();
    let silence = frame(&[(0, 0), (0, 0), (0, 0)]);
    let tone = frame(&[(1000, 0), (500, -500), (250, 125)]);
    for _ in 0..3 {
        let out0 = p
            .process_frame(0, FrameEvent::Frame(identity_frame_data(silence.clone())))
            .unwrap()
            .unwrap();
        assert_eq!(out0, silence);
        let out1 = p
            .process_frame(1, FrameEvent::Frame(identity_frame_data(tone.clone())))
            .unwrap()
            .unwrap();
        assert_eq!(out1, tone);
        assert_eq!(p.phase, Phase::Streaming);
    }
    assert_eq!(p.channels[1].enc.frames_fed, 3);
    assert_eq!(p.channels[1].coef_net.frames_fed, 3);
    assert!(p.process_frame(0, FrameEvent::Short).unwrap().is_none());
    assert_eq!(p.phase, Phase::Streaming);
    assert!(p.process_frame(1, FrameEvent::Short).unwrap().is_none());
    assert_eq!(p.phase, Phase::Finished);
}

#[test]
fn channel_runs_identically_alone_or_beside_others() {
    // Channel independence: running the tone channel alone produces
    // bit-identical output to running it beside the silence channel and
    // discarding the silence channel's output.
    let cfg = config();
    let mut alone = Pipeline::build(&cfg, &ok_report(0), &ok_report(0), &ok_report(0), 1).unwrap();
    let mut both = Pipeline::build(&cfg, &ok_report(0), &ok_report(0), &ok_report(0), 2).unwrap();
    let silence = frame(&[(0, 0), (0, 0), (0, 0)]);
    let tones = [
        frame(&[(1000, 0), (500, -500), (250, 125)]),
        frame(&[(-30, 60), (90, -120), (150, -180)]),
        frame(&[(7, 7), (8, 8), (9, 9)]),
    ];
    for tone in &tones {
        let solo = alone
            .process_frame(0, FrameEvent::Frame(identity_frame_data(tone.clone())))
            .unwrap()
            .unwrap();
        let _ = both
            .process_frame(0, FrameEvent::Frame(identity_frame_data(silence.clone())))
            .unwrap()
            .unwrap();
        let beside = both
            .process_frame(1, FrameEvent::Frame(identity_frame_data(tone.clone())))
            .unwrap()
            .unwrap();
        assert_eq!(solo, beside);
    }
}

#[test]
fn frame_shape_mismatch_aborts_channel() {
    let cfg = config();
    let mut p = Pipeline::build(&cfg, &ok_report(0), &ok_report(0), &ok_report(0), 2).unwrap();
    // Wrong spectrum length: 2 bins instead of 3.
    let bad = identity_frame_data(frame(&[(1, 1), (2, 2)]));
    let err = p.process_frame(0, FrameEvent::Frame(bad)).unwrap_err();
    assert_eq!(err.kind(), DfErrorKind::FrameShapeMismatch);
    assert_eq!(p.phase, Phase::Failed);
    assert!(p.channels[0].aborted);
    assert!(!p.channels[1].aborted);
}

#[test]
fn short_frame_decision_uses_hop_size() {
    let cfg = config();
    let p = Pipeline::build(&cfg, &ok_report(0), &ok_report(0), &ok_report(0), 1).unwrap();
    assert!(p.frame_fits(2));
    assert!(!p.frame_fits(1));
}
