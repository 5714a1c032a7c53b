use df_stream::filter::{apply_mask, deep_filter};
use df_stream::num::{Complex, GAIN_ONE};
use df_stream::ring::SpectralBuffer;

fn frame(vals: &[(i64, i64)]) -> Vec<Complex> {
    let mut f = Vec::new();
    for &(re, im) in vals {
        f.push(Complex { re, im });
    }
    f
}

fn identity_coefs(order: usize, nb_df: usize) -> Vec<Vec<Complex>> {
    let mut coefs = Vec::new();
    for k in 0..order {
        let mut row = Vec::new();
        for _ in 0..nb_df {
            if k == 0 {
                row.push(Complex { re: GAIN_ONE, im: 0 });
            } else {
                row.push(Complex { re: 0, im: 0 });
            }
        }
        coefs.push(row);
    }
    coefs
}

#[test]
fn fir_identity_reproduces_constant_input() {
    // Feed df_order frames of a constant low-band spectrum; with the
    // identity coefficient tensor (1.0 at lag 0, 0 elsewhere) the
    // deep-filtered output equals the constant input.
    let order = 3;
    let constant = frame(&[(1000, -500), (7, 9)]);
    let mut buf = SpectralBuffer::new(order, 2);
    for _ in 0..order {
        buf.push(constant.clone());
    }
    let out = deep_filter(&identity_coefs(order, 2), &buf);
    assert_eq!(out, constant);
}

#[test]
fn fir_blends_history_per_bin() {
    // Order 2, one bin: coefficients 0.5 at lag 0 and i at lag 1.
    let mut buf = SpectralBuffer::new(2, 1);
    buf.push(frame(&[(30, -20)]));
    buf.push(frame(&[(100, 60)]));
    let coefs = vec![
        vec![Complex { re: GAIN_ONE / 2, im: 0 }],
        vec![Complex { re: 0, im: GAIN_ONE }],
    ];
    let out = deep_filter(&coefs, &buf);
    // 0.5 * (100 + 60i) + i * (30 - 20i) = (50 + 30i) + (20 + 30i) = 70 + 60i
    assert_eq!(out, frame(&[(70, 60)]));
}

#[test]
fn unit_mask_reproduces_spectrum() {
    let original = frame(&[(100, -40), (6, 7), (10, 10)]);
    let mut spectrum = original.clone();
    let mask = vec![GAIN_ONE; 3];
    apply_mask(&mut spectrum, &mask);
    assert_eq!(spectrum, original);
}

#[test]
fn zero_mask_silences_spectrum() {
    let mut spectrum = frame(&[(100, -40), (6, 7), (10, 10)]);
    let mask = vec![0i64; 3];
    apply_mask(&mut spectrum, &mask);
    assert_eq!(spectrum, frame(&[(0, 0), (0, 0), (0, 0)]));
}

#[test]
fn half_mask_never_amplifies() {
    let original = frame(&[(101, -41), (6, 7)]);
    let mut spectrum = original.clone();
    let mask = vec![GAIN_ONE / 2; 2];
    apply_mask(&mut spectrum, &mask);
    // 0.5 * 101 = 50.5 -> 50; 0.5 * -41 = -20.5 -> -20 (toward zero).
    assert_eq!(spectrum[0], Complex { re: 50, im: -20 });
    assert_eq!(spectrum[1], Complex { re: 3, im: 3 });
    for (z, o) in spectrum.iter().zip(original.iter()) {
        let m_out = z.re * z.re + z.im * z.im;
        let m_in = o.re * o.re + o.im * o.im;
        assert!(m_out <= m_in);
    }
}

#[test]
fn mask_leaves_uncovered_bins_unchanged() {
    let mut spectrum = frame(&[(100, -40), (6, 7), (10, 10)]);
    let mask = vec![0i64; 2];
    apply_mask(&mut spectrum, &mask);
    assert_eq!(spectrum, frame(&[(0, 0), (0, 0), (10, 10)]));
}
