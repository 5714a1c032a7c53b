use df_stream::delay::DelayLine;
use df_stream::num::{convert_to_complex, convert_to_real, Complex};
use df_stream::ring::SpectralBuffer;

fn frame(vals: &[(i64, i64)]) -> Vec<Complex> {
    let mut f = Vec::new();
    for &(re, im) in vals {
        f.push(Complex { re, im });
    }
    f
}

#[test]
fn widening_pairs_components() {
    let buf = vec![1i64, 2, 3, 4];
    let v = convert_to_complex(&buf).unwrap();
    assert_eq!(v.len(), 2);
    assert_eq!(v[0], Complex { re: 1, im: 2 });
    assert_eq!(v[1], Complex { re: 3, im: 4 });
}

#[test]
fn widening_rejects_odd_length() {
    let buf = vec![1i64, 2, 3];
    assert!(convert_to_complex(&buf).is_none());
}

#[test]
fn conversion_round_trips() {
    let buf = vec![5i64, -6, 0, 7, -8, 9];
    let v = convert_to_complex(&buf).unwrap();
    let back = convert_to_real(&v);
    assert_eq!(back, buf);
}

#[test]
fn ring_starts_all_zero() {
    let buf = SpectralBuffer::new(3, 2);
    for k in 0..3 {
        let f = buf.lag_frame(k);
        assert_eq!(f.len(), 2);
        for z in f {
            assert_eq!(*z, Complex { re: 0, im: 0 });
        }
    }
}

#[test]
fn ring_keeps_last_df_order_pushes() {
    // Ring invariant: always exactly df_order frames; pushing frame N evicts
    // the frame pushed at step N - df_order.
    let mut buf = SpectralBuffer::new(3, 1);
    let f1 = frame(&[(1, 10)]);
    let f2 = frame(&[(2, 20)]);
    let f3 = frame(&[(3, 30)]);
    let f4 = frame(&[(4, 40)]);
    buf.push(f1.clone());
    buf.push(f2.clone());
    buf.push(f3.clone());
    assert_eq!(buf.lag_frame(0), &f3);
    assert_eq!(buf.lag_frame(1), &f2);
    assert_eq!(buf.lag_frame(2), &f1);
    // The fourth push (step 3) evicts the frame pushed at step 0.
    buf.push(f4.clone());
    assert_eq!(buf.lag_frame(0), &f4);
    assert_eq!(buf.lag_frame(1), &f3);
    assert_eq!(buf.lag_frame(2), &f2);
    assert_eq!(buf.depth(), 3);
}

#[test]
fn delay_line_matches_offline_computation() {
    // A stage with discovered delay 2: after 2 arbitrary frames and 1 known
    // frame, output index 2 equals the offline computation's last output.
    let mut line = DelayLine::new(2, 1);
    let a = frame(&[(11, -1)]);
    let b = frame(&[(22, -2)]);
    let k = frame(&[(33, -3)]);
    let zero = frame(&[(0, 0)]);
    assert_eq!(line.step(a.clone()), zero);
    assert_eq!(line.step(b.clone()), zero);
    assert_eq!(line.step(k.clone()), a);
    assert_eq!(line.step(zero.clone()), b);
}

#[test]
fn delay_zero_passes_through() {
    let mut line = DelayLine::new(0, 2);
    let a = frame(&[(5, 6), (7, 8)]);
    assert_eq!(line.step(a.clone()), a);
}
