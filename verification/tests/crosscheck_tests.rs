//! Cross-checks of the library's exact integer signal path against the
//! floating-point FFT form of the same computations.

use autotabber::autocorrelation;
use autotabber::estimate;
use find_peaks::PeakFinder;
use realfft::RealFftPlanner;

fn sine_samples(freq: f64, rate: u32, count: usize) -> Vec<i32> {
    (0..count)
        .map(|i| {
            let t = i as f64 / rate as f64;
            (10000.0 * (2.0 * std::f64::consts::PI * freq * t).sin()).round() as i32
        })
        .collect()
}

/// The FFT round trip — forward transform, multiply by the conjugate,
/// inverse transform, rotate by the frame length — equals the library's
/// direct integer autocorrelation up to the length factor the unnormalized
/// inverse transform introduces.
#[test]
fn autocorrelation_matches_fft_form() {
    for &f in &[261.63, 440.0, 987.77] {
        let samples = sine_samples(f, 44100, 512);
        let ints = autocorrelation(&samples);
        let n = samples.len();
        let length = 2 * n;
        let mut planner = RealFftPlanner::<f64>::new();
        let r2c = planner.plan_fft_forward(length);
        let mut indata: Vec<f64> = samples.iter().map(|&x| x as f64).collect();
        indata.resize(length, 0.0);
        let mut spectrum = r2c.make_output_vec();
        r2c.process(&mut indata, &mut spectrum).unwrap();
        for c in spectrum.iter_mut() {
            *c *= c.conj();
        }
        let c2r = planner.plan_fft_inverse(length);
        let mut outdata = c2r.make_output_vec();
        assert_eq!(outdata.len(), length);
        c2r.process(&mut spectrum, &mut outdata).unwrap();
        outdata.rotate_right(n);
        let scale = length as f64;
        let peak = ints.iter().map(|v| (*v as f64).abs()).fold(0.0, f64::max);
        assert_eq!(ints.len(), length);
        for j in 0..length {
            let fft_value = outdata[j] / scale;
            let int_value = ints[j] as f64;
            assert!(
                (fft_value - int_value).abs() <= 1e-6 * peak + 1e-3,
                "autocorrelation values diverge beyond floating-point tolerance"
            );
        }
    }
}

/// The estimator's period equals the distance between the two peaks a
/// reference peak finder ranks highest on the same buffer.
#[test]
fn peak_choice_matches_reference_finder() {
    for &f in &[261.63, 329.63, 880.0] {
        let samples = sine_samples(f, 44100, 512);
        let ac = autocorrelation(&samples);
        let ps = PeakFinder::new(&ac).find_peaks();
        assert!(ps.len() >= 2);
        let a = ps[0].middle_position() as isize;
        let b = ps[1].middle_position() as isize;
        let dist = (a - b).unsigned_abs() as u64;
        let e = estimate(&samples, 100, 44100).expect("a loud sine detects a pitch");
        assert_eq!(e.lag, dist);
    }
}
