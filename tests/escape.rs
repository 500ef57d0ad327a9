use mandelbrot::escape::{escape_count, judge_pair, Verdict};

/// Sentinels of the orbit `z_0 = c`, `z_(k+1) = z_k^2 + c`: entry `k - 1`
/// tells whether the real part of `z_k` is not-a-number.
fn sentinels(re: f32, im: f32, depth_max: u8) -> Vec<bool> {
    let mut out = Vec::new();
    let (mut zr, mut zi) = (re, im);
    for _ in 0..depth_max {
        let nr = zr * zr - zi * zi + re;
        let ni = 2.0 * zr * zi + im;
        zr = nr;
        zi = ni;
        out.push(zr.is_nan());
    }
    out
}

fn evaluate(re: f32, im: f32, depth_max: u8) -> u8 {
    escape_count(depth_max, &sentinels(re, im, depth_max))
}

#[test]
fn judge_pair_first_sub_step() {
    assert_eq!(judge_pair(10, 3, true, true), Verdict::Escaped(6));
    assert_eq!(judge_pair(10, 3, true, false), Verdict::Escaped(6));
}

#[test]
fn judge_pair_second_sub_step() {
    assert_eq!(judge_pair(10, 3, false, true), Verdict::Escaped(7));
}

#[test]
fn judge_pair_quiet_round() {
    assert_eq!(judge_pair(10, 3, false, false), Verdict::Continue(5));
    assert_eq!(judge_pair(10, 7, false, false), Verdict::Continue(9));
    assert_eq!(judge_pair(10, 9, false, false), Verdict::Bounded);
    assert_eq!(judge_pair(255, 251, false, false), Verdict::Continue(253));
    assert_eq!(judge_pair(255, 253, false, false), Verdict::Bounded);
}

#[test]
fn judge_pair_last_round_first_sub_step_reports_zero() {
    assert_eq!(judge_pair(10, 9, true, false), Verdict::Escaped(0));
}

#[test]
fn escape_count_exact_values() {
    let mut s = vec![false; 10];
    s[4] = true; // step 5, first sub-step of round 5
    assert_eq!(escape_count(10, &s), 4);
    let mut s = vec![false; 10];
    s[5] = true; // step 6, second sub-step of round 5
    assert_eq!(escape_count(10, &s), 5);
    let mut s = vec![false; 10];
    s[0] = true;
    assert_eq!(escape_count(10, &s), 8);
    let mut s = vec![false; 10];
    s[1] = true;
    assert_eq!(escape_count(10, &s), 9);
}

#[test]
fn escape_count_quiet_orbit() {
    assert_eq!(escape_count(10, &vec![false; 10]), 0);
    // A sentinel at or past the ceiling is never looked at.
    let mut s = vec![false; 12];
    s[10] = true;
    assert_eq!(escape_count(10, &s), 0);
}

#[test]
fn escape_count_small_ceilings() {
    assert_eq!(escape_count(0, &vec![]), 0);
    assert_eq!(escape_count(1, &vec![true]), 0);
    assert_eq!(escape_count(2, &vec![false, true]), 1);
    assert_eq!(escape_count(2, &vec![true, true]), 0);
}

#[test]
fn origin_is_inside_for_every_ceiling() {
    for depth_max in 1..=255u8 {
        assert_eq!(evaluate(0.0, 0.0, depth_max), 0);
    }
}

#[test]
fn right_of_two_escapes_quickly() {
    for &re in &[2.01f32, 2.5, 3.0, 10.0, 1000.0] {
        for &depth_max in &[20u8, 50, 255] {
            let v = evaluate(re, 0.0, depth_max);
            assert!(v > 0 && v < depth_max, "re {} depth {} gave {}", re, depth_max, v);
        }
    }
    // Far out, overflow comes within a handful of steps.
    assert!(evaluate(10.0, 0.0, 255) >= 255 - 12);
}

#[test]
fn conjugate_points_escape_together() {
    let points = [(-0.75f32, 0.1f32), (0.3, 0.5), (-1.5, 0.01), (0.25, 0.6), (-2.0, 1.0), (1.0, 1.0)];
    for &(re, im) in &points {
        assert_eq!(evaluate(re, im, 255), evaluate(re, -im, 255));
        assert_eq!(sentinels(re, im, 255), sentinels(re, -im, 255));
    }
}
