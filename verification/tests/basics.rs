use audio_split::number::{parse_unsigned, push_decimal, push_three_digits, push_two_digits};
use audio_split::sample::{bits_of_rank, is_a_number, quantize, rank_of_bits, HIGHEST, LOWEST, ZERO};
use audio_split::sort::sort_by_rank;
use audio_split::markers::{new_marker, Marker};

fn chars(s: &str) -> Vec<char> {
    s.chars().collect()
}

#[test]
fn numerals_are_those_of_format() {
    for n in [0u64, 1, 9, 10, 99, 100, 999, 1000, u64::MAX] {
        let mut s = String::from("<");
        push_decimal(&mut s, n);
        s.push(' ');
        push_two_digits(&mut s, n);
        s.push(' ');
        push_three_digits(&mut s, n);
        assert_eq!(s, format!("<{n} {n:02} {n:03}"));
        assert_eq!(parse_unsigned(&chars(&format!("{n:02}"))), Some(n));
    }
}

#[test]
fn numbers_are_parsed_as_std_parses_them() {
    for s in ["", "+", "-1", "+5", "007", "18446744073709551615", "18446744073709551616", "1a", " 1", "٣"] {
        assert_eq!(parse_unsigned(&chars(s)), s.parse::<u64>().ok(), "{s:?}");
    }
}

fn noise(state: &mut u64) -> u32 {
    *state = state.wrapping_mul(6364136223846793005).wrapping_add(1442695040888963407);
    (*state >> 32) as u32
}

#[test]
fn ranks_order_samples() {
    assert_eq!(rank_of_bits(f32::MAX.to_bits()), HIGHEST);
    assert_eq!(rank_of_bits(f32::MIN.to_bits()), LOWEST);
    assert_eq!(rank_of_bits(0f32.to_bits()), ZERO);
    let mut state = 1;
    for _ in 0..100_000 {
        let (a, b) = (noise(&mut state), noise(&mut state));
        let (x, y) = (f32::from_bits(a), f32::from_bits(b));
        let (p, q) = (rank_of_bits(a), rank_of_bits(b));
        assert_eq!(bits_of_rank(p), a);
        assert_eq!(p.cmp(&q), x.total_cmp(&y));
        assert_eq!(is_a_number(p), !x.is_nan());
    }
}

fn check_quantize(s: f32) {
    for bits in 16u32..=24 {
        let scale = (1i64 << (bits - 1)) as f32;
        let max_val = (1i64 << (bits - 1)) as f32 - 1.0;
        let expected = (s * scale).round().clamp(-scale, max_val) as i32;
        assert_eq!(quantize(rank_of_bits(s.to_bits()), bits), expected, "{s} at {bits}");
    }
}

#[test]
fn samples_are_quantized_exactly() {
    assert_eq!(quantize(rank_of_bits(0.5f32.to_bits()), 16), 16384);
    assert_eq!(quantize(rank_of_bits(1f32.to_bits()), 16), 32767);
    assert_eq!(quantize(rank_of_bits((-1f32).to_bits()), 16), -32768);
    assert_eq!(quantize(rank_of_bits(f32::NAN.to_bits()), 16), 0);
    for s in [0.0, -0.0, 1.0, -1.0, 2.0, -2.0, 0.5 / 32768.0, -0.5 / 32768.0, 1.5 / 32768.0, 32766.5 / 32768.0, f32::MIN_POSITIVE, 1e-45, f32::INFINITY, f32::NEG_INFINITY, f32::NAN, f32::MAX, f32::MIN] {
        check_quantize(s);
    }
    let mut state = 7;
    for _ in 0..50_000 {
        check_quantize(f32::from_bits(noise(&mut state)));
        check_quantize((noise(&mut state) as i32) as f32 / 2147483648.0);
    }
}

#[test]
fn sorting_is_stable() {
    let mut markers: Vec<Marker> = Vec::new();
    let mut state = 3;
    for id in 0..200u64 {
        markers.push(new_marker(id, (noise(&mut state) % 20) as usize));
    }
    let mut expected: Vec<(usize, u64)> = markers.iter().map(|m| (m.pos, m.id)).collect();
    expected.sort_by_key(|m| m.0);
    sort_by_rank(&mut markers);
    let got: Vec<(usize, u64)> = markers.iter().map(|m| (m.pos, m.id)).collect();
    assert_eq!(got, expected);
    sort_by_rank(&mut markers);
    let again: Vec<(usize, u64)> = markers.iter().map(|m| (m.pos, m.id)).collect();
    assert_eq!(again, expected);
}
