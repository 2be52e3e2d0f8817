use fractal::growth::Growth;

#[test]
fn classify_finds_first_escape() {
    let flags = vec![false, false, true, true];
    assert_eq!(fractal::growth::classify(&flags), Growth::After(2));
}

#[test]
fn classify_escape_at_first_step() {
    let flags = vec![true, false, false];
    assert_eq!(fractal::growth::classify(&flags), Growth::After(0));
}

#[test]
fn classify_stable_when_no_escape() {
    let flags = vec![false; 64];
    assert_eq!(fractal::growth::classify(&flags), Growth::Stable);
    let empty: Vec<bool> = Vec::new();
    assert_eq!(fractal::growth::classify(&empty), Growth::Stable);
}

#[test]
fn classify_is_idempotent() {
    let flags = vec![false, true, false, true];
    let first = fractal::growth::classify(&flags);
    let second = fractal::growth::classify(&flags);
    assert_eq!(first, second);
    assert_eq!(first, Growth::After(1));
}

#[test]
fn stable_takes_stable_color() {
    let palette = vec![[1, 1, 1], [2, 2, 2]];
    let stable = [7, 8, 9];
    assert_eq!(Growth::Stable.to_rgb(stable, &palette), stable);
}

#[test]
fn escape_counts_bucket_by_four() {
    let palette = vec![[10, 0, 0], [0, 10, 0], [0, 0, 10]];
    let stable = [0, 0, 0];
    for n in 0..4 {
        assert_eq!(Growth::After(n).to_rgb(stable, &palette), [10, 0, 0]);
    }
    for n in 4..8 {
        assert_eq!(Growth::After(n).to_rgb(stable, &palette), [0, 10, 0]);
    }
    for n in 8..12 {
        assert_eq!(Growth::After(n).to_rgb(stable, &palette), [0, 0, 10]);
    }
}

#[test]
fn palette_wraps_around() {
    let palette = vec![[10, 0, 0], [0, 10, 0], [0, 0, 10]];
    let stable = [0, 0, 0];
    assert_eq!(Growth::After(12).to_rgb(stable, &palette), [10, 0, 0]);
    assert_eq!(Growth::After(16).to_rgb(stable, &palette), [0, 10, 0]);
}

#[test]
fn escape_color_is_periodic_in_whole_cycles() {
    let palette = vec![[10, 0, 0], [0, 10, 0], [0, 0, 10]];
    let stable = [0, 0, 0];
    let cycle = 4 * palette.len();
    for n in 0..20 {
        for k in 0..4 {
            assert_eq!(
                Growth::After(n + k * cycle).to_rgb(stable, &palette),
                Growth::After(n).to_rgb(stable, &palette),
            );
        }
    }
}
