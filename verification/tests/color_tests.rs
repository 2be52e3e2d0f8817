use fractal::color::{
    default_stable_color, from_color_offset, to_color_offset, Coloring, ConfigError,
};

#[test]
fn channel_offsets_round_trip() {
    let color = [3, 128, 255];
    let offset = to_color_offset(color);
    assert_eq!(offset, [3, 128, 255]);
    assert_eq!(from_color_offset(offset), color);
}

#[test]
fn stable_color_defaults_to_black() {
    assert_eq!(default_stable_color(), [0, 0, 0]);
}

#[test]
fn test_range() {
    let range = Coloring::Range {
        start: [255, 0, 0],
        end: [0, 127, 0],
        steps: 4,
    }
    .build();
    let expected = vec![
        [255, 0, 0],
        [192, 31, 0],
        [129, 62, 0],
        [66, 93, 0],
        [0, 127, 0],
    ];
    assert_eq!(range, expected);
}

#[test]
fn range_zero_steps_is_start_alone() {
    let range = Coloring::Range {
        start: [12, 34, 56],
        end: [200, 100, 50],
        steps: 0,
    }
    .build();
    assert_eq!(range, vec![[12, 34, 56]]);
}

#[test]
fn range_one_step_is_both_endpoints() {
    let range = Coloring::Range {
        start: [255, 255, 255],
        end: [0, 0, 0],
        steps: 1,
    }
    .build();
    assert_eq!(range, vec![[255, 255, 255], [0, 0, 0]]);
}

#[test]
fn range_shared_channel_never_moves() {
    let range = Coloring::Range {
        start: [10, 200, 30],
        end: [90, 200, 130],
        steps: 5,
    }
    .build();
    let expected = vec![
        [10, 200, 30],
        [26, 200, 50],
        [42, 200, 70],
        [58, 200, 90],
        [74, 200, 110],
        [90, 200, 130],
    ];
    assert_eq!(range, expected);
}

#[test]
fn palette_builds_to_itself() {
    let colors = vec![[1, 2, 3], [4, 5, 6]];
    let built = Coloring::Palette(colors.clone()).build();
    assert_eq!(built, colors);
}

#[test]
fn validate_rejects_empty_palette() {
    let coloring = Coloring::Palette(Vec::new());
    assert_eq!(coloring.validate(), Err(ConfigError::EmptyPalette));
}

#[test]
fn validate_rejects_negative_steps() {
    let coloring = Coloring::Range {
        start: [0, 0, 0],
        end: [255, 255, 255],
        steps: -3,
    };
    assert_eq!(coloring.validate(), Err(ConfigError::NegativeSteps));
}

#[test]
fn validate_accepts_usable_colorings() {
    assert_eq!(Coloring::Palette(vec![[9, 9, 9]]).validate(), Ok(()));
    let range = Coloring::Range {
        start: [0, 0, 0],
        end: [255, 255, 255],
        steps: 0,
    };
    assert_eq!(range.validate(), Ok(()));
}

#[test]
fn default_palette_has_twelve_hues() {
    let coloring = Coloring::default();
    assert_eq!(coloring.validate(), Ok(()));
    let palette = coloring.build();
    assert_eq!(palette.len(), 12);
    assert_eq!(palette[0], [0, 0, 255]);
    assert_eq!(palette[4], [0, 255, 0]);
    assert_eq!(palette[11], [127, 0, 255]);
}
