use terrain_stream::colormap::{colormap_data, color_interp, terrain_ramp, ColorRamp, Rgb};
use terrain_stream::UNIT;

fn rgb(red: i32, green: i32, blue: i32) -> Rgb {
    Rgb { red, green, blue }
}

#[test]
fn interpolate_hits_every_breakpoint_exactly() {
    let ramp = terrain_ramp();
    for i in 0..ramp.breakpoints.len() {
        let c = ramp.interpolate(ramp.breakpoints[i]);
        assert_eq!(c, ramp.colors[i]);
    }
    let jet = colormap_data("jet");
    for i in 0..jet.breakpoints.len() {
        assert_eq!(jet.interpolate(jet.breakpoints[i]), jet.colors[i]);
    }
}

#[test]
fn interpolate_midpoint_is_exact() {
    let ramp = terrain_ramp();
    // halfway between the water breakpoint (0) and the sand breakpoint
    // (300000): each channel moves half of the way
    let c = ramp.interpolate(150_000);
    assert_eq!(c, rgb(408_000, 613_500, 651_000));
}

#[test]
fn interpolate_clamps_to_the_ramp_domain() {
    let ramp = terrain_ramp();
    assert_eq!(ramp.interpolate(-5), ramp.colors[0]);
    assert_eq!(ramp.interpolate(-100_000), ramp.colors[0]);
    assert_eq!(ramp.interpolate(2_000_000), ramp.colors[5]);
}

#[test]
fn water_shift_puts_second_breakpoint_on_the_water_level() {
    let ramp = terrain_ramp();
    for wl in [1, 333, 100_000, 555_555, 999_999] {
        let shifted = ramp.water_shift(wl);
        assert_eq!(shifted.breakpoints[0], 0);
        assert_eq!(shifted.breakpoints[1], wl);
    }
}

#[test]
fn water_shift_exact_values() {
    let ramp = terrain_ramp();
    let shifted = ramp.water_shift(100_000);
    assert_eq!(
        shifted.breakpoints,
        vec![0, 100_000, 164_285, 485_714, 871_428, 1_000_000]
    );
    assert_eq!(shifted.colors, ramp.colors);
}

#[test]
fn water_shift_is_idempotent() {
    let ramp = terrain_ramp();
    for wl in [1, 50_000, 100_000, 640_000, 999_999] {
        let s1 = ramp.water_shift(wl);
        let s2 = s1.water_shift(wl);
        assert_eq!(s2.breakpoints, s1.breakpoints);
        assert_eq!(s2.colors, s1.colors);
    }
}

#[test]
fn colormap_data_selects_the_named_palette() {
    let mountain = colormap_data("mountain");
    assert_eq!(
        mountain.breakpoints,
        vec![
            0, 100_000, 200_000, 300_000, 400_000, 500_000, 600_000, 700_000, 800_000, 900_000,
            1_000_000
        ]
    );
    assert_eq!(mountain.colors[0], rgb(0, 0, 1_000_000));
    assert_eq!(mountain.colors[1], rgb(700_000, 700_000, 500_000));
    assert_eq!(mountain.colors[10], rgb(1_000_000, 1_000_000, 1_000_000));

    let test_palette = colormap_data("test");
    assert_eq!(test_palette.colors[0], rgb(0, 462_700, 27_500));
    assert_eq!(test_palette.colors[10], rgb(902_000, 949_000, 964_700));

    let jet = colormap_data("jet");
    assert_eq!(jet.colors[0], rgb(0, 0, 510_000));
    assert_eq!(jet.colors[5], rgb(510_000, 1_000_000, 500_000));
    let unknown = colormap_data("no-such-palette");
    assert_eq!(unknown.colors, jet.colors);
}

#[test]
fn color_interp_over_the_whole_domain_matches_interpolate() {
    let jet = colormap_data("jet");
    for t in [0, 55_000, 500_000, 1_000_000] {
        assert_eq!(color_interp(&jet, 0, UNIT, t), jet.interpolate(t));
    }
    assert_eq!(
        color_interp(&jet, 0, UNIT, 500_000),
        rgb(510_000, 1_000_000, 500_000)
    );
}

#[test]
fn color_interp_rescales_a_narrow_domain() {
    let jet = colormap_data("jet");
    // the domain [200000, 400000]: its low end lands on the first color,
    // its high end on the last, and values outside are clamped first
    assert_eq!(color_interp(&jet, 200_000, 400_000, 200_000), jet.colors[0]);
    assert_eq!(color_interp(&jet, 200_000, 400_000, 400_000), jet.colors[10]);
    assert_eq!(color_interp(&jet, 200_000, 400_000, 0), jet.colors[0]);
    assert_eq!(color_interp(&jet, 200_000, 400_000, UNIT), jet.colors[10]);
    assert_eq!(
        color_interp(&jet, 200_000, 400_000, 300_000),
        jet.interpolate(500_000)
    );
}

#[test]
fn ramps_can_be_built_by_hand() {
    let ramp = ColorRamp {
        breakpoints: vec![0, 500_000, 1_000_000],
        colors: vec![rgb(0, 0, 0), rgb(500_000, 500_000, 500_000), rgb(UNIT, UNIT, UNIT)],
    };
    assert_eq!(ramp.interpolate(250_000), rgb(250_000, 250_000, 250_000));
    assert_eq!(ramp.interpolate(750_000), rgb(750_000, 750_000, 750_000));
}
