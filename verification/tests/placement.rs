use clickless::placement::{
    clamp_placement, default_placement, parse_placement, render_placement, Placement,
};

#[test]
fn placement_parses_centers_and_clamps() {
    assert_eq!(
        parse_placement("100 200"),
        Some(Placement { x: 100, y: 200 })
    );
    assert_eq!(parse_placement("nope"), None);
    assert_eq!(parse_placement("1 2 3"), None);
    let rendered = render_placement(Placement { x: 5, y: 6 });
    assert_eq!(parse_placement(&rendered), Some(Placement { x: 5, y: 6 }));
    assert_eq!(default_placement(1920, 1080), Placement { x: 550, y: 220 });
    assert_eq!(
        clamp_placement(Placement { x: -5000, y: -99 }, 1920, 1080),
        Placement { x: 100 - 820, y: 0 }
    );
    assert_eq!(
        clamp_placement(Placement { x: 5000, y: 5000 }, 1920, 1080),
        Placement { x: 1820, y: 980 }
    );
}

#[test]
fn placement_words_may_be_spread_by_any_white_space() {
    assert_eq!(parse_placement("\t-7\n  +8 \n"), Some(Placement { x: -7, y: 8 }));
    assert_eq!(parse_placement("2147483648 0"), None);
    assert_eq!(parse_placement(""), None);
    assert_eq!(render_placement(Placement { x: -3, y: 40 }), "-3 40\n");
    assert_eq!(default_placement(640, 480), Placement { x: 0, y: 0 });
}
