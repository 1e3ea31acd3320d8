use clickless::grid::{GridConfig, GridNavigator, OverlayCell, OverlayFrame, Rect};
use clickless::keys::LogicalKey;
use clickless::overlay::{
    frame_bounds, glyph_rows, is_renderable, premultiply, render_frame, render_frame_with_theme, text_size,
    OverlayTheme, RenderTarget, BORDER_RGB, GLYPH_H, GLYPH_SCALE, GLYPH_W, HIGHLIGHT_ALPHA,
    HIGHLIGHT_RGB, LABEL_RGB, PANEL_ALPHA, PANEL_RGB, POINTER_ARM, POINTER_RGB,
};

fn frame(
    cells: Vec<(Rect, &str)>,
    highlight: Option<usize>,
    pointer: Option<(i64, i64)>,
) -> OverlayFrame {
    let cells: Vec<OverlayCell> = cells
        .into_iter()
        .map(|(rect, label)| OverlayCell {
            rect,
            label: label.to_string(),
        })
        .collect();
    let highlight = highlight.map(|index| cells[index].rect);
    OverlayFrame {
        level: 1,
        cells,
        highlight,
        pointer,
    }
}

fn count_pixels(target: &RenderTarget, rgb: (u8, u8, u8)) -> usize {
    let mut count = 0;
    let mut offset = 0;
    while offset + 4 <= target.pixels.len() {
        if target.pixels[offset] == rgb.2
            && target.pixels[offset + 1] == rgb.1
            && target.pixels[offset + 2] == rgb.0
        {
            count += 1;
        }
        offset += 4;
    }
    count
}

#[test]
fn t01_frame_bounds_covers_every_cell() {
    let f = frame(
        vec![
            (Rect::new(10, 20, 100, 50), "u"),
            (Rect::new(400, 300, 200, 100), "i"),
        ],
        None,
        None,
    );
    assert_eq!(frame_bounds(&f), Some(Rect::new(10, 20, 590, 380)));
}

#[test]
fn t02_empty_frame_has_no_bounds_and_no_image() {
    let f = frame(Vec::new(), None, None);
    assert_eq!(frame_bounds(&f), None);
    assert!(render_frame(&f).is_none());
}

#[test]
fn t03_render_target_matches_bounds_and_encodes_four_bytes_per_pixel() {
    let f = frame(
        vec![
            (Rect::new(100, 200, 60, 40), "u"),
            (Rect::new(160, 200, 60, 40), "i"),
        ],
        None,
        None,
    );
    let target = render_frame(&f).unwrap();
    assert_eq!(target.origin, (100, 200));
    assert_eq!(target.width, 120);
    assert_eq!(target.height, 40);
    assert_eq!(target.pixels.len(), 120 * 40 * 4);
}

#[test]
fn t04_cell_interiors_hold_translucent_premultiplied_panel_colour() {
    let f = frame(vec![(Rect::new(0, 0, 40, 20), "u")], None, None);
    let target = render_frame(&f).unwrap();
    let body = target.pixel(1, 1).unwrap();
    assert_eq!(body, premultiply(PANEL_RGB, PANEL_ALPHA));
    assert_eq!(body[3], PANEL_ALPHA);
}

#[test]
fn t05_cell_edges_are_opaque_border_colour() {
    let f = frame(vec![(Rect::new(0, 0, 40, 20), "u")], None, None);
    let target = render_frame(&f).unwrap();
    assert_eq!(target.pixel(0, 0).unwrap(), premultiply(BORDER_RGB, 255));
    assert_eq!(target.pixel(39, 19).unwrap(), premultiply(BORDER_RGB, 255));
}

#[test]
fn t06_labels_are_drawn_inside_their_cell() {
    let f = frame(vec![(Rect::new(0, 0, 60, 40), "u")], None, None);
    let target = render_frame(&f).unwrap();
    assert!(count_pixels(&target, LABEL_RGB) > 0);
    // The label sits around the cell centre, not against the border.
    let centre = target.pixel(30, 20).unwrap();
    assert_ne!(centre, premultiply(LABEL_RGB, 255));
}

#[test]
fn t07_unknown_glyphs_draw_nothing_and_known_ones_draw() {
    assert!(glyph_rows('?').is_none());
    for label in ["u", "i", "o", "j", "k", "l", "m", ",", "."] {
        let f = frame(vec![(Rect::new(0, 0, 60, 40), label)], None, None);
        let target = render_frame(&f).unwrap();
        assert!(
            count_pixels(&target, LABEL_RGB) > 0,
            "label {label} drew nothing"
        );
    }
}

#[test]
fn t08_highlight_needs_a_thicker_border_in_the_highlight_colour() {
    let plain = frame(vec![(Rect::new(0, 0, 60, 40), "u")], None, None);
    let active = frame(vec![(Rect::new(0, 0, 60, 40), "u")], Some(0), None);
    let plain_target = render_frame(&plain).unwrap();
    let active_target = render_frame(&active).unwrap();

    assert_eq!(count_pixels(&plain_target, HIGHLIGHT_RGB), 0);
    assert!(
        count_pixels(&active_target, HIGHLIGHT_RGB) > count_pixels(&active_target, BORDER_RGB)
    );
    assert_eq!(
        active_target.pixel(10, 10).unwrap(),
        premultiply(HIGHLIGHT_RGB, HIGHLIGHT_ALPHA)
    );
}

#[test]
fn t09_pointer_draws_a_marker_and_reads_back_by_screen_coordinate() {
    let f = frame(vec![(Rect::new(0, 0, 60, 40), "u")], None, Some((30, 20)));
    let target = render_frame(&f).unwrap();
    assert!(count_pixels(&target, POINTER_RGB) > 0);
    assert_eq!(target.pixel(30, 20).unwrap(), premultiply(POINTER_RGB, 255));
    assert_eq!(target.pixel(29, 20).unwrap(), premultiply(POINTER_RGB, 255));
    assert_eq!(target.pixel(30, 12).unwrap(), premultiply(POINTER_RGB, 255));
    assert_eq!(target.pixel(-1, 20), None);
    assert_eq!(target.pixel(60, 20), None);
}

#[test]
fn t10_text_size_grows_with_the_label() {
    assert_eq!(text_size(""), (0, GLYPH_H * GLYPH_SCALE));
    assert_eq!(
        text_size("u"),
        (GLYPH_W * GLYPH_SCALE, GLYPH_H * GLYPH_SCALE)
    );
    assert!(text_size("uu").0 > text_size("u").0);
}

// theme plumbing

#[test]
fn t11_theme_changes_panel_and_label_colour() {
    let f = frame(vec![(Rect::new(0, 0, 60, 40), "u")], None, None);
    let theme = OverlayTheme {
        panel_rgb: (255, 0, 255),
        label_rgb: (0, 255, 0),
        ..OverlayTheme::default()
    };
    let target = render_frame_with_theme(&f, &theme).unwrap();
    // Panel is stored premultiplied with its alpha; compare in that space.
    assert!(
        count_pixels(&target, (255, 0, 255)) > 0 || target.pixel(1, 1).unwrap()[0] != 0,
        "panel missing"
    );
    assert!(count_pixels(&target, (0, 255, 0)) > 0, "label missing");
    // Default-theme output must not contain the custom panel colour.
    let default_target = render_frame(&f).unwrap();
    assert_eq!(count_pixels(&default_target, (255, 0, 255)), 0);
}

#[test]
fn t12_theme_alpha_controls_panel_opacity() {
    let f = frame(vec![(Rect::new(0, 0, 40, 20), "u")], None, None);
    let theme = OverlayTheme {
        panel_alpha: 200,
        ..OverlayTheme::default()
    };
    let target = render_frame_with_theme(&f, &theme).unwrap();
    assert_eq!(target.pixel(1, 1).unwrap()[3], 200);
}

#[test]
fn t13_theme_pointer_colour_replaces_the_marker() {
    let f = frame(vec![(Rect::new(0, 0, 60, 40), "u")], None, Some((30, 20)));
    let theme = OverlayTheme {
        pointer_rgb: (1, 2, 3),
        ..OverlayTheme::default()
    };
    let target = render_frame_with_theme(&f, &theme).unwrap();
    assert!(count_pixels(&target, (1, 2, 3)) > 0);
    assert_eq!(count_pixels(&target, POINTER_RGB), 0);
}

#[test]
fn t14_theme_border_width_widens_the_frame() {
    let f = frame(vec![(Rect::new(0, 0, 60, 40), "u")], None, None);
    let theme = OverlayTheme {
        border_px: 6,
        ..OverlayTheme::default()
    };
    let target = render_frame_with_theme(&f, &theme).unwrap();
    assert_eq!(target.pixel(4, 4).unwrap(), premultiply(BORDER_RGB, 255));
}

// nested-label legibility (Prompt 2)

/// Real dense level-2 frame: 299 two-char context cells plus 30 nested
/// one-char cells.
fn dense_level2_frame(width: i64, height: i64) -> OverlayFrame {
    let mut nav = GridNavigator::new(width, height, GridConfig::dense());
    nav.activate();
    nav.on_key_press(LogicalKey::K); // column prefix
    nav.on_key_release(LogicalKey::K); // release before typing again
    nav.on_key_press(LogicalKey::K); // row: parent selected, nested shown
    nav.overlay_frame().unwrap()
}

fn rect_contains(target: &RenderTarget, rect: Rect, value: [u8; 4]) -> bool {
    (rect.y..rect.y + rect.height)
        .any(|y| (rect.x..rect.x + rect.width).any(|x| target.pixel(x, y) == Some(value)))
}

#[test]
fn t15_nested_one_char_cells_carry_an_opaque_badge() {
    for (width, height) in [(1920i64, 1080i64), (2880, 1620), (3840, 2160)] {
        let frame = dense_level2_frame(width, height);
        let target = render_frame(&frame).unwrap();
        let nested: Vec<_> = frame
            .cells
            .iter()
            .filter(|c| c.label.chars().count() == 1)
            .collect();
        assert_eq!(nested.len(), 30);
        // The pointer marker intentionally overwrites whatever it sits
        // on; skip cells its arms and box can reach.
        let marker = frame.pointer.map(|(px, py)| {
            Rect::new(
                px - POINTER_ARM - 2,
                py - POINTER_ARM - 2,
                2 * POINTER_ARM + 5,
                2 * POINTER_ARM + 5,
            )
        });
        for cell in &nested {
            if let Some(m) = marker {
                let overlaps = cell.rect.x < m.x + m.width
                    && m.x < cell.rect.x + cell.rect.width
                    && cell.rect.y < m.y + m.height
                    && m.y < cell.rect.y + cell.rect.height;
                if overlaps {
                    continue;
                }
            }
            // Replicate the badge geometry: clamped to the cell minus
            // 2px padding, centred on the label anchor. The probe sits
            // just inside the badge's left edge, left of the glyph and
            // its shadow: it must be opaque badge fill, never the
            // 27%-opaque panel or a neighbouring border.
            let (tw, _) = text_size(&cell.label);
            let badge_width = ((tw + 20).min(cell.rect.width - 4)).max(0);
            let probe = (
                cell.rect.x + cell.rect.width / 2 - badge_width / 2 + 1,
                cell.rect.y + cell.rect.height / 2,
            );
            assert_eq!(
                target.pixel(probe.0, probe.1),
                Some(premultiply(PANEL_RGB, 255)),
                "no opaque badge behind nested label at {width}x{height}"
            );
            assert!(
                rect_contains(&target, cell.rect, premultiply(LABEL_RGB, 255)),
                "nested glyph missing at {width}x{height}"
            );
        }
    }
}

#[test]
fn premultiply_scales_each_channel_by_alpha() {
    assert_eq!(premultiply((255, 128, 0), 255), [0, 128, 255, 255]);
    assert_eq!(premultiply((255, 128, 0), 0), [0, 0, 0, 0]);
    // 24 * 70 / 255 = 6, 28 * 70 / 255 = 7, 38 * 70 / 255 = 10
    assert_eq!(premultiply(PANEL_RGB, PANEL_ALPHA), [10, 7, 6, 70]);
}

#[test]
fn two_letter_cells_shade_across_the_image() {
    let f = frame(
        vec![
            (Rect::new(0, 0, 60, 40), "ab"),
            (Rect::new(60, 0, 60, 40), "cd"),
        ],
        None,
        None,
    );
    let target = render_frame(&f).unwrap();
    // Left cell: blend 0 gives (160, 140, 80) at alpha 85.
    assert_eq!(target.pixel(2, 2).unwrap(), premultiply((160, 140, 80), 85));
    // Right cell starts half way: blend = 60 * 255 / 120 = 127.
    assert_eq!(
        target.pixel(62, 2).unwrap(),
        premultiply((160 - 127 / 3, 140 + 127 / 5, 80 + 127 / 3), 85)
    );
}

#[test]
fn frame_bounds_of_one_cell_is_that_cell() {
    let f = frame(vec![(Rect::new(-5, 7, 10, 3), "a")], None, None);
    assert_eq!(frame_bounds(&f), Some(Rect::new(-5, 7, 10, 3)));
    let target = render_frame(&f).unwrap();
    assert_eq!(target.origin, (-5, 7));
    assert_eq!(target.pixel(-5, 7).unwrap(), premultiply(BORDER_RGB, 255));
    assert_eq!(target.pixel(5, 7), None);
}

#[test]
fn glyph_rows_are_case_blind() {
    assert_eq!(glyph_rows('A'), glyph_rows('a'));
    assert_eq!(glyph_rows('b'), Some([16, 16, 30, 17, 17, 30, 0]));
    assert_eq!(glyph_rows(' '), Some([0; 7]));
}

#[test]
fn renderable_frames_are_recognised() {
    let empty = frame(vec![], None, None);
    assert!(is_renderable(&empty));
    let screen = frame(
        vec![(Rect::new(0, 0, 1920, 1080), "a")],
        Some(0),
        Some((960, 540)),
    );
    assert!(is_renderable(&screen));
}

#[test]
fn oversized_frames_are_refused() {
    let wide = frame(vec![(Rect::new(0, 0, 0x4000_0001, 10), "a")], None, None);
    assert!(!is_renderable(&wide));
    let spread = frame(
        vec![
            (Rect::new(-0x4000_0000, -0x4000_0000, 10, 10), "a"),
            (Rect::new(0x4000_0000, 0x4000_0000, 10, 10), "b"),
        ],
        None,
        None,
    );
    assert!(!is_renderable(&spread));
    let overflowing = frame(vec![(Rect::new(i64::MAX - 5, 0, 10, 10), "a")], None, None);
    assert!(!is_renderable(&overflowing));
    let negative = frame(vec![(Rect::new(0, 0, -1, 10), "a")], None, None);
    assert!(!is_renderable(&negative));
    let pointer_out_of_range = frame(vec![(Rect::new(0, 0, 10, 10), "a")], None, Some((i64::MIN, 0)));
    assert!(!is_renderable(&pointer_out_of_range));
}

#[test]
fn far_cells_render_relative_to_their_origin() {
    let far = frame(
        vec![(Rect::new(1_000_000_000_000, -5_000_000_000_000, 10, 10), "a")],
        None,
        Some((0, -0x4000_0001)),
    );
    assert!(is_renderable(&far));
    assert_eq!(frame_bounds(&far), Some(Rect::new(1_000_000_000_000, -5_000_000_000_000, 10, 10)));
    let target = render_frame(&far).unwrap();
    assert_eq!(target.origin, (1_000_000_000_000, -5_000_000_000_000));
    assert_eq!((target.width, target.height), (10, 10));
    assert_eq!(target.pixels.len(), 400);
}
