use tx42_keeb::icons::{
    bread, candy, checker, cross, daisy, icons, lollipop, screen_position, sm_heart, two_heart,
    Icon, Pixel, ICON_COUNT, SCREEN_HEIGHT, SCREEN_WIDTH,
};

#[test]
fn the_screen_is_128_by_64() {
    assert_eq!(SCREEN_WIDTH, 128);
    assert_eq!(SCREEN_HEIGHT, 64);
}

#[test]
fn every_icon_has_its_size() {
    let sizes = [
        (bread(), 10, 8),
        (candy(), 8, 6),
        (checker(), 5, 9),
        (cross(), 5, 8),
        (daisy(), 6, 5),
        (lollipop(), 5, 8),
        (sm_heart(), 11, 5),
        (two_heart(), 7, 7),
    ];
    for (icon, width, height) in sizes {
        assert_eq!(icon.width(), width, "{}", icon.name);
        assert_eq!(icon.height(), height, "{}", icon.name);
        assert!(icon.pixels.iter().all(|row| row.len() == width));
    }
}

#[test]
fn the_icons_are_listed_by_name() {
    let all = icons();
    assert_eq!(all.len(), ICON_COUNT);
    let names: Vec<&str> = all.iter().map(|icon| icon.name).collect();
    assert_eq!(
        names,
        vec!["bread", "candy", "checker", "cross", "daisy", "lollipop", "small heart", "2heart"]
    );
    assert_eq!(all[0].author, "anna");
    assert_eq!(all[6].author, "aaron");
}

#[test]
fn a_space_is_off_and_anything_else_is_on() {
    let icon = cross();
    assert_eq!(
        icon.screen_pixel(0, 0, 0, 0, 1),
        Some(Pixel { x: 0, y: 0, on: false })
    );
    assert_eq!(
        icon.screen_pixel(2, 0, 0, 0, 1),
        Some(Pixel { x: 2, y: 0, on: true })
    );
    assert_eq!(
        icon.screen_pixel(0, 3, 0, 0, 1),
        Some(Pixel { x: 0, y: 3, on: true })
    );
    let loaf = bread();
    assert_eq!(
        loaf.screen_pixel(3, 2, 0, 0, 1),
        Some(Pixel { x: 3, y: 2, on: true })
    );
}

#[test]
fn the_corner_moves_the_icon() {
    let icon = cross();
    assert_eq!(
        icon.screen_pixel(2, 1, 100, 50, 1),
        Some(Pixel { x: 102, y: 51, on: true })
    );
    assert_eq!(
        icon.screen_pixel(4, 7, -4, -7, 1),
        Some(Pixel { x: 0, y: 0, on: false })
    );
}

#[test]
fn pixels_off_the_screen_are_left_out() {
    let icon = cross();
    assert_eq!(icon.screen_pixel(0, 0, 127, 63, 1), Some(Pixel { x: 127, y: 63, on: false }));
    assert_eq!(icon.screen_pixel(1, 0, 127, 63, 1), None);
    assert_eq!(icon.screen_pixel(0, 1, 127, 63, 1), None);
    assert_eq!(icon.screen_pixel(0, 0, -1, 0, 1), None);
    assert_eq!(icon.screen_pixel(0, 0, 0, -1, 1), None);
    assert_eq!(icon.screen_pixel(0, 0, i32::MAX, 0, 1), None);
    assert_eq!(icon.screen_pixel(4, 7, i32::MIN, i32::MIN, 1), None);
}

#[test]
fn a_scaled_pixel_repeats_its_source() {
    let icon = cross();
    for y in 0..3 {
        for x in 6..9 {
            assert_eq!(
                icon.screen_pixel(x, y, 10, 20, 3),
                Some(Pixel { x: x as u32 + 10, y: y as u32 + 20, on: true })
            );
        }
        assert_eq!(
            icon.screen_pixel(5, y, 10, 20, 3),
            Some(Pixel { x: 15, y: y as u32 + 20, on: false })
        );
    }
}

#[test]
fn an_icon_is_drawn_row_by_row() {
    let icon = daisy();
    let pixels = icon.draw_icon_with_scale(3, 4, 1);
    assert_eq!(pixels.len(), 30);
    assert_eq!(pixels[0], Pixel { x: 3, y: 4, on: false });
    assert_eq!(pixels[1], Pixel { x: 4, y: 4, on: true });
    assert_eq!(pixels[5], Pixel { x: 8, y: 4, on: false });
    assert_eq!(pixels[6], Pixel { x: 3, y: 5, on: true });
    assert_eq!(pixels[29], Pixel { x: 8, y: 8, on: false });
    let lit = pixels.iter().filter(|p| p.on).count();
    assert_eq!(lit, 16);
    assert_eq!(icon.draw_icon(3, 4), pixels);
}

#[test]
fn a_scaled_icon_covers_scale_squared_pixels_per_source_pixel() {
    let icon = cross();
    let pixels = icon.draw_icon_with_scale(0, 0, 2);
    assert_eq!(pixels.len(), 5 * 2 * 8 * 2);
    let lit = pixels.iter().filter(|p| p.on).count();
    assert_eq!(lit, 12 * 4);
    assert_eq!(pixels[4], Pixel { x: 4, y: 0, on: true });
    assert_eq!(pixels[10 + 5], Pixel { x: 5, y: 1, on: true });
    assert_eq!(pixels[10 + 6], Pixel { x: 6, y: 1, on: false });
}

#[test]
fn a_drawing_is_clipped_to_the_screen() {
    let icon = cross();
    let pixels = icon.draw_icon_with_scale(126, 60, 1);
    assert_eq!(
        pixels,
        vec![
            Pixel { x: 126, y: 60, on: false },
            Pixel { x: 127, y: 60, on: false },
            Pixel { x: 126, y: 61, on: false },
            Pixel { x: 127, y: 61, on: false },
            Pixel { x: 126, y: 62, on: false },
            Pixel { x: 127, y: 62, on: false },
            Pixel { x: 126, y: 63, on: true },
            Pixel { x: 127, y: 63, on: true },
        ]
    );
    assert!(icon.draw_icon_with_scale(128, 0, 1).is_empty());
    assert!(icon.draw_icon_with_scale(0, -8, 1).is_empty());
    let partly = icon.draw_icon_with_scale(-3, -7, 1);
    assert_eq!(
        partly,
        vec![Pixel { x: 0, y: 0, on: false }, Pixel { x: 1, y: 0, on: false }]
    );
}

#[test]
fn scale_zero_draws_nothing() {
    assert!(cross().draw_icon_with_scale(0, 0, 0).is_empty());
}

#[test]
fn a_picture_of_ones_own_is_drawn_too() {
    let icon = Icon { name: "dot", author: "me", pixels: &["#"] };
    assert_eq!(icon.width(), 1);
    assert_eq!(icon.height(), 1);
    assert_eq!(
        icon.draw_icon_with_scale(5, 6, 2),
        vec![
            Pixel { x: 5, y: 6, on: true },
            Pixel { x: 6, y: 6, on: true },
            Pixel { x: 5, y: 7, on: true },
            Pixel { x: 6, y: 7, on: true },
        ]
    );
}

#[test]
fn an_empty_picture_draws_nothing() {
    let icon = Icon { name: "none", author: "me", pixels: &[] };
    assert_eq!(icon.height(), 0);
    assert_eq!(icon.try_draw_icon_with_scale(0, 0, 3), Some(vec![]));
    assert!(icon.draw_icon_with_scale(0, 0, 3).is_empty());
}

#[test]
fn a_short_row_on_the_screen_cannot_be_drawn() {
    let icon = Icon { name: "ragged", author: "me", pixels: &["XX", "X"] };
    assert_eq!(icon.try_draw_icon_with_scale(0, 0, 1), None);
    assert_eq!(icon.try_draw_icon_with_scale(10, 10, 2), None);
}

#[test]
fn a_short_row_off_the_screen_does_no_harm() {
    let icon = Icon { name: "ragged", author: "me", pixels: &["XX", "X"] };
    assert_eq!(
        icon.try_draw_icon_with_scale(126, 63, 1),
        Some(vec![Pixel { x: 126, y: 63, on: true }, Pixel { x: 127, y: 63, on: true }])
    );
    assert_eq!(
        icon.try_draw_icon_with_scale(-1, 63, 1),
        Some(vec![Pixel { x: 0, y: 63, on: true }])
    );
    assert_eq!(
        icon.draw_icon_with_scale(-1, 63, 1),
        vec![Pixel { x: 0, y: 63, on: true }]
    );
    assert_eq!(icon.try_draw_icon_with_scale(-1, 0, 1), None);
}

#[test]
fn a_long_row_is_cut_to_the_first_rows_length() {
    let icon = Icon { name: "ragged", author: "me", pixels: &["X", " XX"] };
    assert_eq!(
        icon.try_draw_icon_with_scale(0, 0, 1),
        Some(vec![Pixel { x: 0, y: 0, on: true }, Pixel { x: 0, y: 1, on: false }])
    );
}

#[test]
fn a_scale_beyond_counting_cannot_be_drawn() {
    assert_eq!(cross().try_draw_icon_with_scale(0, 0, usize::MAX), None);
    assert_eq!(cross().try_draw_icon_with_scale(0, 0, usize::MAX / 6), None);
    assert_eq!(cross().try_draw_icon_with_scale(0, 0, 0), Some(vec![]));
}

#[test]
fn screen_positions_are_clipped() {
    assert_eq!(screen_position(0, 0, 0, 0), Some((0, 0)));
    assert_eq!(screen_position(127, 63, 0, 0), Some((127, 63)));
    assert_eq!(screen_position(128, 0, 0, 0), None);
    assert_eq!(screen_position(0, 64, 0, 0), None);
    assert_eq!(screen_position(5, 5, -5, -5), Some((0, 0)));
    assert_eq!(screen_position(5, 5, -6, 0), None);
    assert_eq!(screen_position(usize::MAX, 0, i32::MIN, 0), None);
    assert_eq!(screen_position(1usize << 31, 0, i32::MIN, 0), Some((0, 0)));
}
