use goose_fighter::animation::loader::{
    load_animation, load_animations, load_sprite, opaque_bounds, AnimationParams, AnimationSource,
    AnnotatedSpriteParams, LoadError, PixelBounds, SheetImage, SpriteSheetParams,
};
use goose_fighter::animation::PixelRect;
use goose_fighter::geometry::{AABB, BOX_LIMIT, UNITS_PER_PIXEL, UNITS_PER_POINT};

fn blank(width: u32, height: u32) -> SheetImage {
    SheetImage { width, height, alpha: vec![0u8; (width * height) as usize] }
}

fn with_pixels(mut image: SheetImage, pixels: &[(u32, u32)]) -> SheetImage {
    for (x, y) in pixels {
        let index = (y * image.width + x) as usize;
        image.alpha[index] = 200;
    }
    image
}

fn grid(count_x: u32, count_y: u32) -> SpriteSheetParams {
    SpriteSheetParams { texture: "sheet".to_string(), count_x, count_y }
}

fn plain(duration: usize) -> AnnotatedSpriteParams {
    AnnotatedSpriteParams { hurtbox: true, hitbox: None, duration }
}

fn animation(sprites: Vec<AnnotatedSpriteParams>, count_x: u32, count_y: u32) -> AnimationParams {
    AnimationParams { sprite_sheet: grid(count_x, count_y), sprites, looping: true, play_backwards: false }
}

fn named(name: &str) -> AnimationSource {
    AnimationSource {
        name: name.to_string(),
        params: animation(vec![plain(1)], 1, 1),
        sheet: with_pixels(blank(4, 4), &[(1, 1)]),
    }
}

fn required() -> Vec<AnimationSource> {
    ["standing", "forward", "backward", "attack", "recoil", "block"]
        .iter()
        .map(|name| named(name))
        .collect()
}

#[test]
fn units_are_exact_for_pixels_and_half_pixels() {
    assert_eq!(UNITS_PER_POINT, 4000);
    assert_eq!(UNITS_PER_PIXEL, 50);
    // Eighty pixels make one point.
    assert_eq!(80 * UNITS_PER_PIXEL, UNITS_PER_POINT as i64);
    assert_eq!(UNITS_PER_PIXEL % 2, 0);
    assert_eq!(BOX_LIMIT, 1i64 << 40);
}

#[test]
fn image_validity_is_one_alpha_value_per_pixel() {
    assert!(blank(3, 5).is_valid());
    assert!(blank(0, 5).is_valid());
    let mut short = blank(3, 5);
    short.alpha.pop();
    assert!(!short.is_valid());
    let mut long = blank(3, 5);
    long.alpha.push(0);
    assert!(!long.is_valid());
}

#[test]
fn alpha_is_read_row_by_row() {
    let image = with_pixels(blank(4, 3), &[(3, 0), (0, 2), (2, 1)]);
    assert_eq!(image.alpha_at(3, 0), 200);
    assert_eq!(image.alpha_at(0, 2), 200);
    assert_eq!(image.alpha_at(2, 1), 200);
    assert_eq!(image.alpha_at(0, 0), 0);
    assert_eq!(image.alpha_at(3, 2), 0);
    assert_eq!(image.alpha[3], 200);
    assert_eq!(image.alpha[8], 200);
}

#[test]
fn bounds_are_the_smallest_box_around_the_visible_pixels() {
    let image = with_pixels(blank(8, 6), &[(2, 1), (5, 3), (3, 4)]);
    let whole = PixelRect { x: 0, y: 0, width: 8, height: 6 };
    assert_eq!(
        opaque_bounds(&image, whole),
        PixelBounds { min_x: 2, max_x: 6, min_y: 1, max_y: 5 }
    );
    let single = with_pixels(blank(8, 6), &[(7, 5)]);
    assert_eq!(
        opaque_bounds(&single, whole),
        PixelBounds { min_x: 7, max_x: 8, min_y: 5, max_y: 6 }
    );
    let corner = with_pixels(blank(8, 6), &[(0, 0)]);
    assert_eq!(
        opaque_bounds(&corner, whole),
        PixelBounds { min_x: 0, max_x: 1, min_y: 0, max_y: 1 }
    );
}

#[test]
fn bounds_of_a_cell_ignore_the_other_cells() {
    let image = with_pixels(blank(8, 6), &[(0, 0), (5, 4), (6, 5), (3, 5)]);
    let cell = PixelRect { x: 4, y: 3, width: 4, height: 3 };
    assert_eq!(
        opaque_bounds(&image, cell),
        PixelBounds { min_x: 1, max_x: 3, min_y: 1, max_y: 3 }
    );
}

#[test]
fn bounds_of_a_cell_without_visible_pixels_hold_nothing() {
    let image = with_pixels(blank(8, 6), &[(0, 0)]);
    let cell = PixelRect { x: 4, y: 3, width: 4, height: 3 };
    assert_eq!(
        opaque_bounds(&image, cell),
        PixelBounds { min_x: 3, max_x: 0, min_y: 2, max_y: 0 }
    );
}

#[test]
fn sprite_cells_are_counted_row_by_row() {
    let image = blank(10, 9);
    let sheet = grid(3, 2);
    let cells: Vec<PixelRect> = (0..6)
        .map(|i| load_sprite(i, &sheet, &plain(1), &image).unwrap().source_rect)
        .collect();
    assert_eq!(cells[0], PixelRect { x: 0, y: 0, width: 3, height: 4 });
    assert_eq!(cells[1], PixelRect { x: 3, y: 0, width: 3, height: 4 });
    assert_eq!(cells[2], PixelRect { x: 6, y: 0, width: 3, height: 4 });
    assert_eq!(cells[3], PixelRect { x: 0, y: 4, width: 3, height: 4 });
    assert_eq!(cells[5], PixelRect { x: 6, y: 4, width: 3, height: 4 });
    assert_eq!(load_sprite(6, &sheet, &plain(1), &image), Err(LoadError::SpriteOutsideSheet));
}

#[test]
fn sprite_regions_are_boxes_around_the_centre_of_the_cell() {
    // One cell of 16 by 16 pixels; visible pixels span columns 4..=9 and
    // rows 2..=13.
    let image = with_pixels(blank(16, 16), &[(4, 2), (9, 13)]);
    let params = AnnotatedSpriteParams {
        hurtbox: true,
        hitbox: Some(PixelRect { x: 12, y: 3, width: 5, height: 4 }),
        duration: 7,
    };
    let sprite = load_sprite(0, &grid(1, 1), &params, &image).unwrap();
    assert_eq!(sprite.texture, "sheet");
    assert_eq!(sprite.duration, 7);
    assert_eq!((sprite.width, sprite.height), (800, 800));
    // x: (4 - 8) and (10 - 8) pixels; y, pointing up: (8 - 14) and (8 - 2).
    assert_eq!(sprite.hurtbox, Some(AABB { min_x: -200, min_y: -300, max_x: 100, max_y: 300 }));
    // Top left at (12 - 8, 8 - 3) pixels, 5 wide and 4 high.
    assert_eq!(sprite.hitbox, Some(AABB { min_x: 200, min_y: 50, max_x: 450, max_y: 250 }));
}

#[test]
fn sprite_regions_of_an_odd_cell_fall_on_half_pixels() {
    let image = with_pixels(blank(5, 3), &[(2, 1)]);
    let sprite = load_sprite(0, &grid(1, 1), &plain(1), &image).unwrap();
    assert_eq!(sprite.hurtbox, Some(AABB { min_x: -25, min_y: -25, max_x: 25, max_y: 25 }));
    assert_eq!((sprite.width, sprite.height), (250, 150));
}

#[test]
fn sprite_that_shows_nothing_has_no_body() {
    // The second cell of the sheet has no visible pixel.
    let image = with_pixels(blank(8, 4), &[(1, 1)]);
    let seen = load_sprite(0, &grid(2, 1), &plain(1), &image).unwrap();
    assert_eq!(seen.hurtbox, Some(AABB { min_x: -50, min_y: 0, max_x: 0, max_y: 50 }));
    let unseen = load_sprite(1, &grid(2, 1), &plain(1), &image).unwrap();
    assert_eq!(unseen.hurtbox, None);
    assert_eq!(unseen.source_rect, PixelRect { x: 4, y: 0, width: 4, height: 4 });
    assert!(!opaque_bounds(&image, unseen.source_rect).holds_pixels());
    assert!(opaque_bounds(&image, seen.source_rect).holds_pixels());
}

#[test]
fn sprite_regions_have_their_corners_in_order() {
    let image = with_pixels(blank(6, 6), &[(0, 5), (5, 0), (2, 2)]);
    for rect in [
        PixelRect { x: 0, y: 0, width: 0, height: 0 },
        PixelRect { x: 9, y: 1, width: 3, height: 7 },
        PixelRect { x: u32::MAX, y: 0, width: u32::MAX, height: 1 },
    ] {
        let params = AnnotatedSpriteParams { hurtbox: true, hitbox: Some(rect), duration: 1 };
        for i in 0..4 {
            let sprite = load_sprite(i, &grid(2, 2), &params, &image).unwrap();
            for region in [sprite.hitbox, sprite.hurtbox].into_iter().flatten() {
                assert!(region.min_x <= region.max_x);
                assert!(region.min_y <= region.max_y);
            }
        }
    }
}

#[test]
fn sprite_without_hurtbox_has_no_body() {
    let image = with_pixels(blank(4, 4), &[(1, 1)]);
    let params = AnnotatedSpriteParams { hurtbox: false, hitbox: None, duration: 1 };
    let sprite = load_sprite(0, &grid(1, 1), &params, &image).unwrap();
    assert_eq!(sprite.hurtbox, None);
    assert_eq!(sprite.hitbox, None);
}

#[test]
fn sprite_regions_stay_within_the_box_limit() {
    let image = blank(2, 2);
    let params = AnnotatedSpriteParams {
        hurtbox: true,
        hitbox: Some(PixelRect { x: u32::MAX, y: u32::MAX, width: u32::MAX, height: u32::MAX }),
        duration: 1,
    };
    let sprite = load_sprite(0, &grid(1, 1), &params, &image).unwrap();
    let hit = sprite.hitbox.unwrap();
    let far = 50 * u32::MAX as i64;
    assert_eq!(hit, AABB { min_x: far - 50, min_y: 50 - 2 * far, max_x: 2 * far - 50, max_y: 50 - far });
    for v in [hit.min_x, hit.min_y, hit.max_x, hit.max_y] {
        assert!(v.abs() <= BOX_LIMIT);
    }
}

#[test]
fn sprite_errors_come_in_a_fixed_order() {
    let good = blank(4, 4);
    let mut torn = blank(4, 4);
    torn.alpha.pop();
    let zero = AnnotatedSpriteParams { hurtbox: true, hitbox: None, duration: 0 };
    assert_eq!(load_sprite(9, &grid(0, 1), &zero, &torn), Err(LoadError::EmptySheetGrid));
    assert_eq!(load_sprite(9, &grid(1, 0), &zero, &torn), Err(LoadError::EmptySheetGrid));
    assert_eq!(load_sprite(9, &grid(5, 1), &zero, &torn), Err(LoadError::ImageSizeMismatch));
    assert_eq!(load_sprite(9, &grid(5, 1), &zero, &good), Err(LoadError::EmptySprite));
    assert_eq!(load_sprite(9, &grid(1, 5), &zero, &good), Err(LoadError::EmptySprite));
    assert_eq!(load_sprite(9, &grid(2, 2), &zero, &good), Err(LoadError::SpriteOutsideSheet));
    assert_eq!(load_sprite(3, &grid(2, 2), &zero, &good), Err(LoadError::ZeroDuration));
    assert!(load_sprite(3, &grid(2, 2), &plain(1), &good).is_ok());
}

#[test]
fn animation_keeps_the_order_of_its_frames() {
    let image = blank(6, 2);
    let params = animation(vec![plain(1), plain(2), plain(3)], 3, 1);
    let data = load_animation(4, &params, &image).unwrap();
    assert_eq!(data.id, 4);
    assert!(data.looping);
    let held: Vec<usize> = data.sprites.iter().map(|s| s.duration).collect();
    assert_eq!(held, vec![1, 2, 3]);
    let columns: Vec<u32> = data.sprites.iter().map(|s| s.source_rect.x).collect();
    assert_eq!(columns, vec![0, 2, 4]);
}

#[test]
fn animation_played_backwards_starts_with_the_last_cell() {
    let image = blank(6, 2);
    let mut params = animation(vec![plain(1), plain(2), plain(3)], 3, 1);
    params.play_backwards = true;
    params.looping = false;
    let data = load_animation(0, &params, &image).unwrap();
    assert!(!data.looping);
    let held: Vec<usize> = data.sprites.iter().map(|s| s.duration).collect();
    assert_eq!(held, vec![3, 2, 1]);
    let columns: Vec<u32> = data.sprites.iter().map(|s| s.source_rect.x).collect();
    assert_eq!(columns, vec![4, 2, 0]);
}

#[test]
fn animation_without_frames_is_refused() {
    let image = blank(6, 2);
    let params = animation(vec![], 0, 0);
    assert_eq!(load_animation(0, &params, &image), Err(LoadError::NoFrames));
}

#[test]
fn animation_reports_its_first_frame_that_fails() {
    let image = blank(6, 2);
    let zero = AnnotatedSpriteParams { hurtbox: true, hitbox: None, duration: 0 };
    // Frame 1 is held for no tick; frame 3 has no cell.
    let params = animation(vec![plain(1), zero, plain(1), plain(1)], 3, 1);
    assert_eq!(load_animation(0, &params, &image), Err(LoadError::ZeroDuration));
    let params = animation(vec![plain(1), plain(1), plain(1), zero], 3, 1);
    assert_eq!(load_animation(0, &params, &image), Err(LoadError::SpriteOutsideSheet));
}

#[test]
fn catalog_numbers_the_definitions_in_the_order_of_the_sources() {
    let mut sources = required();
    sources.insert(2, named("taunt"));
    let anims = load_animations(sources).unwrap();
    assert_eq!(anims.len(), 7);
    for id in 0..7 {
        assert_eq!(anims.get(id).unwrap().id, id);
    }
    assert_eq!(anims.lookup(&"taunt".to_string()), Some(2));
    assert_eq!(anims.lookup(&"backward".to_string()), Some(3));
    assert_eq!(anims.backward().id, 3);
    assert_eq!(anims.standing().id, 0);
    assert_eq!(anims.block().id, 6);
}

#[test]
fn catalog_refuses_a_name_that_occurs_twice() {
    let mut sources = required();
    sources.push(named("attack"));
    assert_eq!(load_animations(sources).unwrap_err(), LoadError::DuplicateName);
}

#[test]
fn catalog_refuses_to_go_without_a_required_definition() {
    for missing in 0..6 {
        let mut sources = required();
        sources.remove(missing);
        assert_eq!(load_animations(sources).unwrap_err(), LoadError::MissingAnimation);
    }
    assert_eq!(load_animations(Vec::new()).unwrap_err(), LoadError::MissingAnimation);
}

#[test]
fn catalog_reports_a_source_that_fails_before_it_looks_at_names() {
    let mut sources = required();
    sources.push(named("attack"));
    sources[4].params.sprites[0].duration = 0;
    sources[5].params.sprites.clear();
    assert_eq!(load_animations(sources).unwrap_err(), LoadError::ZeroDuration);
    let mut sources = required();
    sources.remove(0);
    sources[1].sheet.alpha.clear();
    assert_eq!(load_animations(sources).unwrap_err(), LoadError::ImageSizeMismatch);
}
