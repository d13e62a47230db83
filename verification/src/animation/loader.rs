//! Building the catalog from animation descriptions and sprite sheets.
//!
//! A description names a sprite sheet, which is a grid of equally sized
//! cells, and lists the frames in the order of the cells, row by row. The
//! region in which a frame can be hit is the bounding box of the pixels of
//! its cell that are not fully transparent, and a frame that shows nothing
//! cannot be hit; the region in which it deals damage is written down in
//! the description, in pixels of the cell. Both become boxes around the
//! centre of the cell, in world units, with `y` pointing up.

use vstd::prelude::*;
use crate::animation::{AnimationData, Animations, AnnotatedSprite, PixelRect};
use crate::geometry::{AABB, BOX_LIMIT, UNITS_PER_PIXEL};

verus! {

/// The sprite sheet of an animation: a texture cut into `count_x` columns
/// and `count_y` rows.
#[derive(Clone, PartialEq, Eq, Debug)]
pub struct SpriteSheetParams {
    pub texture: String,
    pub count_x: u32,
    pub count_y: u32,
}

/// The description of one frame.
#[derive(Clone, Copy, PartialEq, Eq, Debug, Structural)]
pub struct AnnotatedSpriteParams {
    /// Whether the frame can be hit.
    pub hurtbox: bool,
    /// Where the frame deals damage, in pixels of its cell.
    pub hitbox: Option<PixelRect>,
    /// Number of ticks that the frame is held.
    pub duration: usize,
}

/// The description of one animation.
#[derive(Clone, PartialEq, Eq, Debug)]
pub struct AnimationParams {
    pub sprite_sheet: SpriteSheetParams,
    pub sprites: Vec<AnnotatedSpriteParams>,
    pub looping: bool,
    /// Whether the frames are played from the last cell to the first.
    pub play_backwards: bool,
}

/// What the loader reads of a decoded sprite sheet: its size and, row by
/// row from the top, the alpha value of each pixel.
#[derive(Clone, PartialEq, Eq, Debug)]
pub struct SheetImage {
    pub width: u32,
    pub height: u32,
    pub alpha: Vec<u8>,
}

/// One animation to load: its name, its description and its sprite sheet.
#[derive(Clone, PartialEq, Eq, Debug)]
pub struct AnimationSource {
    pub name: String,
    pub params: AnimationParams,
    pub sheet: SheetImage,
}

/// Why a catalog could not be built.
#[derive(Clone, Copy, PartialEq, Eq, Debug, Structural)]
pub enum LoadError {
    /// A sprite sheet is cut into no columns or no rows.
    EmptySheetGrid,
    /// The number of alpha values of a sheet is not its width times its
    /// height.
    ImageSizeMismatch,
    /// A sheet has fewer pixels than cells along one axis.
    EmptySprite,
    /// An animation has more frames than its sheet has cells.
    SpriteOutsideSheet,
    /// A frame is held for no tick at all.
    ZeroDuration,
    /// An animation has no frame.
    NoFrames,
    /// Two animations have the same name.
    DuplicateName,
    /// One of the animations that the simulation asks for is not there.
    MissingAnimation,
}

/// The smallest box around the pixels of a cell that are not fully
/// transparent: columns `min_x..max_x` and rows `min_y..max_y` of the cell.
#[derive(Clone, Copy, PartialEq, Eq, Debug, Structural)]
pub struct PixelBounds {
    pub min_x: u32,
    pub max_x: u32,
    pub min_y: u32,
    pub max_y: u32,
}

impl SheetImage {
    /// There is one alpha value for each pixel.
    pub open spec fn wf(&self) -> bool {
        self.alpha@.len() == self.width * self.height
    }

    /// The alpha value of the pixel in column `x` of row `y`.
    pub open spec fn spec_alpha_at(&self, x: int, y: int) -> u8 {
        self.alpha@[y * self.width + x]
    }

    /// Whether there is one alpha value for each pixel.
    pub fn is_valid(&self) -> (valid: bool)
        ensures
            valid == self.wf(),
    {
        proof {
            lemma_product_fits(self.width as int, self.height as int);
        }
        let pixels: u64 = self.width as u64 * self.height as u64;
        self.alpha.len() as u64 == pixels
    }

    /// The alpha value of the pixel in column `x` of row `y`.
    pub fn alpha_at(&self, x: u32, y: u32) -> (alpha: u8)
        requires
            self.wf(),
            x < self.width,
            y < self.height,
        ensures
            alpha == self.spec_alpha_at(x as int, y as int),
    {
        proof {
            lemma_pixel_index(x as int, y as int, self.width as int, self.height as int);
            lemma_product_fits(y as int, self.width as int);
        }
        let index: u64 = y as u64 * self.width as u64 + x as u64;
        assert(index < self.alpha.len());
        self.alpha[index as usize]
    }
}

proof fn lemma_product_fits(a: int, b: int)
    by (nonlinear_arith)
    requires
        0 <= a <= 0xffff_ffff,
        0 <= b <= 0xffff_ffff,
    ensures
        0 <= a * b <= 0xffff_fffe_0000_0001,
{
}

proof fn lemma_pixel_index(x: int, y: int, width: int, height: int)
    by (nonlinear_arith)
    requires
        0 <= x < width,
        0 <= y < height,
    ensures
        0 <= y * width + x < width * height,
{
}

proof fn lemma_cell_fits(total: int, count: int, k: int)
    by (nonlinear_arith)
    requires
        0 <= total,
        0 < count,
        0 <= k < count,
    ensures
        0 <= (total / count) * k,
        (total / count) * k + total / count <= total,
{
}

/// The cell of frame `i`: cells are counted row by row from the top left.
pub open spec fn spec_cell(i: int, sheet: SpriteSheetParams, image: SheetImage) -> PixelRect {
    let width = image.width / sheet.count_x;
    let height = image.height / sheet.count_y;
    PixelRect {
        x: (width * (i % (sheet.count_x as int))) as u32,
        y: (height * (i / (sheet.count_x as int))) as u32,
        width,
        height,
    }
}

/// The cell has at least one pixel and lies inside the image.
pub open spec fn cell_in_image(cell: PixelRect, image: SheetImage) -> bool {
    &&& cell.width >= 1
    &&& cell.height >= 1
    &&& cell.x + cell.width <= image.width
    &&& cell.y + cell.height <= image.height
}

/// The pixel in column `x` of row `y` of the cell is not fully transparent.
pub open spec fn opaque_in_cell(image: SheetImage, cell: PixelRect, x: int, y: int) -> bool {
    &&& 0 <= x < cell.width
    &&& 0 <= y < cell.height
    &&& image.spec_alpha_at(cell.x + x, cell.y + y) != 0
}

/// Column `x` of the cell has a visible pixel.
pub open spec fn column_used(image: SheetImage, cell: PixelRect, x: int) -> bool {
    exists|y: int| opaque_in_cell(image, cell, x, y)
}

/// Row `y` of the cell has a visible pixel.
pub open spec fn row_used(image: SheetImage, cell: PixelRect, y: int) -> bool {
    exists|x: int| opaque_in_cell(image, cell, x, y)
}

/// The bounds of a cell without any visible pixel.
pub open spec fn spec_empty_bounds(cell: PixelRect) -> PixelBounds {
    PixelBounds {
        min_x: (cell.width - 1) as u32,
        max_x: 0,
        min_y: (cell.height - 1) as u32,
        max_y: 0,
    }
}

/// `bounds` is the smallest box around the visible pixels of the cell: it
/// holds them all, and each of its four sides touches one of them.
pub open spec fn is_opaque_bounds(image: SheetImage, cell: PixelRect, bounds: PixelBounds) -> bool {
    if exists|x: int, y: int| opaque_in_cell(image, cell, x, y) {
        &&& forall|x: int, y: int| #[trigger]
            opaque_in_cell(image, cell, x, y) ==> bounds.min_x <= x < bounds.max_x && bounds.min_y
                <= y < bounds.max_y
        &&& column_used(image, cell, bounds.min_x as int)
        &&& column_used(image, cell, bounds.max_x - 1)
        &&& row_used(image, cell, bounds.min_y as int)
        &&& row_used(image, cell, bounds.max_y - 1)
    } else {
        bounds == spec_empty_bounds(cell)
    }
}

impl PixelBounds {
    /// The bounds hold at least one pixel.
    pub open spec fn spec_holds_pixels(self) -> bool {
        self.min_x < self.max_x && self.min_y < self.max_y
    }

    /// Whether the bounds hold at least one pixel.
    pub fn holds_pixels(&self) -> (some: bool)
        ensures
            some == self.spec_holds_pixels(),
    {
        self.min_x < self.max_x && self.min_y < self.max_y
    }
}

/// The smallest box around the visible pixels of the cell.
pub open spec fn spec_opaque_bounds(image: SheetImage, cell: PixelRect) -> PixelBounds {
    choose|bounds: PixelBounds| is_opaque_bounds(image, cell, bounds)
}

/// A cell has only one smallest box around its visible pixels.
pub proof fn lemma_opaque_bounds_unique(
    image: SheetImage,
    cell: PixelRect,
    first: PixelBounds,
    second: PixelBounds,
)
    requires
        is_opaque_bounds(image, cell, first),
        is_opaque_bounds(image, cell, second),
    ensures
        first == second,
{
    if exists|x: int, y: int| opaque_in_cell(image, cell, x, y) {
        let y1 = choose|y: int| opaque_in_cell(image, cell, first.min_x as int, y);
        let y2 = choose|y: int| opaque_in_cell(image, cell, second.min_x as int, y);
        assert(opaque_in_cell(image, cell, first.min_x as int, y1));
        assert(opaque_in_cell(image, cell, second.min_x as int, y2));
        let first_last_x = first.max_x - 1;
        let second_last_x = second.max_x - 1;
        let first_last_y = first.max_y - 1;
        let second_last_y = second.max_y - 1;
        let y3 = choose|y: int| opaque_in_cell(image, cell, first_last_x, y);
        let y4 = choose|y: int| opaque_in_cell(image, cell, second_last_x, y);
        assert(opaque_in_cell(image, cell, first.max_x - 1, y3));
        assert(opaque_in_cell(image, cell, second.max_x - 1, y4));
        let x1 = choose|x: int| opaque_in_cell(image, cell, x, first.min_y as int);
        let x2 = choose|x: int| opaque_in_cell(image, cell, x, second.min_y as int);
        assert(opaque_in_cell(image, cell, x1, first.min_y as int));
        assert(opaque_in_cell(image, cell, x2, second.min_y as int));
        let x3 = choose|x: int| opaque_in_cell(image, cell, x, first_last_y);
        let x4 = choose|x: int| opaque_in_cell(image, cell, x, second_last_y);
        assert(opaque_in_cell(image, cell, x3, first.max_y - 1));
        assert(opaque_in_cell(image, cell, x4, second.max_y - 1));
    }
}

/// The smallest box around the visible pixels of a cell holds a pixel
/// exactly when the cell has a visible pixel.
pub proof fn lemma_bounds_hold_what_is_visible(
    image: SheetImage,
    cell: PixelRect,
    bounds: PixelBounds,
)
    requires
        is_opaque_bounds(image, cell, bounds),
    ensures
        bounds.spec_holds_pixels() <==> exists|x: int, y: int| opaque_in_cell(image, cell, x, y),
{
    if exists|x: int, y: int| opaque_in_cell(image, cell, x, y) {
        let y0 = choose|y: int| opaque_in_cell(image, cell, bounds.min_x as int, y);
        assert(opaque_in_cell(image, cell, bounds.min_x as int, y0));
    }
}

/// What a scan of the cell knows when it stands before the pixel in column
/// `x` of row `y`, having gone through the rows above and the pixels to the
/// left in that row.
spec fn scan_state(
    image: SheetImage,
    cell: PixelRect,
    bounds: PixelBounds,
    found: bool,
    at: (int, int, int, int),
    x: int,
    y: int,
) -> bool {
    &&& forall|px: int, py: int| #[trigger]
        opaque_in_cell(image, cell, px, py) && (py < y || (py == y && px < x)) ==> found
            && bounds.min_x <= px < bounds.max_x && bounds.min_y <= py < bounds.max_y
    &&& found ==> {
        &&& opaque_in_cell(image, cell, bounds.min_x as int, at.0)
        &&& opaque_in_cell(image, cell, bounds.max_x - 1, at.1)
        &&& opaque_in_cell(image, cell, at.2, bounds.min_y as int)
        &&& opaque_in_cell(image, cell, at.3, bounds.max_y - 1)
    }
    &&& !found ==> bounds == spec_empty_bounds(cell)
}

/// Finds the smallest box around the pixels of the cell that are not fully
/// transparent. A cell without such a pixel gets bounds that hold nothing.
pub fn opaque_bounds(image: &SheetImage, cell: PixelRect) -> (bounds: PixelBounds)
    requires
        image.wf(),
        cell_in_image(cell, *image),
    ensures
        is_opaque_bounds(*image, cell, bounds),
        bounds == spec_opaque_bounds(*image, cell),
{
    let mut bounds = PixelBounds {
        min_x: cell.width - 1,
        max_x: 0,
        min_y: cell.height - 1,
        max_y: 0,
    };
    let ghost mut found = false;
    let ghost mut at: (int, int, int, int) = (0, 0, 0, 0);
    let mut y: u32 = 0;
    while y < cell.height
        invariant
            image.wf(),
            cell_in_image(cell, *image),
            y <= cell.height,
            scan_state(*image, cell, bounds, found, at, 0, y as int),
        decreases cell.height - y,
    {
        let mut x: u32 = 0;
        while x < cell.width
            invariant
                image.wf(),
                cell_in_image(cell, *image),
                y < cell.height,
                x <= cell.width,
                scan_state(*image, cell, bounds, found, at, x as int, y as int),
            decreases cell.width - x,
        {
            let ghost before = bounds;
            let ghost was_found = found;
            let ghost was_at = at;
            if image.alpha_at(cell.x + x, cell.y + y) != 0 {
                proof {
                    at = (
                        if !found || x < bounds.min_x {
                            y as int
                        } else {
                            at.0
                        },
                        if !found || x + 1 > bounds.max_x {
                            y as int
                        } else {
                            at.1
                        },
                        if !found || y < bounds.min_y {
                            x as int
                        } else {
                            at.2
                        },
                        if !found || y + 1 > bounds.max_y {
                            x as int
                        } else {
                            at.3
                        },
                    );
                    found = true;
                }
                if x < bounds.min_x {
                    bounds.min_x = x;
                }
                if x + 1 > bounds.max_x {
                    bounds.max_x = x + 1;
                }
                if y < bounds.min_y {
                    bounds.min_y = y;
                }
                if y + 1 > bounds.max_y {
                    bounds.max_y = y + 1;
                }
                assert(opaque_in_cell(*image, cell, x as int, y as int));
            }
            proof {
                assert forall|px: int, py: int| #[trigger]
                    opaque_in_cell(*image, cell, px, py) && (py < y || (py == y && px < x + 1))
                    implies found && bounds.min_x <= px < bounds.max_x && bounds.min_y <= py
                    < bounds.max_y by {
                    if py < y || (py == y && px < x) {
                        assert(was_found && before.min_x <= px < before.max_x && before.min_y <= py
                            < before.max_y);
                    }
                }
            }
            x += 1;
        }
        y += 1;
    }
    proof {
        if found {
            assert(opaque_in_cell(*image, cell, bounds.min_x as int, at.0));
        }
        assert(is_opaque_bounds(*image, cell, bounds));
        lemma_opaque_bounds_unique(*image, cell, bounds, spec_opaque_bounds(*image, cell));
    }
    bounds
}

/// The region in which a frame can be hit: the bounds of its visible
/// pixels, as a box around the centre of the cell.
pub open spec fn spec_hurt_region(cell: PixelRect, bounds: PixelBounds) -> AABB {
    AABB {
        min_x: (UNITS_PER_PIXEL * bounds.min_x - UNITS_PER_PIXEL / 2 * cell.width) as i64,
        min_y: (UNITS_PER_PIXEL / 2 * cell.height - UNITS_PER_PIXEL * bounds.max_y) as i64,
        max_x: (UNITS_PER_PIXEL * bounds.max_x - UNITS_PER_PIXEL / 2 * cell.width) as i64,
        max_y: (UNITS_PER_PIXEL / 2 * cell.height - UNITS_PER_PIXEL * bounds.min_y) as i64,
    }
}

/// The region in which a frame deals damage: the rectangle of the
/// description, as a box around the centre of the cell.
pub open spec fn spec_hit_region(cell: PixelRect, rect: PixelRect) -> AABB {
    let left = UNITS_PER_PIXEL * rect.x - UNITS_PER_PIXEL / 2 * cell.width;
    let top = UNITS_PER_PIXEL / 2 * cell.height - UNITS_PER_PIXEL * rect.y;
    AABB {
        min_x: left as i64,
        min_y: (top - UNITS_PER_PIXEL * rect.height) as i64,
        max_x: (left + UNITS_PER_PIXEL * rect.width) as i64,
        max_y: top as i64,
    }
}

fn hurt_region(cell: PixelRect, bounds: PixelBounds) -> (region: AABB)
    requires
        bounds.spec_holds_pixels(),
    ensures
        region == spec_hurt_region(cell, bounds),
        region.within(BOX_LIMIT as int),
        region.spec_ordered(),
{
    let half: i64 = UNITS_PER_PIXEL / 2;
    AABB {
        min_x: UNITS_PER_PIXEL * bounds.min_x as i64 - half * cell.width as i64,
        min_y: half * cell.height as i64 - UNITS_PER_PIXEL * bounds.max_y as i64,
        max_x: UNITS_PER_PIXEL * bounds.max_x as i64 - half * cell.width as i64,
        max_y: half * cell.height as i64 - UNITS_PER_PIXEL * bounds.min_y as i64,
    }
}

fn hit_region(cell: PixelRect, rect: PixelRect) -> (region: AABB)
    ensures
        region == spec_hit_region(cell, rect),
        region.within(BOX_LIMIT as int),
        region.spec_ordered(),
{
    let half: i64 = UNITS_PER_PIXEL / 2;
    let left: i64 = UNITS_PER_PIXEL * rect.x as i64 - half * cell.width as i64;
    let top: i64 = half * cell.height as i64 - UNITS_PER_PIXEL * rect.y as i64;
    AABB {
        min_x: left,
        min_y: top - UNITS_PER_PIXEL * rect.height as i64,
        max_x: left + UNITS_PER_PIXEL * rect.width as i64,
        max_y: top,
    }
}

/// Why frame `i` cannot be loaded, if it cannot.
pub open spec fn spec_sprite_error(
    i: int,
    sheet: SpriteSheetParams,
    sprite: AnnotatedSpriteParams,
    image: SheetImage,
) -> Option<LoadError> {
    if sheet.count_x == 0 || sheet.count_y == 0 {
        Some(LoadError::EmptySheetGrid)
    } else if !image.wf() {
        Some(LoadError::ImageSizeMismatch)
    } else if image.width / sheet.count_x == 0 || image.height / sheet.count_y == 0 {
        Some(LoadError::EmptySprite)
    } else if i / (sheet.count_x as int) >= sheet.count_y {
        Some(LoadError::SpriteOutsideSheet)
    } else if sprite.duration == 0 {
        Some(LoadError::ZeroDuration)
    } else {
        None
    }
}

/// Frame `i` as it is loaded when nothing stands in the way. A frame can be
/// hit if its description says so and its cell shows something.
pub open spec fn spec_loaded_sprite(
    i: int,
    sheet: SpriteSheetParams,
    sprite: AnnotatedSpriteParams,
    image: SheetImage,
) -> AnnotatedSprite {
    let cell = spec_cell(i, sheet, image);
    AnnotatedSprite {
        texture: sheet.texture,
        source_rect: cell,
        hitbox: match sprite.hitbox {
            Some(rect) => Some(spec_hit_region(cell, rect)),
            None => None,
        },
        hurtbox: if sprite.hurtbox && spec_opaque_bounds(image, cell).spec_holds_pixels() {
            Some(spec_hurt_region(cell, spec_opaque_bounds(image, cell)))
        } else {
            None
        },
        width: (UNITS_PER_PIXEL * cell.width) as i64,
        height: (UNITS_PER_PIXEL * cell.height) as i64,
        duration: sprite.duration,
    }
}

pub open spec fn spec_load_sprite(
    i: int,
    sheet: SpriteSheetParams,
    sprite: AnnotatedSpriteParams,
    image: SheetImage,
) -> Result<AnnotatedSprite, LoadError> {
    match spec_sprite_error(i, sheet, sprite, image) {
        Some(error) => Err(error),
        None => Ok(spec_loaded_sprite(i, sheet, sprite, image)),
    }
}

/// Loads frame `i` of an animation from its description and its sheet.
pub fn load_sprite(
    i: usize,
    sprite_sheet: &SpriteSheetParams,
    sprite: &AnnotatedSpriteParams,
    image: &SheetImage,
) -> (loaded: Result<AnnotatedSprite, LoadError>)
    ensures
        loaded == spec_load_sprite(i as int, *sprite_sheet, *sprite, *image),
        loaded matches Ok(frame) ==> frame.wf(),
{
    if sprite_sheet.count_x == 0 || sprite_sheet.count_y == 0 {
        return Err(LoadError::EmptySheetGrid);
    }
    if !image.is_valid() {
        return Err(LoadError::ImageSizeMismatch);
    }
    let sprite_width: u32 = image.width / sprite_sheet.count_x;
    let sprite_height: u32 = image.height / sprite_sheet.count_y;
    if sprite_width == 0 || sprite_height == 0 {
        return Err(LoadError::EmptySprite);
    }
    let x: usize = i % (sprite_sheet.count_x as usize);
    let y: usize = i / (sprite_sheet.count_x as usize);
    if y >= sprite_sheet.count_y as usize {
        return Err(LoadError::SpriteOutsideSheet);
    }
    if sprite.duration == 0 {
        return Err(LoadError::ZeroDuration);
    }
    proof {
        lemma_cell_fits(image.width as int, sprite_sheet.count_x as int, x as int);
        lemma_cell_fits(image.height as int, sprite_sheet.count_y as int, y as int);
    }
    let cell = PixelRect {
        x: sprite_width * (x as u32),
        y: sprite_height * (y as u32),
        width: sprite_width,
        height: sprite_height,
    };
    assert(cell == spec_cell(i as int, *sprite_sheet, *image));
    let hurtbox: Option<AABB> = if sprite.hurtbox {
        let bounds = opaque_bounds(image, cell);
        if bounds.holds_pixels() {
            Some(hurt_region(cell, bounds))
        } else {
            None
        }
    } else {
        None
    };
    let hitbox: Option<AABB> = match sprite.hitbox {
        Some(rect) => Some(hit_region(cell, rect)),
        None => None,
    };
    Ok(
        AnnotatedSprite {
            texture: sprite_sheet.texture.clone(),
            source_rect: cell,
            hitbox,
            hurtbox,
            width: UNITS_PER_PIXEL * sprite_width as i64,
            height: UNITS_PER_PIXEL * sprite_height as i64,
            duration: sprite.duration,
        },
    )
}

/// The error of the first frame from `from` on that cannot be loaded.
pub open spec fn spec_first_sprite_error(anim: AnimationParams, image: SheetImage, from: int)
    -> Option<LoadError>
    decreases anim.sprites@.len() - from,
{
    if from < 0 || from >= anim.sprites@.len() {
        None
    } else {
        match spec_sprite_error(from, anim.sprite_sheet, anim.sprites@[from], image) {
            Some(error) => Some(error),
            None => spec_first_sprite_error(anim, image, from + 1),
        }
    }
}

/// Why the animation cannot be loaded, if it cannot: it has no frame, or
/// one of its frames cannot be loaded; the first such frame says why.
pub open spec fn spec_animation_error(anim: AnimationParams, image: SheetImage) -> Option<
    LoadError,
> {
    if anim.sprites@.len() == 0 {
        Some(LoadError::NoFrames)
    } else {
        spec_first_sprite_error(anim, image, 0)
    }
}

/// The cell that is shown as frame `k`: the cells in their order, or from
/// the last one back.
pub open spec fn spec_cell_of_frame(anim: AnimationParams, k: int) -> int {
    if anim.play_backwards {
        anim.sprites@.len() - 1 - k
    } else {
        k
    }
}

/// The frames of the animation in the order in which they are played.
pub open spec fn spec_frames(anim: AnimationParams, image: SheetImage) -> Seq<AnnotatedSprite> {
    Seq::new(
        anim.sprites@.len(),
        |k: int|
            spec_loaded_sprite(
                spec_cell_of_frame(anim, k),
                anim.sprite_sheet,
                anim.sprites@[spec_cell_of_frame(anim, k)],
                image,
            ),
    )
}

/// `data` is what the animation gives when it is loaded.
pub open spec fn is_loaded_animation(anim: AnimationParams, image: SheetImage, data: AnimationData)
    -> bool {
    &&& data.looping == anim.looping
    &&& data.sprites@ == spec_frames(anim, image)
}

fn reversed(frames: Vec<AnnotatedSprite>) -> (turned: Vec<AnnotatedSprite>)
    ensures
        turned@.len() == frames@.len(),
        forall|k: int| 0 <= k < turned@.len() ==> turned@[k] == frames@[frames@.len() - 1 - k],
{
    let ghost all = frames@;
    let mut rest = frames;
    let mut turned: Vec<AnnotatedSprite> = Vec::new();
    while rest.len() > 0
        invariant
            rest@.len() + turned@.len() == all.len(),
            forall|k: int| 0 <= k < rest@.len() ==> rest@[k] == all[k],
            forall|k: int| 0 <= k < turned@.len() ==> turned@[k] == all[all.len() - 1 - k],
        decreases rest@.len(),
    {
        match rest.pop() {
            Some(frame) => turned.push(frame),
            None => {},
        }
    }
    turned
}

/// Loads an animation that will sit at place `id` of a catalog.
pub fn load_animation(id: usize, anim: &AnimationParams, image: &SheetImage) -> (loaded: Result<
    AnimationData,
    LoadError,
>)
    ensures
        match loaded {
            Ok(data) => spec_animation_error(*anim, *image) is None && data.id == id
                && is_loaded_animation(*anim, *image, data) && data.wf(),
            Err(error) => spec_animation_error(*anim, *image) == Some(error),
        },
{
    let count: usize = anim.sprites.len();
    if count == 0 {
        return Err(LoadError::NoFrames);
    }
    let mut sprites: Vec<AnnotatedSprite> = Vec::new();
    let mut i: usize = 0;
    while i < count
        invariant
            i <= count,
            count == anim.sprites@.len(),
            sprites@.len() == i,
            spec_first_sprite_error(*anim, *image, 0) == spec_first_sprite_error(
                *anim,
                *image,
                i as int,
            ),
            forall|k: int|
                0 <= k < i ==> (#[trigger] sprites@[k]) == spec_loaded_sprite(
                    k,
                    anim.sprite_sheet,
                    anim.sprites@[k],
                    *image,
                ) && sprites@[k].wf(),
        decreases count - i,
    {
        match load_sprite(i, &anim.sprite_sheet, &anim.sprites[i], image) {
            Ok(frame) => sprites.push(frame),
            Err(error) => {
                return Err(error);
            },
        }
        i += 1;
    }
    if anim.play_backwards {
        sprites = reversed(sprites);
    }
    assert(sprites@ =~= spec_frames(*anim, *image));
    Ok(AnimationData { id, sprites, looping: anim.looping })
}

/// The names of the sources, in their order.
pub open spec fn spec_names(sources: Seq<AnimationSource>) -> Seq<Seq<char>> {
    Seq::new(sources.len(), |j: int| sources[j].name@)
}

/// The error of the first source from `from` on that cannot be loaded.
pub open spec fn spec_first_source_error(sources: Seq<AnimationSource>, from: int) -> Option<
    LoadError,
>
    decreases sources.len() - from,
{
    if from < 0 || from >= sources.len() {
        None
    } else {
        match spec_animation_error(sources[from].params, sources[from].sheet) {
            Some(error) => Some(error),
            None => spec_first_source_error(sources, from + 1),
        }
    }
}

/// No name occurs twice.
pub open spec fn names_distinct(names: Seq<Seq<char>>) -> bool {
    forall|i: int, j: int| 0 <= i < j < names.len() ==> names[i] != names[j]
}

/// `name` is one of the names.
pub open spec fn has_name(names: Seq<Seq<char>>, name: Seq<char>) -> bool {
    exists|j: int| 0 <= j < names.len() && names[j] == name
}

/// The six animations that the simulation asks for are among the names.
pub open spec fn has_required_names(names: Seq<Seq<char>>) -> bool {
    &&& has_name(names, "standing"@)
    &&& has_name(names, "forward"@)
    &&& has_name(names, "backward"@)
    &&& has_name(names, "attack"@)
    &&& has_name(names, "recoil"@)
    &&& has_name(names, "block"@)
}

/// Why no catalog can be built from the sources, if none can: a source
/// cannot be loaded, and the first such source says why; or a name occurs
/// twice; or a required animation is missing.
pub open spec fn spec_catalog_error(sources: Seq<AnimationSource>) -> Option<LoadError> {
    match spec_first_source_error(sources, 0) {
        Some(error) => Some(error),
        None => if !names_distinct(spec_names(sources)) {
            Some(LoadError::DuplicateName)
        } else if !has_required_names(spec_names(sources)) {
            Some(LoadError::MissingAnimation)
        } else {
            None
        },
    }
}

/// The views of the names.
pub open spec fn spec_views(names: Seq<String>) -> Seq<Seq<char>> {
    Seq::new(names.len(), |j: int| names[j]@)
}

fn all_distinct(names: &Vec<String>) -> (distinct: bool)
    ensures
        distinct == names_distinct(spec_views(names@)),
{
    let count: usize = names.len();
    let mut j: usize = 0;
    while j < count
        invariant
            j <= count,
            count == names@.len(),
            forall|a: int, b: int| 0 <= a < b < j ==> names@[a]@ != names@[b]@,
        decreases count - j,
    {
        let mut i: usize = 0;
        while i < j
            invariant
                i <= j,
                j < count,
                count == names@.len(),
                forall|a: int| 0 <= a < i ==> names@[a]@ != names@[j as int]@,
            decreases j - i,
        {
            if names[i] == names[j] {
                proof {
                    let views = spec_views(names@);
                    assert(views[i as int] == views[j as int]);
                }
                return false;
            }
            i += 1;
        }
        j += 1;
    }
    proof {
        let views = spec_views(names@);
        assert forall|a: int, b: int| 0 <= a < b < views.len() implies views[a] != views[b] by {
            assert(names@[a]@ != names@[b]@);
        }
    }
    true
}

fn find_name(names: &Vec<String>, name: &str) -> (found: Option<usize>)
    ensures
        match found {
            Some(j) => j < names@.len() && names@[j as int]@ == name@,
            None => !has_name(spec_views(names@), name@),
        },
{
    let wanted: String = name.to_owned();
    let count: usize = names.len();
    let mut j: usize = 0;
    while j < count
        invariant
            j <= count,
            count == names@.len(),
            wanted@ == name@,
            forall|k: int| 0 <= k < j ==> names@[k]@ != name@,
        decreases count - j,
    {
        if names[j] == wanted {
            return Some(j);
        }
        j += 1;
    }
    proof {
        let views = spec_views(names@);
        assert forall|k: int| 0 <= k < views.len() implies views[k] != name@ by {
            assert(names@[k]@ != name@);
        }
    }
    None
}

/// Builds the catalog. Source `j` becomes the definition with `id` `j`.
pub fn load_animations(sources: Vec<AnimationSource>) -> (loaded: Result<Animations, LoadError>)
    ensures
        match loaded {
            Ok(anims) => {
                &&& spec_catalog_error(sources@) is None
                &&& anims.wf()
                &&& anims.names() == spec_names(sources@)
                &&& anims.clips().len() == sources@.len()
                &&& forall|j: int|
                    0 <= j < sources@.len() ==> is_loaded_animation(
                        sources@[j].params,
                        sources@[j].sheet,
                        #[trigger] anims.clips()[j],
                    )
            },
            Err(error) => spec_catalog_error(sources@) == Some(error),
        },
{
    let count: usize = sources.len();
    let mut names: Vec<String> = Vec::new();
    let mut clips: Vec<AnimationData> = Vec::new();
    let mut j: usize = 0;
    while j < count
        invariant
            j <= count,
            count == sources@.len(),
            names@.len() == j,
            clips@.len() == j,
            spec_first_source_error(sources@, 0) == spec_first_source_error(sources@, j as int),
            forall|k: int| 0 <= k < j ==> (#[trigger] names@[k]) == sources@[k].name,
            forall|k: int|
                0 <= k < j ==> (#[trigger] clips@[k]).id == k && clips@[k].wf()
                    && is_loaded_animation(sources@[k].params, sources@[k].sheet, clips@[k]),
        decreases count - j,
    {
        match load_animation(j, &sources[j].params, &sources[j].sheet) {
            Ok(data) => clips.push(data),
            Err(error) => {
                return Err(error);
            },
        }
        names.push(sources[j].name.clone());
        j += 1;
    }
    assert(spec_views(names@) =~= spec_names(sources@));
    if !all_distinct(&names) {
        return Err(LoadError::DuplicateName);
    }
    let standing = find_name(&names, "standing");
    let forward = find_name(&names, "forward");
    let backward = find_name(&names, "backward");
    let attack = find_name(&names, "attack");
    let recoil = find_name(&names, "recoil");
    let block = find_name(&names, "block");
    match (standing, forward, backward, attack, recoil, block) {
        (Some(standing), Some(forward), Some(backward), Some(attack), Some(recoil), Some(block)) => {
            proof {
                let views = spec_views(names@);
                assert(views[standing as int] == "standing"@);
                assert(views[forward as int] == "forward"@);
                assert(views[backward as int] == "backward"@);
                assert(views[attack as int] == "attack"@);
                assert(views[recoil as int] == "recoil"@);
                assert(views[block as int] == "block"@);
            }
            Ok(Animations::assemble(names, clips, standing, forward, backward, attack, recoil, block))
        },
        _ => Err(LoadError::MissingAnimation),
    }
}

} // verus!
