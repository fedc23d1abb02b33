//! The pixel loop: one primary ray for each pixel, shaded and stored.
use crate::gamma::lemma_gamma_level_ends;
use crate::raster::{blank_rgb8, grid, holds_rgb8, image_pixels, put_pixel};
use crate::shading::{radiance, recurse_ray};
use crate::world::{Ray, Scene};
use image::DynamicImage;
use vstd::prelude::*;

verus! {

/// The four channels of pixel `(x, y)` of the picture of `scene`: the light
/// that comes back along the primary ray, with the scene's number of bounces,
/// converted for display, and full opacity.
pub open spec fn pixel(scene: Scene, x: u32, y: u32) -> Seq<u8> {
    let ray = Ray {
        origin: &scene.camera.position,
        direction: scene.camera.aim(x, y, scene.width, scene.height),
    };
    let levels = radiance(scene, ray, scene.max_reflections as nat).display();
    seq![levels.0, levels.1, levels.2, 255u8]
}

/// A scene that allows no bounce shows black at every pixel.
pub proof fn lemma_no_bounce_is_black(scene: Scene, x: u32, y: u32)
    requires
        scene.max_reflections == 0,
    ensures
        pixel(scene, x, y) == seq![0u8, 0u8, 0u8, 255u8],
{
    lemma_gamma_level_ends(0);
}

/// Whether `img` holds the picture of `scene` at every pixel of the columns
/// before `x`, and of column `x` above row `y`; elsewhere it may hold
/// anything.
pub open spec fn drawn_upto(scene: Scene, img: DynamicImage, x: int, y: int) -> bool {
    forall|a: int, b: int|
        0 <= a < scene.width && 0 <= b < scene.height && (a < x || (a == x && b < y))
            ==> #[trigger] image_pixels(img)[(a, b)] == pixel(scene, a as u32, b as u32)
}

/// Renders `scene` into an image of its width and height, column by column.
/// The three bytes of each pixel must together fit one buffer.
pub fn render(scene: &Scene) -> (img: DynamicImage)
    requires
        3 * scene.width * scene.height <= isize::MAX,
    ensures
        holds_rgb8(img),
        image_pixels(img).dom() == grid(scene.width as int, scene.height as int),
        forall|x: int, y: int|
            0 <= x < scene.width && 0 <= y < scene.height ==> #[trigger] image_pixels(img)[(x, y)]
                == pixel(*scene, x as u32, y as u32),
{
    let mut img: DynamicImage = blank_rgb8(scene.width, scene.height);
    let mut x: u32 = 0;
    while x < scene.width
        invariant
            x <= scene.width,
            holds_rgb8(img),
            image_pixels(img).dom() == grid(scene.width as int, scene.height as int),
            drawn_upto(*scene, img, x as int, 0),
        decreases scene.width - x,
    {
        let mut y: u32 = 0;
        while y < scene.height
            invariant
                x < scene.width,
                y <= scene.height,
                holds_rgb8(img),
                image_pixels(img).dom() == grid(scene.width as int, scene.height as int),
                drawn_upto(*scene, img, x as int, y as int),
            decreases scene.height - y,
        {
            let ray: Ray = scene.camera.create_prime(x, y, scene);
            let colour = recurse_ray(&ray, scene, scene.max_reflections);
            let ghost before = image_pixels(img);
            put_pixel(&mut img, x, y, colour.to_rgba());
            assert(image_pixels(img).dom() =~= before.dom());
            y = y + 1;
        }
        x = x + 1;
    }
    img
}

} // verus!
