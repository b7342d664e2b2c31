//! Pictures that show the number of a slot: one for each slot, kept in a cache.
use crate::text::{decimal, decimal_of, join_path, path_in};
use image::{ImageBuffer, Rgba};
use vstd::prelude::*;
use vstd::string::*;

verus! {

/// Width and height of a picture.
pub const IMAGE_SIZE: u32 = 512;

/// There is no slot of this number.
#[derive(Debug, Clone, Copy, PartialEq, Eq, Structural)]
pub struct InvalidSlot {
    pub slot_num: usize,
}

impl InvalidSlot {
    /// The error in words.
    pub fn message(&self) -> (r: String)
        ensures
            r@ == "Invalid slot number: "@ + decimal_of(self.slot_num as nat) + " (must be 1-8)"@,
    {
        "Invalid slot number: ".to_owned().concat(decimal(self.slot_num as u64).as_str()).concat(
            " (must be 1-8)",
        )
    }
}

/// The file that shows the number of a slot.
pub open spec fn image_name_of(slot_num: nat) -> Seq<char> {
    "slot_"@ + decimal_of(slot_num) + ".png"@
}

/// The file that shows the number of a slot.
pub fn image_name(slot_num: usize) -> (r: String)
    ensures
        r@ == image_name_of(slot_num as nat),
{
    "slot_".to_owned().concat(decimal(slot_num as u64).as_str()).concat(".png")
}

/// Whether slot `k + 1` has its picture.
pub open spec fn is_present(present: Seq<bool>, k: int) -> bool {
    k < present.len() && present[k]
}

/// Whether every slot from 1 to 8 has its picture.
pub open spec fn all_present(present: Seq<bool>) -> bool {
    forall|k: int| 0 <= k < 8 ==> #[trigger] is_present(present, k)
}

/// The slots whose pictures are to be drawn: none where all are there, and else all of them.
pub fn ensure_slot_images(present: &[bool]) -> (r: Vec<usize>)
    ensures
        all_present(present@) ==> r@.len() == 0,
        !all_present(present@) ==> r@ == Seq::new(8, |k: int| (k + 1) as usize),
{
    let mut missing: Vec<usize> = Vec::new();
    let mut all = true;
    let mut i: usize = 0;
    while i < 8
        invariant
            i <= 8,
            all == (forall|k: int| 0 <= k < i ==> #[trigger] is_present(present@, k)),
        decreases 8 - i,
    {
        if i >= present.len() || !present[i] {
            assert(!is_present(present@, i as int));
            all = false;
        }
        i = i + 1;
    }
    if !all {
        let ghost wanted = Seq::new(8, |k: int| (k + 1) as usize);
        let mut n: usize = 0;
        while n < 8
            invariant
                n <= 8,
                wanted == Seq::new(8, |k: int| (k + 1) as usize),
                missing@ =~= wanted.take(n as int),
            decreases 8 - n,
        {
            missing.push(n + 1);
            n = n + 1;
        }
        assert(wanted.take(8) =~= wanted);
    }
    missing
}

/// The path of the picture of a slot in the cache.
pub fn get_slot_image_path(slot_num: usize, cache_dir: &str) -> (r: Result<String, InvalidSlot>)
    ensures
        r is Ok <==> 1 <= slot_num <= 8,
        r matches Ok(path) ==> path@ == path_in(cache_dir@, image_name_of(slot_num as nat)),
        r matches Err(e) ==> e.slot_num == slot_num,
{
    if slot_num < 1 || slot_num > 8 {
        return Err(InvalidSlot { slot_num });
    }
    Ok(join_path(cache_dir, image_name(slot_num).as_str()))
}

/// Where a dot of the digit comes to stand, if it is in the picture.
pub open spec fn dot_at(x: int, y: int, x_offset: int, y_offset: int) -> Option<(int, int)> {
    if 0 <= x + x_offset < 512 && 0 <= y + y_offset < 512 {
        Some((x + x_offset, y + y_offset))
    } else {
        None
    }
}

/// Where a dot of the digit comes to stand, if it is in the picture.
pub fn place_dot(x: u32, y: u32, x_offset: i32, y_offset: i32) -> (r: Option<(u32, u32)>)
    ensures
        r matches Some((px, py)) ==> dot_at(x as int, y as int, x_offset as int, y_offset as int)
            == Some((px as int, py as int)),
        r is None ==> dot_at(x as int, y as int, x_offset as int, y_offset as int) is None,
{
    let px = x as i64 + x_offset as i64;
    let py = y as i64 + y_offset as i64;
    if 0 <= px && px < IMAGE_SIZE as i64 && 0 <= py && py < IMAGE_SIZE as i64 {
        Some((px as u32, py as u32))
    } else {
        None
    }
}

/// A picture, kept as an `image::RgbaImage`. What it shows is `canvas_pixels`.
#[verifier::external_body]
pub struct Canvas {
    image: image::RgbaImage,
}

/// Red, green, blue and opacity at each place of a picture.
pub uninterp spec fn canvas_pixels(c: Canvas) -> Map<(u32, u32), (u8, u8, u8, u8)>;

/// Width and height of a picture.
pub uninterp spec fn canvas_size(c: Canvas) -> (u32, u32);

/// A picture of one colour.
pub open spec fn plain_pixels(width: u32, height: u32, pixel: (u8, u8, u8, u8)) -> Map<
    (u32, u32),
    (u8, u8, u8, u8),
> {
    Map::new(|p: (u32, u32)| p.0 < width && p.1 < height, |p: (u32, u32)| pixel)
}

/// One of the four bytes of a pixel.
pub open spec fn channel(pixel: (u8, u8, u8, u8), k: int) -> u8 {
    if k == 0 {
        pixel.0
    } else if k == 1 {
        pixel.1
    } else if k == 2 {
        pixel.2
    } else {
        pixel.3
    }
}

/// The bytes of a picture: row by row, four for each pixel.
pub open spec fn raster(
    pixels: Map<(u32, u32), (u8, u8, u8, u8)>,
    width: u32,
    height: u32,
) -> Seq<u8> {
    Seq::new(
        (4 * width * height) as nat,
        |i: int|
            channel(pixels[((i / 4 % (width as int)) as u32, (i / 4 / (width as int)) as u32)], i % 4),
    )
}

/// `ImageBuffer::from_pixel`: a picture that shows `pixel` at every place.
#[verifier::external_body]
fn plain_canvas(width: u32, height: u32, pixel: (u8, u8, u8, u8)) -> (r: Canvas)
    requires
        4 * width * height <= i32::MAX,
    ensures
        canvas_pixels(r) == plain_pixels(width, height, pixel),
        canvas_size(r) == (width, height),
{
    let (red, green, blue, alpha) = pixel;
    Canvas { image: ImageBuffer::from_pixel(width, height, Rgba([red, green, blue, alpha])) }
}

/// `ImageBuffer::put_pixel`: changes the pixel at one place, which must be in the
/// picture, and nothing else.
#[verifier::external_body]
fn put_pixel(canvas: &mut Canvas, x: u32, y: u32, pixel: (u8, u8, u8, u8))
    requires
        x < canvas_size(*old(canvas)).0,
        y < canvas_size(*old(canvas)).1,
    ensures
        canvas_pixels(*final(canvas)) == canvas_pixels(*old(canvas)).insert((x, y), pixel),
        canvas_size(*final(canvas)) == canvas_size(*old(canvas)),
{
    let (red, green, blue, alpha) = pixel;
    canvas.image.put_pixel(x, y, Rgba([red, green, blue, alpha]));
}

/// `ImageBuffer::into_raw`: the bytes of the picture, row by row.
#[verifier::external_body]
fn into_raw(canvas: Canvas) -> (r: Vec<u8>)
    ensures
        r@ == raster(canvas_pixels(canvas), canvas_size(canvas).0, canvas_size(canvas).1),
{
    canvas.image.into_raw()
}

/// A dot of a digit, and how much of it the digit covers.
#[derive(Debug, Clone, Copy, PartialEq, Eq, Structural)]
pub struct Dot {
    pub x: u32,
    pub y: u32,
    pub alpha: u8,
}

/// The picture that `dots` make on a transparent ground, each white where it is in
/// the picture. Of two dots at one place the later one counts.
pub open spec fn painted(dots: Seq<Dot>, x_offset: int, y_offset: int) -> Map<
    (u32, u32),
    (u8, u8, u8, u8),
>
    decreases dots.len(),
{
    if dots.len() == 0 {
        plain_pixels(512, 512, (0, 0, 0, 0))
    } else {
        let before = painted(dots.drop_last(), x_offset, y_offset);
        let dot = dots.last();
        match dot_at(dot.x as int, dot.y as int, x_offset, y_offset) {
            Some((px, py)) => before.insert((px as u32, py as u32), (255, 255, 255, dot.alpha)),
            None => before,
        }
    }
}

/// Draws a digit: the bytes of a picture of `IMAGE_SIZE` by `IMAGE_SIZE` pixels.
pub fn generate_slot_image(dots: &Vec<Dot>, x_offset: i32, y_offset: i32) -> (r: Vec<u8>)
    ensures
        r@ == raster(painted(dots@, x_offset as int, y_offset as int), 512, 512),
{
    let mut canvas = plain_canvas(IMAGE_SIZE, IMAGE_SIZE, (0, 0, 0, 0));
    let mut i: usize = 0;
    assert(dots@.take(0) =~= Seq::<Dot>::empty());
    while i < dots.len()
        invariant
            i <= dots@.len(),
            canvas_size(canvas) == (512u32, 512u32),
            canvas_pixels(canvas) == painted(
                dots@.take(i as int),
                x_offset as int,
                y_offset as int,
            ),
        decreases dots@.len() - i,
    {
        let dot = dots[i];
        proof {
            assert(dots@.take(i + 1).drop_last() =~= dots@.take(i as int));
        }
        if let Some((px, py)) = place_dot(dot.x, dot.y, x_offset, y_offset) {
            put_pixel(&mut canvas, px, py, (255, 255, 255, dot.alpha));
        }
        i = i + 1;
    }
    assert(dots@.take(i as int) =~= dots@);
    into_raw(canvas)
}

/// Every place of the picture is transparent, or white as far as a dot covers it.
pub proof fn lemma_pictures_are_white_on_transparent(
    dots: Seq<Dot>,
    x_offset: int,
    y_offset: int,
    place: (u32, u32),
)
    requires
        place.0 < 512,
        place.1 < 512,
    ensures
        ({
            let pixels = painted(dots, x_offset, y_offset);
            &&& pixels.dom().contains(place)
            &&& pixels[place] == (0u8, 0u8, 0u8, 0u8) || exists|i: int|
                0 <= i < dots.len() && dot_at(
                    (#[trigger] dots[i]).x as int,
                    dots[i].y as int,
                    x_offset,
                    y_offset,
                ) == Some((place.0 as int, place.1 as int)) && pixels[place] == (
                    255u8,
                    255u8,
                    255u8,
                    dots[i].alpha,
                )
        }),
    decreases dots.len(),
{
    if dots.len() > 0 {
        let rest = dots.drop_last();
        let last = dots.len() - 1;
        lemma_pictures_are_white_on_transparent(rest, x_offset, y_offset, place);
        let before = painted(rest, x_offset, y_offset);
        let pixels = painted(dots, x_offset, y_offset);
        if dot_at(dots[last].x as int, dots[last].y as int, x_offset, y_offset) == Some(
            (place.0 as int, place.1 as int),
        ) {
            assert(pixels[place] == (255u8, 255u8, 255u8, dots[last].alpha));
        } else {
            assert(pixels[place] == before[place]);
            if before[place] != (0u8, 0u8, 0u8, 0u8) {
                let i = choose|i: int|
                    0 <= i < rest.len() && dot_at(
                        (#[trigger] rest[i]).x as int,
                        rest[i].y as int,
                        x_offset,
                        y_offset,
                    ) == Some((place.0 as int, place.1 as int)) && before[place] == (
                        255u8,
                        255u8,
                        255u8,
                        rest[i].alpha,
                    );
                assert(dots[i] == rest[i]);
            }
        }
    }
}

/// Every slot has a picture of its own.
pub proof fn lemma_image_names_differ(a: nat, b: nat)
    requires
        image_name_of(a) == image_name_of(b),
    ensures
        a == b,
{
    let name = image_name_of(a);
    let n = "slot_"@.len() as int;
    let m = name.len() - ".png"@.len();
    assert(name.subrange(n, m) =~= decimal_of(a));
    assert(image_name_of(b).subrange(n, m) =~= decimal_of(b));
    crate::text::lemma_decimal_injective(a, b);
}

/// Where a dot stands: as far from its place in the digit as the digit is from the
/// corner of the picture, and nowhere where that is outside.
pub proof fn lemma_dots_are_moved(x: int, y: int, x_offset: int, y_offset: int)
    ensures
        dot_at(x, y, x_offset, y_offset) is Some <==> 0 <= x + x_offset < 512 && 0 <= y + y_offset
            < 512,
        dot_at(x, y, x_offset, y_offset) matches Some((px, py)) ==> px - x == x_offset && py - y
            == y_offset,
{
}

/// Drawing one dot changes the place where it stands, to white as far as it covers it,
/// and no other place. Nothing drawn is transparent everywhere.
pub proof fn lemma_dots_are_drawn_one_by_one(
    dots: Seq<Dot>,
    dot: Dot,
    x_offset: int,
    y_offset: int,
    place: (u32, u32),
)
    requires
        place.0 < 512,
        place.1 < 512,
    ensures
        dot.x + x_offset == place.0 && dot.y + y_offset == place.1 ==> painted(
            dots.push(dot),
            x_offset,
            y_offset,
        )[place] == (255u8, 255u8, 255u8, dot.alpha),
        !(dot.x + x_offset == place.0 && dot.y + y_offset == place.1) ==> painted(
            dots.push(dot),
            x_offset,
            y_offset,
        )[place] == painted(dots, x_offset, y_offset)[place],
        painted(Seq::empty(), x_offset, y_offset)[place] == (0u8, 0u8, 0u8, 0u8),
{
    assert(dots.push(dot).drop_last() =~= dots);
}

/// The pixel at a place makes four bytes of the picture, red, green, blue and opacity,
/// behind those of all rows above and of all places to its left.
pub proof fn lemma_pixels_in_the_bytes(
    pixels: Map<(u32, u32), (u8, u8, u8, u8)>,
    width: u32,
    height: u32,
    x: u32,
    y: u32,
)
    requires
        x < width,
        y < height,
    ensures
        ({
            let bytes = raster(pixels, width, height);
            let i = 4 * (y * width + x);
            &&& bytes.len() == 4 * width * height
            &&& 0 <= i && i + 4 <= bytes.len()
            &&& bytes[i] == pixels[(x, y)].0
            &&& bytes[i + 1] == pixels[(x, y)].1
            &&& bytes[i + 2] == pixels[(x, y)].2
            &&& bytes[i + 3] == pixels[(x, y)].3
        }),
{
    let w = width as int;
    let n = y * w + x;
    assert(n < w * height) by (nonlinear_arith)
        requires
            n == y * w + x,
            0 <= x < w,
            0 <= y < height,
    ;
    assert(0 <= n) by (nonlinear_arith)
        requires
            n == y * w + x,
            0 <= x < w,
            0 <= y,
    ;
    assert(4 * w * height == 4 * (w * height)) by (nonlinear_arith);
    vstd::arithmetic::div_mod::lemma_fundamental_div_mod_converse(n, w, y as int, x as int);
    assert((4 * n) / 4 == n && (4 * n + 1) / 4 == n && (4 * n + 2) / 4 == n && (4 * n + 3) / 4
        == n);
}

/// The picture of a slot is called by its number.
pub proof fn lemma_image_names_hold_the_number(slot_num: usize)
    ensures
        ({
            let name = image_name_of(slot_num as nat);
            let n = "slot_"@.len() as int;
            let m = name.len() - ".png"@.len();
            &&& name.subrange(0, n) == "slot_"@
            &&& crate::text::usize_of(name.subrange(n, m)) == Some(slot_num)
            &&& name.subrange(m, name.len() as int) == ".png"@
        }),
{
    let name = image_name_of(slot_num as nat);
    let n = "slot_"@.len() as int;
    let m = name.len() - ".png"@.len();
    crate::text::lemma_decimal_reads_back(slot_num);
    assert(name.subrange(0, n) =~= "slot_"@);
    assert(name.subrange(n, m) =~= decimal_of(slot_num as nat));
    assert(name.subrange(m, name.len() as int) =~= ".png"@);
}

/// All pictures are there exactly where each of the eight is.
pub proof fn lemma_when_all_pictures_are_there(present: Seq<bool>)
    ensures
        all_present(present) <==> present.len() >= 8 && present[0] && present[1] && present[2]
            && present[3] && present[4] && present[5] && present[6] && present[7],
{
    if all_present(present) {
        assert(is_present(present, 0) && is_present(present, 1) && is_present(present, 2)
            && is_present(present, 3) && is_present(present, 4) && is_present(present, 5)
            && is_present(present, 6) && is_present(present, 7));
    }
}

} // verus!
