//! The world: its size, its background and its entities, and the compositor
//! that paints it into a frame buffer.

use vstd::prelude::*;

use crate::color::{color_bytes, decode, is_color_text};
use crate::config::Config;
use crate::entity::{Entity, EntityType};

verus! {

broadcast use vstd::arithmetic::div_mod::lemma_multiply_divide_lt;

/// A decoded picture: `width` by `height` pixels, stored row by row, each as
/// red, green, blue and alpha.
#[derive(Debug)]
pub struct Raster {
    pub width: u32,
    pub height: u32,
    pub pixels: Vec<[u8; 4]>,
}

impl Raster {
    /// The pixel grid holds exactly `width * height` pixels.
    pub open spec fn wf(self) -> bool {
        self.pixels@.len() == self.width * self.height
    }

    /// Whether `(x, y)` is a pixel of the picture.
    pub open spec fn holds(self, x: int, y: int) -> bool {
        0 <= x < self.width && 0 <= y < self.height
    }

    pub open spec fn pixel(self, x: int, y: int) -> [u8; 4] {
        self.pixels@[y * self.width + x]
    }

    /// Reads the pixel at `(x, y)`.
    pub fn get_pixel(&self, x: u32, y: u32) -> (p: [u8; 4])
        requires
            self.wf(),
            self.holds(x as int, y as int),
        ensures
            p == self.pixel(x as int, y as int),
    {
        let len = self.pixels.len();
        assert(y as int * self.width + x < self.width * self.height) by (nonlinear_arith)
            requires
                x < self.width,
                y < self.height,
        ;
        self.pixels[(y as usize) * (self.width as usize) + (x as usize)]
    }
}

/// The decoded pictures a world refers to, each under its path.
#[derive(Debug)]
pub struct ImageCache {
    pub entries: Vec<(String, Raster)>,
}

/// The position of the first entry under `path` among the first `n` entries.
pub open spec fn first_entry(entries: Seq<(String, Raster)>, path: Seq<char>, n: int) -> Option<
    int,
>
    decreases n,
{
    if n <= 0 {
        None
    } else {
        match first_entry(entries, path, n - 1) {
            Some(j) => Some(j),
            None => if entries[n - 1].0@ == path {
                Some(n - 1)
            } else {
                None
            },
        }
    }
}

impl ImageCache {
    pub open spec fn wf(self) -> bool {
        forall|j: int| 0 <= j < self.entries@.len() ==> (#[trigger] self.entries@[j]).1.wf()
    }

    /// The picture stored under `path`; the first one if there are several.
    pub open spec fn lookup(self, path: Seq<char>) -> Option<Raster> {
        match first_entry(self.entries@, path, self.entries@.len() as int) {
            Some(j) => Some(self.entries@[j].1),
            None => None,
        }
    }

    pub fn new() -> (c: ImageCache)
        ensures
            c.entries@.len() == 0,
            c.wf(),
    {
        ImageCache { entries: Vec::new() }
    }

    /// Stores a picture under a path.
    pub fn insert(&mut self, path: String, image: Raster)
        requires
            old(self).wf(),
            image.wf(),
        ensures
            final(self).entries@ == old(self).entries@.push((path, image)),
            final(self).wf(),
    {
        self.entries.push((path, image));
    }

    /// Finds the picture stored under `path`.
    pub fn get(&self, path: &String) -> (r: Option<&Raster>)
        ensures
            r matches Some(img) ==> self.lookup(path@) == Some(*img) && (self.wf() ==> img.wf()),
            r is None ==> self.lookup(path@) is None,
    {
        let n = self.entries.len();
        let mut i: usize = 0;
        while i < n
            invariant
                i <= n,
                n == self.entries@.len(),
                first_entry(self.entries@, path@, i as int) is None,
            decreases n - i,
        {
            if self.entries[i].0 == *path {
                proof {
                    lemma_first_entry_settled(self.entries@, path@, i as int + 1, n as int);
                }
                return Some(&self.entries[i].1);
            }
            i = i + 1;
        }
        None
    }
}

proof fn lemma_first_entry_settled(
    entries: Seq<(String, Raster)>,
    path: Seq<char>,
    m: int,
    n: int,
)
    requires
        0 <= m <= n,
        first_entry(entries, path, m) is Some,
    ensures
        first_entry(entries, path, n) == first_entry(entries, path, m),
    decreases n - m,
{
    if m < n {
        lemma_first_entry_settled(entries, path, m, n - 1);
    }
}

/// Why a frame could not be drawn.
#[derive(Clone, Copy, Debug, PartialEq, Eq, Structural)]
pub enum DrawError {
    /// The color text that shows at a pixel is not eight hexadecimal digits.
    BadColor,
    /// A path of the world or of an entity has no picture in the cache.
    MissingImage,
    /// A pixel outside a picture's grid was asked for.
    OutsideImage,
}

/// Which layer shows at a pixel: the world's plain color, the color of an
/// entity (by index), or a pixel read from a picture.
#[derive(Clone, Copy, Debug)]
pub enum Layer {
    Background,
    Entity(usize),
    Sample([u8; 4]),
}

/// The pixel at `(x, y)` of the picture stored under `path`.
pub open spec fn sample(images: ImageCache, path: Seq<char>, x: int, y: int) -> Result<
    [u8; 4],
    DrawError,
> {
    match images.lookup(path) {
        None => Err(DrawError::MissingImage),
        Some(img) => if img.holds(x, y) {
            Ok(img.pixel(x, y))
        } else {
            Err(DrawError::OutsideImage)
        },
    }
}

/// The four channels of color text.
pub open spec fn text_rgba(s: Seq<char>) -> Result<Seq<u8>, DrawError> {
    if is_color_text(s) {
        Ok(color_bytes(s))
    } else {
        Err(DrawError::BadColor)
    }
}

impl World {
    /// The number of pixels in a frame.
    pub open spec fn pixel_count(self) -> int {
        self.width * self.height
    }

    /// The column of pixel `i` in row-major order.
    pub open spec fn column(self, i: int) -> int {
        i % (self.width as int)
    }

    /// The row of pixel `i` in row-major order.
    pub open spec fn row(self, i: int) -> int {
        i / (self.width as int)
    }

    /// Entity `k` covers pixel `i`.
    pub open spec fn covers_pixel(self, k: int, i: int) -> bool {
        self.entities@[k].covers(self.column(i), self.row(i))
    }

    /// The first of the pixels `0 .. n` that entity `k` covers, if any.
    pub open spec fn first_cover(self, k: int, n: int) -> Option<int>
        decreases n,
    {
        if n <= 0 {
            None
        } else {
            match self.first_cover(k, n - 1) {
                Some(j) => Some(j),
                None => if self.covers_pixel(k, n - 1) {
                    Some(n - 1)
                } else {
                    None
                },
            }
        }
    }

    /// The anchor of entity `k` when drawing pixel `i`: the first pixel in scan
    /// order that the entity covers.
    pub open spec fn anchor(self, k: int, i: int) -> int {
        match self.first_cover(k, i + 1) {
            Some(j) => j,
            None => i,
        }
    }

    /// The layer behind all entities at pixel `i`.
    pub open spec fn background_layer(self, images: ImageCache, i: int) -> Result<Layer, DrawError> {
        match self.world_type {
            WorldType::Color => Ok(Layer::Background),
            WorldType::Image(path, w, h) => if self.column(i) < w && self.row(i) < h {
                match sample(images, path@, self.column(i), self.row(i)) {
                    Ok(p) => Ok(Layer::Sample(p)),
                    Err(e) => Err(e),
                }
            } else {
                Ok(Layer::Background)
            },
        }
    }

    /// The layer that shows at pixel `i` once entities `0 .. k` are drawn
    /// over the background. An entity that covers the pixel replaces it with
    /// its color; a picture entity with its pixel at the same offset from
    /// its anchor, unless that pixel is fully transparent.
    pub open spec fn layer_after(self, images: ImageCache, i: int, k: int) -> Result<
        Layer,
        DrawError,
    >
        decreases k,
    {
        if k <= 0 {
            self.background_layer(images, i)
        } else {
            match self.layer_after(images, i, k - 1) {
                Err(e) => Err(e),
                Ok(below) => if !self.covers_pixel(k - 1, i) {
                    Ok(below)
                } else {
                    match self.entities@[k - 1].entity_type {
                        EntityType::Image(path, _, _) => {
                            let a = self.anchor(k - 1, i);
                            match sample(
                                images,
                                path@,
                                self.column(i) - self.column(a),
                                self.row(i) - self.row(a),
                            ) {
                                Err(e) => Err(e),
                                Ok(p) => if p[3] == 0 {
                                    Ok(below)
                                } else {
                                    Ok(Layer::Sample(p))
                                },
                            }
                        },
                        _ => Ok(Layer::Entity((k - 1) as usize)),
                    }
                },
            }
        }
    }

    /// The four channels a layer paints.
    pub open spec fn layer_rgba(self, layer: Layer) -> Result<Seq<u8>, DrawError> {
        match layer {
            Layer::Background => text_rgba(self.background_rgba_hex@),
            Layer::Entity(k) => text_rgba(self.entities@[k as int].rgba_hex@),
            Layer::Sample(p) => Ok(p@),
        }
    }

    /// The color of pixel `i` in a frame, red first.
    pub open spec fn pixel_rgba(self, images: ImageCache, i: int) -> Result<Seq<u8>, DrawError> {
        match self.layer_after(images, i, self.entities@.len() as int) {
            Err(e) => Err(e),
            Ok(layer) => self.layer_rgba(layer),
        }
    }

    /// Every pixel of a frame gets a color.
    pub open spec fn drawable(self, images: ImageCache) -> bool {
        forall|i: int| 0 <= i < self.pixel_count() ==> (#[trigger] self.pixel_rgba(images, i)) is Ok
    }


    /// Resolves a layer to its four channels.
    fn layer_color(&self, layer: Layer) -> (r: Result<[u8; 4], DrawError>)
        requires
            layer matches Layer::Entity(k) ==> k < self.entities@.len(),
        ensures
            rgba_result(r) == self.layer_rgba(layer),
    {
        match layer {
            Layer::Background => match decode(self.background_rgba_hex.as_str()) {
                Ok(p) => Ok(p),
                Err(_) => Err(DrawError::BadColor),
            },
            Layer::Entity(k) => match decode(self.entities[k].rgba_hex.as_str()) {
                Ok(p) => Ok(p),
                Err(_) => Err(DrawError::BadColor),
            },
            Layer::Sample(p) => Ok(p),
        }
    }

    proof fn lemma_first_cover_range(self, k: int, n: int)
        ensures
            self.first_cover(k, n) matches Some(j) ==> 0 <= j < n,
        decreases n,
    {
        if n > 0 {
            self.lemma_first_cover_range(k, n - 1);
        }
    }

    proof fn lemma_error_stays(self, images: ImageCache, i: int, k: int, m: int)
        requires
            0 <= k <= m,
            self.layer_after(images, i, k) is Err,
        ensures
            self.layer_after(images, i, m) == self.layer_after(images, i, k),
        decreases m - k,
    {
        if k < m {
            self.lemma_error_stays(images, i, k, m - 1);
        }
    }

    /// Paints the world into `frame`, four bytes per pixel (red, green, blue,
    /// alpha), row by row. Each pixel starts from the background (the plain
    /// color, or the background picture inside its declared region) and
    /// every entity that covers it is drawn over it in order. The world's own
    /// width decides where rows break. The first pixel whose color cannot be
    /// had stops the frame with its error.
    pub fn draw(&self, frame: &mut [u8], _config: &Config, images: &ImageCache) -> (r: Result<
        (),
        DrawError,
    >)
        requires
            self.width > 0,
            self.height > 0,
            old(frame)@.len() == self.pixel_count() * 4,
            images.wf(),
        ensures
            final(frame)@.len() == old(frame)@.len(),
            r is Ok <==> self.drawable(*images),
            r is Ok ==> forall|i: int|
                0 <= i < self.pixel_count() ==> #[trigger] self.pixel_rgba(*images, i) == Ok::<
                    Seq<u8>,
                    DrawError,
                >(frame_pixel(final(frame)@, i)),
            r matches Err(e) ==> exists|i: int|
                0 <= i < self.pixel_count() && #[trigger] self.pixel_rgba(*images, i) == Err::<
                    Seq<u8>,
                    DrawError,
                >(e) && forall|j: int|
                    0 <= j < i ==> (#[trigger] self.pixel_rgba(*images, j)) is Ok,
    {
        let w = self.width as usize;
        let h = self.height as usize;
        let flen = frame.len();
        assert(w * h <= frame@.len()) by (nonlinear_arith)
            requires
                frame@.len() == w * h * 4,
        ;
        let n = w * h;
        let ne = self.entities.len();
        let mut anchors: Vec<Option<usize>> = Vec::new();
        while anchors.len() < ne
            invariant
                anchors@.len() <= ne,
                forall|k: int| 0 <= k < anchors@.len() ==> (#[trigger] anchors@[k]) is None,
            decreases ne - anchors@.len(),
        {
            anchors.push(None);
        }
        let mut i: usize = 0;
        while i < n
            invariant
                i <= n,
                n == self.pixel_count(),
                n * 4 <= usize::MAX,
                w == self.width,
                h == self.height,
                ne == self.entities@.len(),
                frame@.len() == old(frame)@.len(),
                frame@.len() == n * 4,
                images.wf(),
                anchors@.len() == ne,
                forall|k: int|
                    0 <= k < ne ==> anchor_is(#[trigger] anchors@[k], self.first_cover(k, i as int)),
                forall|j: int|
                    0 <= j < i ==> #[trigger] self.pixel_rgba(*images, j) == Ok::<Seq<u8>, DrawError>(
                        frame_pixel(frame@, j),
                    ),
            decreases n - i,
        {
            let x = i % w;
            let y = i / w;
            proof {
                vstd::arithmetic::div_mod::lemma_multiply_divide_lt(i as int, w as int, h as int);
            }
            let xi = x as i32;
            let yi = y as i32;
            let mut layer: Layer = match &self.world_type {
                WorldType::Color => Layer::Background,
                WorldType::Image(path, bw, bh) => {
                    if (xi as i64) < (*bw as i64) && (yi as i64) < (*bh as i64) {
                        match sample_at(images, path, xi as i64, yi as i64) {
                            Ok(p) => Layer::Sample(p),
                            Err(e) => {
                                proof {
                                    self.lemma_error_stays(*images, i as int, 0, ne as int);
                                    assert(self.pixel_rgba(*images, i as int) == Err::<
                                        Seq<u8>,
                                        DrawError,
                                    >(e));
                                }
                                return Err(e);
                            },
                        }
                    } else {
                        Layer::Background
                    }
                },
            };
            let mut k: usize = 0;
            while k < ne
                invariant
                    k <= ne,
                    i < n,
                    frame@.len() == old(frame)@.len(),
                    frame@.len() == n * 4,
                    n * 4 <= usize::MAX,
                    n == self.pixel_count(),
                    w == self.width,
                    x == self.column(i as int),
                    y == self.row(i as int),
                    xi == x,
                    yi == y,
                    ne == self.entities@.len(),
                    images.wf(),
                    anchors@.len() == ne,
                    forall|m: int|
                        0 <= m < k ==> anchor_is(
                            #[trigger] anchors@[m],
                            self.first_cover(m, i as int + 1),
                        ),
                    forall|m: int|
                        k <= m < ne ==> anchor_is(#[trigger] anchors@[m], self.first_cover(m, i as int)),
                    self.layer_after(*images, i as int, k as int) == Ok::<Layer, DrawError>(layer),
                    layer matches Layer::Entity(q) ==> q < ne,
                    forall|j: int| 0 <= j < i ==> (#[trigger] self.pixel_rgba(*images, j)) is Ok,
                decreases ne - k,
            {
                let entity = &self.entities[k];
                if entity.is_within_entity(xi, yi) {
                    proof {
                        self.lemma_first_cover_range(k as int, i as int);
                    }
                    let a: usize = match anchors[k] {
                        Some(a) => a,
                        None => {
                            anchors.set(k, Some(i));
                            i
                        },
                    };
                    assert(a <= i);
                    match &entity.entity_type {
                        EntityType::Image(path, _, _) => {
                            let sx = (x as i64) - ((a % w) as i64);
                            let sy = (y as i64) - ((a / w) as i64);
                            match sample_at(images, path, sx, sy) {
                                Ok(p) => {
                                    if p[3] != 0 {
                                        layer = Layer::Sample(p);
                                    }
                                },
                                Err(e) => {
                                    proof {
                                        self.lemma_error_stays(
                                            *images,
                                            i as int,
                                            k as int + 1,
                                            ne as int,
                                        );
                                        assert(self.pixel_rgba(*images, i as int) == Err::<
                                            Seq<u8>,
                                            DrawError,
                                        >(e));
                                    }
                                    return Err(e);
                                },
                            }
                        },
                        _ => {
                            layer = Layer::Entity(k);
                        },
                    }
                }
                k = k + 1;
            }
            let c = match self.layer_color(layer) {
                Ok(c) => c,
                Err(e) => {
                    assert(self.pixel_rgba(*images, i as int) == Err::<Seq<u8>, DrawError>(e));
                    return Err(e);
                },
            };
            let ghost before = frame@;
            frame[4 * i] = c[0];
            frame[4 * i + 1] = c[1];
            frame[4 * i + 2] = c[2];
            frame[4 * i + 3] = c[3];
            assert(frame_pixel(frame@, i as int) =~= c@);
            assert forall|j: int| 0 <= j < i implies #[trigger] self.pixel_rgba(*images, j) == Ok::<
                Seq<u8>,
                DrawError,
            >(frame_pixel(frame@, j)) by {
                assert(frame_pixel(frame@, j) =~= frame_pixel(before, j));
            }
            i = i + 1;
        }
        Ok(())
    }
}

/// With no entities, drawing is deterministic and shows only the
/// background: any two frames that a successful draw may leave are the same,
/// and each pixel holds the background's color (the plain color, or the
/// background picture inside its region).
pub proof fn lemma_background_only_frames(
    world: World,
    images: ImageCache,
    first: Seq<u8>,
    second: Seq<u8>,
)
    requires
        world.entities@.len() == 0,
        first.len() == world.pixel_count() * 4,
        second.len() == world.pixel_count() * 4,
        forall|i: int|
            0 <= i < world.pixel_count() ==> #[trigger] world.pixel_rgba(images, i) == Ok::<
                Seq<u8>,
                DrawError,
            >(frame_pixel(first, i)),
        forall|i: int|
            0 <= i < world.pixel_count() ==> #[trigger] world.pixel_rgba(images, i) == Ok::<
                Seq<u8>,
                DrawError,
            >(frame_pixel(second, i)),
    ensures
        first == second,
        forall|i: int|
            0 <= i < world.pixel_count() ==> match #[trigger] world.background_layer(images, i) {
                Ok(layer) => world.layer_rgba(layer) == Ok::<Seq<u8>, DrawError>(
                    frame_pixel(first, i),
                ),
                Err(_) => false,
            },
        world.world_type is Color ==> forall|i: int|
            0 <= i < world.pixel_count() ==> text_rgba(world.background_rgba_hex@) == Ok::<
                Seq<u8>,
                DrawError,
            >(#[trigger] frame_pixel(first, i)),
{
    assert forall|b: int| 0 <= b < first.len() implies first[b] == second[b] by {
        let i = b / 4;
        assert(0 <= i < world.pixel_count());
        assert(world.pixel_rgba(images, i) == Ok::<Seq<u8>, DrawError>(frame_pixel(first, i)));
        assert(world.pixel_rgba(images, i) == Ok::<Seq<u8>, DrawError>(frame_pixel(second, i)));
        assert(first[b] == frame_pixel(first, i)[b - 4 * i]);
        assert(second[b] == frame_pixel(second, i)[b - 4 * i]);
    }
    assert(first =~= second);
    assert forall|i: int| 0 <= i < world.pixel_count() implies match #[trigger] world.background_layer(images, i) {
        Ok(layer) => world.layer_rgba(layer) == Ok::<Seq<u8>, DrawError>(frame_pixel(first, i)),
        Err(_) => false,
    } by {
        assert(world.pixel_rgba(images, i) == Ok::<Seq<u8>, DrawError>(frame_pixel(first, i)));
    }
    if world.world_type is Color {
        assert forall|i: int| 0 <= i < world.pixel_count() implies text_rgba(
            world.background_rgba_hex@,
        ) == Ok::<Seq<u8>, DrawError>(#[trigger] frame_pixel(first, i)) by {
            assert(world.pixel_rgba(images, i) == Ok::<Seq<u8>, DrawError>(frame_pixel(first, i)));
        }
    }
}

/// Whether a recorded anchor agrees with the first covered pixel so far.
pub open spec fn anchor_is(a: Option<usize>, first: Option<int>) -> bool {
    match (a, first) {
        (None, None) => true,
        (Some(a), Some(j)) => a == j,
        _ => false,
    }
}

/// The four bytes of pixel `i` in a frame.
pub open spec fn frame_pixel(frame: Seq<u8>, i: int) -> Seq<u8> {
    frame.subrange(4 * i, 4 * i + 4)
}

pub open spec fn rgba_result(r: Result<[u8; 4], DrawError>) -> Result<Seq<u8>, DrawError> {
    match r {
        Ok(p) => Ok(p@),
        Err(e) => Err(e),
    }
}

/// Reads the pixel at `(x, y)` of the picture stored under `path`.
fn sample_at(images: &ImageCache, path: &String, x: i64, y: i64) -> (r: Result<[u8; 4], DrawError>)
    requires
        images.wf(),
    ensures
        r == sample(*images, path@, x as int, y as int),
{
    match images.get(path) {
        None => Err(DrawError::MissingImage),
        Some(img) => {
            if 0 <= x && x < img.width as i64 && 0 <= y && y < img.height as i64 {
                Ok(img.get_pixel(x as u32, y as u32))
            } else {
                Err(DrawError::OutsideImage)
            }
        },
    }
}

/// What lies behind the entities.
#[derive(Debug, PartialEq, Eq, Hash)]
pub enum WorldType {
    /// The plain background color.
    Color,
    /// An image at the world's origin: its path, width and height. Outside
    /// that region the plain background color shows.
    Image(String, i32, i32),
}

impl Clone for WorldType {
    fn clone(&self) -> (r: Self)
        ensures
            r == *self,
    {
        match self {
            WorldType::Color => WorldType::Color,
            WorldType::Image(p, w, h) => WorldType::Image(p.clone(), *w, *h),
        }
    }
}

/// A world of `width` by `height` pixels. Entities later in `entities` are
/// drawn over earlier ones.
#[derive(Debug, PartialEq, Eq, Hash)]
pub struct World {
    pub width: i32,
    pub height: i32,
    pub world_type: WorldType,
    pub background_rgba_hex: String,
    pub entities: Vec<Entity>,
}

impl World {
    /// Every entity can take its next step without leaving the `i32` range.
    pub open spec fn can_step(self, config: Config) -> bool {
        forall|k: int|
            0 <= k < self.entities@.len() ==> (#[trigger] self.entities@[k]).step_fits(
                config.world_width as int,
                config.world_height as int,
            )
    }

    /// Builds a world from a configuration, with `entity_count` entities each
    /// placed at random.
    pub fn new(config: &Config) -> (w: World)
        requires
            config.entity_count > 0 ==> config.can_place(),
        ensures
            w.width == config.world_width,
            w.height == config.world_height,
            w.world_type == config.world_type,
            w.background_rgba_hex@ == config.world_color@,
            w.entities@.len() == if config.entity_count > 0 {
                config.entity_count as int
            } else {
                0
            },
            forall|k: int|
                0 <= k < w.entities@.len() ==> (#[trigger] w.entities@[k]).placed_by(*config),
    {
        let mut entities: Vec<Entity> = Vec::new();
        let mut i: i32 = 0;
        while i < config.entity_count
            invariant
                0 <= i,
                config.entity_count > 0 ==> i <= config.entity_count,
                config.entity_count <= 0 ==> i == 0,
                config.entity_count > 0 ==> config.can_place(),
                entities@.len() == i,
                forall|k: int|
                    0 <= k < entities@.len() ==> (#[trigger] entities@[k]).placed_by(*config),
            decreases config.entity_count - i,
        {
            entities.push(Entity::new(config));
            i = i + 1;
        }
        World {
            width: config.world_width,
            height: config.world_height,
            world_type: config.world_type.clone(),
            background_rgba_hex: config.world_color.clone(),
            entities,
        }
    }

    /// Whether every entity can take its next step within the `i32` range.
    pub fn fits_next_step(&self, config: &Config) -> (r: bool)
        ensures
            r == self.can_step(*config),
    {
        let n = self.entities.len();
        let mut i: usize = 0;
        while i < n
            invariant
                i <= n,
                n == self.entities@.len(),
                forall|k: int|
                    0 <= k < i ==> (#[trigger] self.entities@[k]).step_fits(
                        config.world_width as int,
                        config.world_height as int,
                    ),
            decreases n - i,
        {
            if !self.entities[i].fits_next_step(config) {
                return false;
            }
            i = i + 1;
        }
        true
    }

    /// Moves every entity one step, in order.
    pub fn update(&mut self, config: &Config)
        requires
            old(self).can_step(*config),
        ensures
            final(self).width == old(self).width,
            final(self).height == old(self).height,
            final(self).world_type == old(self).world_type,
            final(self).background_rgba_hex == old(self).background_rgba_hex,
            final(self).entities@.len() == old(self).entities@.len(),
            forall|k: int|
                0 <= k < old(self).entities@.len() ==> #[trigger] final(self).entities@[k]
                    == old(self).entities@[k].stepped(
                    config.world_width as int,
                    config.world_height as int,
                ),
    {
        let n = self.entities.len();
        let mut i: usize = 0;
        while i < n
            invariant
                0 <= i <= n,
                n == old(self).entities@.len(),
                self.width == old(self).width,
                self.height == old(self).height,
                self.world_type == old(self).world_type,
                self.background_rgba_hex == old(self).background_rgba_hex,
                self.entities@.len() == n,
                forall|k: int|
                    0 <= k < i ==> #[trigger] self.entities@[k] == old(self).entities@[k].stepped(
                        config.world_width as int,
                        config.world_height as int,
                    ),
                forall|k: int| i <= k < n ==> #[trigger] self.entities@[k] == old(self).entities@[k],
                old(self).can_step(*config),
            decreases n - i,
        {
            assert(old(self).entities@[i as int] == self.entities@[i as int]);
            self.entities[i].update(config);
            i = i + 1;
        }
    }
}

} // verus!
