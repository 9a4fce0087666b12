use bouncy_world::cli::{parse_command, BouncyWorldWindow, Command};
use bouncy_world::config::Config;
use bouncy_world::entity::{Entity, EntityType};
use bouncy_world::save::Save;
use bouncy_world::world::{DrawError, ImageCache, Raster, World, WorldType};

fn entity(x: i32, y: i32, color: &str, t: EntityType) -> Entity {
    Entity {
        x_position: x,
        y_position: y,
        x_velocity: 0,
        y_velocity: 0,
        rgba_hex: color.to_string(),
        entity_type: t,
    }
}

fn world(width: i32, height: i32, background: &str, entities: Vec<Entity>) -> World {
    World {
        width,
        height,
        world_type: WorldType::Color,
        background_rgba_hex: background.to_string(),
        entities,
    }
}

fn pixel(frame: &[u8], width: usize, x: usize, y: usize) -> [u8; 4] {
    let i = (y * width + x) * 4;
    [frame[i], frame[i + 1], frame[i + 2], frame[i + 3]]
}

fn raster(width: u32, height: u32, pixels: Vec<[u8; 4]>) -> Raster {
    Raster { width, height, pixels }
}

#[test]
fn box_over_black_background() {
    let w = world(10, 10, "000000ff", vec![entity(2, 2, "ffffffff", EntityType::Box(3, 3))]);
    let mut frame = vec![7u8; 400];
    assert_eq!(w.draw(&mut frame, &Config::new(), &ImageCache::new()), Ok(()));
    for y in 0..10 {
        for x in 0..10 {
            let inside = (2..5).contains(&x) && (2..5).contains(&y);
            let expected = if inside { [255, 255, 255, 255] } else { [0, 0, 0, 255] };
            assert_eq!(pixel(&frame, 10, x, y), expected);
        }
    }
    assert_eq!(pixel(&frame, 10, 0, 0), [0, 0, 0, 255]);
}

#[test]
fn background_only_world_draws_the_same_twice() {
    let w = world(5, 3, "12345678", vec![]);
    let mut first = vec![0u8; 60];
    let mut second = vec![9u8; 60];
    assert_eq!(w.draw(&mut first, &Config::new(), &ImageCache::new()), Ok(()));
    assert_eq!(w.draw(&mut second, &Config::new(), &ImageCache::new()), Ok(()));
    assert_eq!(first, second);
    for i in 0..15 {
        assert_eq!(&first[i * 4..i * 4 + 4], &[0x12, 0x34, 0x56, 0x78]);
    }
}

#[test]
fn later_entities_cover_earlier_ones() {
    let w = world(
        4,
        1,
        "000000ff",
        vec![
            entity(0, 0, "ff0000ff", EntityType::Box(3, 1)),
            entity(1, 0, "00ff00ff", EntityType::Text(1, 1)),
        ],
    );
    let mut frame = vec![0u8; 16];
    assert_eq!(w.draw(&mut frame, &Config::new(), &ImageCache::new()), Ok(()));
    assert_eq!(pixel(&frame, 4, 0, 0), [255, 0, 0, 255]);
    assert_eq!(pixel(&frame, 4, 1, 0), [0, 255, 0, 255]);
    assert_eq!(pixel(&frame, 4, 2, 0), [255, 0, 0, 255]);
    assert_eq!(pixel(&frame, 4, 3, 0), [0, 0, 0, 255]);
}

#[test]
fn ball_paints_strictly_inside_its_radius() {
    let w = world(5, 5, "000000ff", vec![entity(2, 2, "ffffffff", EntityType::Ball(1))]);
    let mut frame = vec![0u8; 100];
    assert_eq!(w.draw(&mut frame, &Config::new(), &ImageCache::new()), Ok(()));
    assert_eq!(pixel(&frame, 5, 2, 2), [255, 255, 255, 255]);
    assert_eq!(pixel(&frame, 5, 3, 2), [0, 0, 0, 255]);
    assert_eq!(pixel(&frame, 5, 2, 1), [0, 0, 0, 255]);
}

#[test]
fn transparent_image_pixel_leaves_the_color_below() {
    let red = [255, 0, 0, 255];
    let clear = [9, 9, 9, 0];
    let mut images = ImageCache::new();
    images.insert("sprite.png".to_string(), raster(2, 2, vec![clear, red, red, red]));
    let w = world(
        4,
        4,
        "000000ff",
        vec![entity(1, 1, "ffffffff", EntityType::Image("sprite.png".to_string(), 2, 2))],
    );
    let mut frame = vec![0u8; 64];
    assert_eq!(w.draw(&mut frame, &Config::new(), &images), Ok(()));
    assert_eq!(pixel(&frame, 4, 1, 1), [0, 0, 0, 255]);
    assert_eq!(pixel(&frame, 4, 2, 1), red);
    assert_eq!(pixel(&frame, 4, 1, 2), red);
    assert_eq!(pixel(&frame, 4, 2, 2), red);
    assert_eq!(pixel(&frame, 4, 0, 0), [0, 0, 0, 255]);
}

#[test]
fn transparent_image_pixel_shows_an_earlier_entity() {
    let mut images = ImageCache::new();
    images.insert("sprite.png".to_string(), raster(1, 1, vec![[1, 2, 3, 0]]));
    let w = world(
        2,
        1,
        "000000ff",
        vec![
            entity(0, 0, "00ff00ff", EntityType::Box(2, 1)),
            entity(1, 0, "ffffffff", EntityType::Image("sprite.png".to_string(), 1, 1)),
        ],
    );
    let mut frame = vec![0u8; 8];
    assert_eq!(w.draw(&mut frame, &Config::new(), &images), Ok(()));
    assert_eq!(pixel(&frame, 2, 1, 0), [0, 255, 0, 255]);
}

#[test]
fn image_entity_is_sampled_from_its_first_visible_pixel() {
    let a = [10, 0, 0, 255];
    let b = [20, 0, 0, 255];
    let mut images = ImageCache::new();
    images.insert("sprite.png".to_string(), raster(2, 1, vec![a, b]));
    let w = world(
        3,
        1,
        "000000ff",
        vec![entity(-1, 0, "ffffffff", EntityType::Image("sprite.png".to_string(), 3, 1))],
    );
    let mut frame = vec![0u8; 12];
    assert_eq!(w.draw(&mut frame, &Config::new(), &images), Ok(()));
    assert_eq!(pixel(&frame, 3, 0, 0), a);
    assert_eq!(pixel(&frame, 3, 1, 0), b);
    assert_eq!(pixel(&frame, 3, 2, 0), [0, 0, 0, 255]);
}

#[test]
fn background_image_fills_its_region() {
    let p = [1, 2, 3, 4];
    let q = [5, 6, 7, 8];
    let mut images = ImageCache::new();
    images.insert("bg.png".to_string(), raster(2, 1, vec![p, q]));
    let mut w = world(3, 2, "aabbccdd", vec![]);
    w.world_type = WorldType::Image("bg.png".to_string(), 2, 1);
    let mut frame = vec![0u8; 24];
    assert_eq!(w.draw(&mut frame, &Config::new(), &images), Ok(()));
    assert_eq!(pixel(&frame, 3, 0, 0), p);
    assert_eq!(pixel(&frame, 3, 1, 0), q);
    assert_eq!(pixel(&frame, 3, 2, 0), [0xaa, 0xbb, 0xcc, 0xdd]);
    assert_eq!(pixel(&frame, 3, 0, 1), [0xaa, 0xbb, 0xcc, 0xdd]);
}

#[test]
fn malformed_background_color_fails() {
    let w = world(2, 2, "not-a-color", vec![]);
    let mut frame = vec![0u8; 16];
    assert_eq!(w.draw(&mut frame, &Config::new(), &ImageCache::new()), Err(DrawError::BadColor));
}

#[test]
fn hidden_malformed_color_does_not_fail() {
    let w = world(1, 1, "zzzzzzzz", vec![entity(0, 0, "01020304", EntityType::Box(1, 1))]);
    let mut frame = vec![0u8; 4];
    assert_eq!(w.draw(&mut frame, &Config::new(), &ImageCache::new()), Ok(()));
    assert_eq!(frame, vec![1, 2, 3, 4]);
}

#[test]
fn missing_image_fails() {
    let w = world(
        2,
        2,
        "000000ff",
        vec![entity(0, 0, "ffffffff", EntityType::Image("nowhere.png".to_string(), 1, 1))],
    );
    let mut frame = vec![0u8; 16];
    assert_eq!(w.draw(&mut frame, &Config::new(), &ImageCache::new()), Err(DrawError::MissingImage));
}

#[test]
fn sampling_past_the_picture_fails() {
    let mut images = ImageCache::new();
    images.insert("bg.png".to_string(), raster(1, 1, vec![[0, 0, 0, 255]]));
    let mut w = world(2, 1, "000000ff", vec![]);
    w.world_type = WorldType::Image("bg.png".to_string(), 2, 1);
    let mut frame = vec![0u8; 8];
    assert_eq!(w.draw(&mut frame, &Config::new(), &images), Err(DrawError::OutsideImage));
}

#[test]
fn raster_reads_row_by_row() {
    let r = raster(2, 2, vec![[1, 0, 0, 0], [2, 0, 0, 0], [3, 0, 0, 0], [4, 0, 0, 0]]);
    assert_eq!(r.get_pixel(1, 0), [2, 0, 0, 0]);
    assert_eq!(r.get_pixel(0, 1), [3, 0, 0, 0]);
}

#[test]
fn image_cache_finds_by_path() {
    let mut images = ImageCache::new();
    images.insert("a".to_string(), raster(1, 1, vec![[1, 1, 1, 1]]));
    images.insert("b".to_string(), raster(1, 1, vec![[2, 2, 2, 2]]));
    assert_eq!(images.get(&"b".to_string()).map(|r| r.pixels[0]), Some([2, 2, 2, 2]));
    assert!(images.get(&"c".to_string()).is_none());
}

#[test]
fn new_world_follows_its_configuration() {
    let mut c = Config::new();
    c.entity_count = 4;
    let w = World::new(&c);
    assert_eq!((w.width, w.height), (600, 400));
    assert_eq!(w.world_type, WorldType::Color);
    assert_eq!(w.background_rgba_hex, "ffffffff");
    assert_eq!(w.entities.len(), 4);
    for e in &w.entities {
        assert!(e.x_position >= 0 && e.x_position < 550);
        assert!(e.y_position >= 0 && e.y_position < 350);
        assert_eq!(e.rgba_hex, "000000ff");
        assert_eq!(e.entity_type, EntityType::Box(50, 50));
    }
    c.entity_count = 0;
    assert!(World::new(&c).entities.is_empty());
}

#[test]
fn world_update_moves_every_entity() {
    let mut w = world(
        10,
        10,
        "000000ff",
        vec![entity(0, 4, "ffffffff", EntityType::Box(2, 2)), entity(5, 5, "ffffffff", EntityType::Ball(1))],
    );
    w.entities[0].x_velocity = -3;
    w.entities[1].y_velocity = 2;
    let mut c = Config::new();
    c.world_width = 10;
    c.world_height = 10;
    w.update(&c);
    assert_eq!((w.entities[0].x_position, w.entities[0].x_velocity), (3, 3));
    assert_eq!((w.entities[1].y_position, w.entities[1].y_velocity), (7, 2));
}

#[test]
fn default_configuration() {
    let c = Config::new();
    assert!(!c.is_debug_mode);
    assert_eq!((c.world_width, c.world_height), (600, 400));
    assert_eq!(c.world_color, "ffffffff");
    assert_eq!(c.entity_count, 1);
    assert_eq!(c.entity_color, "000000ff");
    assert_eq!(c.entity_velocity, 5);
    assert_eq!(c.entity_type, EntityType::Box(50, 50));
    assert_eq!(c.bouncy_world_engine_version, "0.1.0");
}

#[test]
fn configuration_recovered_from_a_save() {
    let mut w = world(30, 20, "11223344", vec![]);
    w.world_type = WorldType::Image("bg.png".to_string(), 5, 5);
    w.entities.push(entity(1, 1, "ffffffff", EntityType::Ball(2)));
    w.entities.push(entity(2, 2, "ffffffff", EntityType::Ball(2)));
    let mut save = Save::new(w);
    save.bouncy_world_engine_version = "9.9.9".to_string();
    let c = Config::reverse_from_world_save(&save);
    assert_eq!((c.world_width, c.world_height), (30, 20));
    assert_eq!(c.world_color, "11223344");
    assert_eq!(c.world_type, WorldType::Image("bg.png".to_string(), 5, 5));
    assert_eq!(c.entity_count, 2);
    assert_eq!(c.entity_color, "000000ff");
    assert_eq!(c.entity_type, EntityType::Box(50, 50));
    assert_eq!(c.bouncy_world_engine_version, "9.9.9");
}

#[test]
fn save_is_stamped() {
    let s = Save::new(world(3, 3, "000000ff", vec![]));
    assert_eq!(s.bouncy_world_engine_version, "0.1.0");
    assert_eq!(s.date_time_stamp.len(), 19);
    assert_eq!(s.world.width, 3);
}

#[test]
fn command_words() {
    assert_eq!(parse_command("new"), Command::New);
    assert_eq!(parse_command("n"), Command::New);
    assert_eq!(parse_command("save"), Command::Save);
    assert_eq!(parse_command("s"), Command::Save);
    assert_eq!(parse_command("config"), Command::Config);
    assert_eq!(parse_command("c"), Command::Config);
    assert_eq!(parse_command("help"), Command::Help);
    assert_eq!(parse_command("h"), Command::Help);
    assert_eq!(parse_command("News"), Command::Unknown);
    assert_eq!(parse_command(""), Command::Unknown);
    assert_ne!(BouncyWorldWindow::Show, BouncyWorldWindow::Hide);
}

#[test]
fn world_checks_every_entity_before_a_step() {
    let mut c = Config::new();
    c.world_width = 10;
    c.world_height = 10;
    let mut w = world(10, 10, "000000ff", vec![entity(4, 4, "ffffffff", EntityType::Box(2, 2))]);
    assert!(w.fits_next_step(&c));
    w.entities.push(entity(i32::MAX, 4, "ffffffff", EntityType::Box(2, 2)));
    w.entities[1].x_velocity = -5;
    assert!(!w.fits_next_step(&c));
}
