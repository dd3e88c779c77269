use pathtrace::color::Color;
use pathtrace::fx::Fx;
use pathtrace::pixmap::PixMap;
use pathtrace::vec::Vec3;

/// The textual rendering is byte-exact: header, dimensions, ceiling, and
/// one line per pixel in insertion order.
#[test]
fn p3_bytes_are_exact() {
    let mut pm = PixMap::new(2, 1);
    pm.push(Color::new(1, 2, 3));
    pm.push(Color::new(255, 0, 10));
    let bytes = pm.render_p3();
    assert_eq!(String::from_utf8(bytes).unwrap(), "P3\n2 1\n255\n1 2 3\n255 0 10\n");
}

#[test]
fn p3_of_empty_image_is_header_only() {
    let pm = PixMap::new(800, 600);
    let bytes = pm.render_p3();
    assert_eq!(String::from_utf8(bytes).unwrap(), "P3\n800 600\n255\n");
}

#[test]
fn dimensions_and_push_order() {
    let mut pm = PixMap::new(3, 2);
    assert_eq!(pm.width(), 3);
    assert_eq!(pm.height(), 2);
    pm.push(Color::new(9, 8, 7));
    assert_eq!(pm.pixels.len(), 1);
    assert_eq!((pm.pixels[0].r(), pm.pixels[0].g(), pm.pixels[0].b()), (9, 8, 7));
}

#[test]
fn aspect_is_the_width_to_height_ratio() {
    let pm = PixMap::new(800, 600);
    // 800 / 600 = 4 / 3 in fixed point, truncated.
    assert_eq!(pm.aspect().raw, 87381);
    let square = PixMap::new(64, 64);
    assert_eq!(square.aspect().raw, 65536);
}

#[test]
fn color_channels_round_trip() {
    let c = Color::new(12, 200, 255);
    assert_eq!(c.r(), 12);
    assert_eq!(c.g(), 200);
    assert_eq!(c.b(), 255);
}

/// Vector algebra basics: the operations the tracer leans on, on exact
/// values.
#[test]
fn vector_algebra() {
    let a = Vec3::new(Fx::from_int(1), Fx::from_int(2), Fx::from_int(3));
    let b = Vec3::new(Fx::from_int(4), Fx::from_int(-5), Fx::from_int(6));
    let d = Vec3::dot(a, b);
    assert_eq!(d.raw, 12 * 65536);
    let c = Vec3::cross(a, b);
    assert_eq!(c.x.raw, 27 * 65536);
    assert_eq!(c.y.raw, 6 * 65536);
    assert_eq!(c.z.raw, -13 * 65536);
    let u = Vec3::new(Fx::zero(), Fx::from_int(2), Fx::zero()).to_unit();
    assert_eq!((u.x.raw, u.y.raw, u.z.raw), (0, 65536, 0));
    let r = Vec3::reflect(
        Vec3::new(Fx::one(), Fx::from_int(-1), Fx::zero()),
        Vec3::new(Fx::zero(), Fx::one(), Fx::zero()),
    );
    assert_eq!((r.x.raw, r.y.raw, r.z.raw), (65536, 65536, 0));
}
