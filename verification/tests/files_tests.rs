use photoframe::files::{is_image, orientation_fix, startup_order, OrientationFix};
use rand::rngs::StdRng;
use rand::SeedableRng;

#[test]
fn supported_extensions_in_any_case() {
    assert!(is_image("/photos/a.jpg"));
    assert!(is_image("/photos/b.JPEG"));
    assert!(is_image("c.Png"));
    assert!(is_image("album/d.webp"));
    assert!(is_image("e.tar.jpg"));
}

#[test]
fn other_files_are_not_photos() {
    assert!(!is_image("/photos/notes.txt"));
    assert!(!is_image("/photos/.jpg"));
    assert!(!is_image("/photos/noext"));
    assert!(!is_image("/photos/"));
    assert!(!is_image("/photos/a.jpg.bak"));
    assert!(!is_image(""));
}

#[test]
fn applies_orientation_six() {
    assert_eq!(orientation_fix(6), OrientationFix::Rotate90);
    assert_eq!(orientation_fix(1), OrientationFix::Keep);
    assert_eq!(orientation_fix(2), OrientationFix::FlipHorizontal);
    assert_eq!(orientation_fix(5), OrientationFix::Rotate90FlipHorizontal);
    assert_eq!(orientation_fix(7), OrientationFix::Rotate270FlipHorizontal);
    assert_eq!(orientation_fix(8), OrientationFix::Rotate270);
    assert_eq!(orientation_fix(42), OrientationFix::Keep);
}

#[test]
fn startup_order_keeps_every_photo_once() {
    let candidates: Vec<String> =
        ["a.jpg", "notes.txt", "b.png", "c.JPEG", "d.gif", "e.webp"].iter().map(|s| s.to_string()).collect();
    let mut rng = StdRng::seed_from_u64(5);
    let mut order = startup_order(candidates.clone(), &mut rng);
    let mut again = startup_order(candidates, &mut StdRng::seed_from_u64(5));
    assert_eq!(order, again, "a seeded shuffle is repeatable");
    order.sort();
    again.sort();
    assert_eq!(order, vec!["a.jpg", "b.png", "c.JPEG", "e.webp"]);
}
