use sprite_packer::bitmap::{Bitmap, Color};
use sprite_packer::frame::SpriteImage;
use sprite_packer::replace::{duplicates_of, replace_all, replace_sprite, ReplaceError};
use sprite_packer::sprite::Sprite;

fn picture(width: u32, height: u32, seed: u8) -> Bitmap {
    let mut data = Vec::new();
    for y in 0..height {
        for x in 0..width {
            data.extend_from_slice(&[x as u8, y as u8, seed, 255]);
        }
    }
    Bitmap::from_raw(width, height, data).unwrap()
}

fn framed(id: u32, copy: u32, xr: i32, yr: i32, width: i32, height: i32) -> Sprite {
    Sprite {
        id,
        x: 0,
        y: 0,
        xr,
        yr,
        width,
        height,
        collection_name: "Hero".to_string(),
        name: format!("Idle-{copy:03}-{id}.png"),
        path: format!("Hero/Idle/Idle-{copy:03}-{id}.png"),
        flipped: false,
    }
}

#[test]
fn duplicates_share_the_id_and_are_not_the_source() {
    let sprites = vec![
        framed(1, 0, 0, 0, 2, 2),
        framed(2, 0, 0, 0, 2, 2),
        framed(1, 1, 0, 0, 2, 2),
        framed(1, 0, 0, 0, 2, 2),
        framed(1, 2, 1, 1, 2, 2),
    ];
    assert_eq!(duplicates_of(&framed(1, 0, 0, 0, 2, 2), &sprites), vec![2, 4]);
    assert_eq!(duplicates_of(&framed(2, 0, 0, 0, 2, 2), &sprites), Vec::<usize>::new());
    assert_eq!(duplicates_of(&framed(1, 9, 0, 0, 2, 2), &sprites), vec![0, 2, 3, 4]);
    assert_eq!(duplicates_of(&framed(3, 0, 0, 0, 2, 2), &sprites), Vec::<usize>::new());
    assert_eq!(duplicates_of(&framed(1, 0, 0, 0, 2, 2), &Vec::new()), Vec::<usize>::new());
}

#[test]
fn replaced_duplicate_shows_the_source_artwork() {
    let source = SpriteImage::new(framed(1, 0, 1, 1, 2, 2), picture(4, 4, 50)).unwrap();
    let mut target = SpriteImage::new(framed(1, 1, 2, 0, 2, 2), picture(5, 3, 0)).unwrap();
    assert!(!source.equals(&target));
    assert!(replace_sprite(&source, &mut target));
    assert!(source.equals(&target));
    assert!(target.equals(&source));
    assert_eq!(target.sprite(), &framed(1, 1, 2, 0, 2, 2));
    // The window of the target holds the window of the source, row for row.
    let image = target.image();
    assert_eq!(image.pixel(2, 1), Some(Color { r: 1, g: 1, b: 50, a: 255 }));
    assert_eq!(image.pixel(3, 1), Some(Color { r: 2, g: 1, b: 50, a: 255 }));
    assert_eq!(image.pixel(2, 2), Some(Color { r: 1, g: 2, b: 50, a: 255 }));
    assert_eq!(image.pixel(3, 2), Some(Color { r: 2, g: 2, b: 50, a: 255 }));
    // Everything else is as it was.
    assert_eq!(image.pixel(1, 1), Some(Color { r: 1, g: 1, b: 0, a: 255 }));
    assert_eq!(image.pixel(4, 2), Some(Color { r: 4, g: 2, b: 0, a: 255 }));
    assert_eq!(image.pixel(2, 0), Some(Color { r: 2, g: 0, b: 0, a: 255 }));
    assert_eq!(image.width(), 5);
    assert_eq!(image.height(), 3);
}

#[test]
fn replacing_ignores_the_flip_and_the_atlas_placement() {
    let mut turned = framed(1, 0, 0, 0, 2, 2);
    turned.flipped = true;
    turned.x = 30;
    turned.y = 12;
    let source = SpriteImage::new(turned, picture(2, 2, 50)).unwrap();
    let mut target = SpriteImage::new(framed(1, 1, 0, 0, 2, 2), picture(2, 2, 0)).unwrap();
    assert!(replace_sprite(&source, &mut target));
    assert_eq!(target.image().pixel(0, 0), Some(Color { r: 0, g: 0, b: 50, a: 255 }));
    assert_eq!(target.image().pixel(1, 0), Some(Color { r: 1, g: 0, b: 50, a: 255 }));
    assert_eq!(target.image().pixel(0, 1), Some(Color { r: 0, g: 1, b: 50, a: 255 }));
    assert_eq!(target.image().pixel(1, 1), Some(Color { r: 1, g: 1, b: 50, a: 255 }));
}

#[test]
fn artwork_that_does_not_fit_is_not_written() {
    let source = SpriteImage::new(framed(1, 0, 0, 0, 3, 2), picture(4, 4, 50)).unwrap();
    let mut narrow = SpriteImage::new(framed(1, 1, 1, 0, 1, 1), picture(3, 3, 0)).unwrap();
    assert!(!narrow.accepts(&source));
    assert!(!replace_sprite(&source, &mut narrow));
    assert_eq!(narrow.into_parts().1.into_raw(), picture(3, 3, 0).into_raw());
    let mut low = SpriteImage::new(framed(1, 2, 0, 2, 1, 1), picture(3, 3, 0)).unwrap();
    assert!(!replace_sprite(&source, &mut low));
    assert_eq!(low.into_parts().1.into_raw(), picture(3, 3, 0).into_raw());
    let mut roomy = SpriteImage::new(framed(1, 3, 0, 1, 1, 1), picture(3, 3, 0)).unwrap();
    assert!(roomy.accepts(&source));
    assert!(replace_sprite(&source, &mut roomy));
}

#[test]
fn larger_source_overwrites_beyond_the_target_window() {
    let source = SpriteImage::new(framed(1, 0, 0, 0, 2, 2), picture(2, 2, 50)).unwrap();
    let mut target = SpriteImage::new(framed(1, 1, 0, 0, 1, 1), picture(3, 3, 0)).unwrap();
    assert!(target.replace_artwork(&source));
    let image = target.image();
    assert_eq!(image.pixel(0, 1), Some(Color { r: 0, g: 0, b: 50, a: 255 }));
    assert_eq!(image.pixel(1, 1), Some(Color { r: 1, g: 0, b: 50, a: 255 }));
    assert_eq!(image.pixel(0, 2), Some(Color { r: 0, g: 1, b: 50, a: 255 }));
    assert_eq!(image.pixel(1, 2), Some(Color { r: 1, g: 1, b: 50, a: 255 }));
    assert_eq!(image.pixel(2, 2), Some(Color { r: 2, g: 2, b: 0, a: 255 }));
    assert_eq!(image.pixel(0, 0), Some(Color { r: 0, g: 0, b: 0, a: 255 }));
}

#[test]
fn replace_all_heals_every_target() {
    let source = SpriteImage::new(framed(1, 0, 0, 0, 2, 2), picture(2, 2, 50)).unwrap();
    let mut targets = vec![
        SpriteImage::new(framed(1, 1, 0, 0, 2, 2), picture(2, 2, 0)).unwrap(),
        SpriteImage::new(framed(1, 2, 1, 1, 2, 2), picture(4, 4, 7)).unwrap(),
    ];
    assert_eq!(replace_all(&source, &mut targets), Ok(()));
    assert_eq!(targets.len(), 2);
    assert!(targets[0].equals(&source));
    assert!(targets[1].equals(&source));
    assert_eq!(replace_all(&source, &mut Vec::new()), Ok(()));
}

#[test]
fn replace_all_changes_nothing_when_one_target_is_too_small() {
    let source = SpriteImage::new(framed(1, 0, 0, 0, 2, 2), picture(2, 2, 50)).unwrap();
    let mut targets = vec![
        SpriteImage::new(framed(1, 1, 0, 0, 2, 2), picture(2, 2, 0)).unwrap(),
        SpriteImage::new(framed(1, 2, 0, 0, 1, 1), picture(1, 1, 7)).unwrap(),
        SpriteImage::new(framed(1, 3, 0, 0, 1, 1), picture(1, 2, 7)).unwrap(),
    ];
    assert_eq!(replace_all(&source, &mut targets), Err(ReplaceError::DoesNotFit { target: 1 }));
    assert!(!targets[0].equals(&source));
    assert_eq!(targets[0].image().pixel(1, 1), Some(Color { r: 1, g: 1, b: 0, a: 255 }));
}
