use sprite_packer::bitmap::{Bitmap, Color};
use sprite_packer::check::{check, check_collection, contains_sprite, CheckError};
use sprite_packer::frame::SpriteImage;
use sprite_packer::sprite::Sprite;

const GREY: Color = Color { r: 9, g: 9, b: 9, a: 255 };

fn artwork(seed: u8) -> Bitmap {
    let mut data = Vec::new();
    for y in 0..4u8 {
        for x in 0..4u8 {
            data.extend_from_slice(&[x, y, seed, 255]);
        }
    }
    Bitmap::from_raw(4, 4, data).unwrap()
}

fn member(id: u32, copy: u32, collection: &str) -> Sprite {
    Sprite {
        id,
        x: (copy * 4) as i32,
        y: 0,
        xr: 0,
        yr: 0,
        width: 4,
        height: 4,
        collection_name: collection.to_string(),
        name: format!("Idle-{copy:03}-{id}.png"),
        path: format!("{collection}/Idle/Idle-{copy:03}-{id}.png"),
        flipped: false,
    }
}

fn paired(id: u32, copy: u32, image: Bitmap) -> SpriteImage {
    SpriteImage::new(member(id, copy, "Hero"), image).unwrap()
}

fn spoiled() -> Bitmap {
    let mut image = artwork(0);
    image.set_pixel(2, 1, GREY);
    image
}

#[test]
fn identical_duplicates_are_not_reported() {
    let images = vec![paired(1, 0, artwork(0)), paired(1, 1, artwork(0))];
    assert_eq!(check_collection(&images), Ok(Vec::new()));
}

#[test]
fn one_differing_pixel_reports_both_members() {
    let images = vec![paired(1, 0, artwork(0)), paired(1, 1, spoiled())];
    let found = check_collection(&images).unwrap();
    assert_eq!(found, vec![member(1, 0, "Hero"), member(1, 1, "Hero")]);
}

#[test]
fn whole_group_is_reported_once() {
    let images = vec![
        paired(1, 0, artwork(0)),
        paired(2, 0, artwork(5)),
        paired(1, 1, artwork(0)),
        paired(1, 2, spoiled()),
        paired(2, 1, artwork(5)),
        paired(1, 3, artwork(0)),
    ];
    let found = check_collection(&images).unwrap();
    assert_eq!(
        found,
        vec![member(1, 0, "Hero"), member(1, 1, "Hero"), member(1, 2, "Hero"), member(1, 3, "Hero")]
    );
}

#[test]
fn differing_first_member_reports_the_group() {
    let images = vec![paired(1, 0, spoiled()), paired(1, 1, artwork(0)), paired(1, 2, artwork(0))];
    assert_eq!(check_collection(&images).unwrap().len(), 3);
}

#[test]
fn group_of_one_is_never_reported() {
    let images = vec![paired(1, 0, artwork(0)), paired(2, 0, spoiled()), paired(3, 0, artwork(8))];
    assert_eq!(check_collection(&images), Ok(Vec::new()));
    assert_eq!(check_collection(&Vec::new()), Ok(Vec::new()));
}

#[test]
fn the_same_sprite_listed_twice_is_reported_once() {
    let images = vec![
        paired(1, 0, artwork(0)),
        paired(1, 0, artwork(0)),
        paired(1, 1, spoiled()),
        paired(1, 1, spoiled()),
    ];
    let found = check_collection(&images).unwrap();
    assert_eq!(found, vec![member(1, 0, "Hero"), member(1, 1, "Hero")]);
}

#[test]
fn members_of_another_collection_differ() {
    let images = vec![
        paired(1, 0, artwork(0)),
        SpriteImage::new(member(1, 1, "Villain"), artwork(0)).unwrap(),
    ];
    assert_eq!(check_collection(&images).unwrap().len(), 2);
}

#[test]
fn name_without_number_fails_the_check() {
    let mut unnamed = member(1, 1, "Hero");
    unnamed.name = "Idle-001-x.png".to_string();
    let images = vec![
        paired(1, 0, artwork(0)),
        SpriteImage::new(unnamed, spoiled()).unwrap(),
        paired(1, 2, artwork(0)),
    ];
    assert_eq!(check_collection(&images), Err(1));
    let collections = vec![vec![paired(3, 0, artwork(0))], images];
    assert_eq!(check(&collections), Err(CheckError::MalformedName { collection: 1, sprite: 1 }));
}

#[test]
fn check_gathers_the_reports_of_all_collections() {
    let collections = vec![
        vec![paired(1, 0, artwork(0)), paired(1, 1, spoiled())],
        vec![paired(2, 0, artwork(0)), paired(2, 1, artwork(0))],
        vec![paired(1, 1, spoiled()), paired(1, 2, artwork(0)), paired(4, 0, artwork(0))],
    ];
    let found = check(&collections).unwrap();
    assert_eq!(found, vec![member(1, 0, "Hero"), member(1, 1, "Hero"), member(1, 2, "Hero")]);
    assert_eq!(check(&Vec::new()), Ok(Vec::new()));
}

#[test]
fn checking_twice_gives_the_same_report() {
    let collections = vec![
        vec![paired(1, 0, artwork(0)), paired(1, 1, spoiled()), paired(7, 0, artwork(1))],
        vec![paired(2, 0, artwork(0)), paired(2, 1, artwork(3))],
    ];
    let first = check(&collections).unwrap();
    let second = check(&collections).unwrap();
    assert_eq!(first.len(), 4);
    assert_eq!(first.len(), second.len());
    for sprite in &first {
        assert!(contains_sprite(&second, sprite));
    }
    for sprite in &second {
        assert!(contains_sprite(&first, sprite));
    }
}

#[test]
fn contains_sprite_compares_every_field() {
    let list = vec![member(1, 0, "Hero"), member(2, 0, "Hero")];
    assert!(contains_sprite(&list, &member(2, 0, "Hero")));
    assert!(!contains_sprite(&list, &member(3, 0, "Hero")));
    let mut moved = member(1, 0, "Hero");
    moved.flipped = true;
    assert!(!contains_sprite(&list, &moved));
    assert!(!contains_sprite(&Vec::new(), &moved));
}
