use sprite_packer::info::SpriteInfo;
use sprite_packer::sprite::Sprite;

fn table() -> SpriteInfo {
    SpriteInfo {
        id: vec![34, 35, 36, 37],
        x: vec![0, 16, -4, 1],
        y: vec![0, 8, 2, 1],
        xr: vec![1, 2, 3, 4],
        yr: vec![5, 6, 7, 8],
        width: vec![10, 11, 12, 13],
        height: vec![20, 21, 22, 23],
        collection_name: vec!["Knight".into(), "Knight".into(), "Hud".into(), "Hud".into()],
        path: vec![
            "Knight/001.Idle/001-00-034.png".into(),
            "Knight/002.Run/002-00-035.png".into(),
            "..".into(),
            "".into(),
        ],
        flipped: vec![false, true, false, true],
    }
}

#[test]
fn row_becomes_a_sprite_named_after_its_file() {
    let expected = Sprite {
        id: 35,
        x: 16,
        y: 8,
        xr: 2,
        yr: 6,
        width: 11,
        height: 21,
        collection_name: "Knight".to_string(),
        name: "002-00-035.png".to_string(),
        path: "Knight/002.Run/002-00-035.png".to_string(),
        flipped: true,
    };
    assert_eq!(table().at(1), Some(expected));
    assert_eq!(table().at(0).unwrap().name, "001-00-034.png");
    assert_eq!(table().at(0).unwrap().path, "Knight/001.Idle/001-00-034.png");
}

#[test]
fn path_without_a_final_component_gives_no_sprite() {
    assert_eq!(table().at(2), None);
    assert_eq!(table().at(3), None);
}

#[test]
fn row_takes_the_name_it_is_given() {
    let sprite = table().row(2, "Bar-000-36.png".to_string());
    assert_eq!(sprite.id, 36);
    assert_eq!(sprite.x, -4);
    assert_eq!(sprite.collection_name, "Hud");
    assert_eq!(sprite.name, "Bar-000-36.png");
    assert_eq!(sprite.path, "..");
    assert!(!sprite.flipped);
}

#[test]
fn contains_row_looks_at_every_column() {
    let mut info = table();
    assert!(info.contains_row(0));
    assert!(info.contains_row(3));
    assert!(!info.contains_row(4));
    info.flipped.pop();
    assert!(info.contains_row(2));
    assert!(!info.contains_row(3));
    info.flipped.push(true);
    info.xr.pop();
    assert!(!info.contains_row(3));
}

#[test]
fn named_row_follows_the_name_it_is_given() {
    let sprite = table().named_row(1, Some("Run-000-35.png".to_string())).unwrap();
    assert_eq!(sprite.id, 35);
    assert_eq!(sprite.x, 16);
    assert_eq!(sprite.yr, 6);
    assert_eq!(sprite.name, "Run-000-35.png");
    assert_eq!(sprite.path, "Knight/002.Run/002-00-035.png");
    assert!(sprite.flipped);
    assert_eq!(table().named_row(1, None), None);
    assert_eq!(table().named_row(0, Some(String::new())).unwrap().name, "");
}
