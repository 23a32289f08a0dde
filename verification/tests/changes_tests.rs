use sprite_packer::changes::{
    changed_sprite, check_for_changed_sprites, forget_replaced, path_component, record_change,
    resolve, PathChange,
};
use sprite_packer::library::Collection;
use sprite_packer::sprite::Sprite;

fn sprite(collection: &str, name: &str, id: u32, x: i32) -> Sprite {
    Sprite {
        id,
        x,
        y: 0,
        xr: 0,
        yr: 0,
        width: 4,
        height: 4,
        collection_name: collection.to_string(),
        name: name.to_string(),
        path: format!("{collection}/Idle/{name}"),
        flipped: false,
    }
}

fn library() -> Vec<Collection> {
    vec![
        Collection {
            name: "Knight".into(),
            path: "knight.png".into(),
            sprites: vec![
                sprite("Knight", "Idle-000-1.png", 1, 0),
                sprite("Knight", "Idle-001-2.png", 2, 4),
                sprite("Knight", "Idle-002-1.png", 1, 8),
            ],
        },
        Collection {
            name: "Hud".into(),
            path: "hud.png".into(),
            sprites: vec![sprite("Hud", "Bar-000-1.png", 1, 12)],
        },
        Collection { name: "Knight".into(), path: "late.png".into(), sprites: Vec::new() },
    ]
}

#[test]
fn path_components_stand_between_separators() {
    assert_eq!(path_component("Knight/001.Idle/001-00-034.png", 0), Some("Knight".to_string()));
    assert_eq!(path_component("Knight/001.Idle/001-00-034.png", 1), Some("001.Idle".to_string()));
    assert_eq!(path_component("Knight/001.Idle/001-00-034.png", 2), Some("001-00-034.png".to_string()));
    assert_eq!(path_component("Knight/001.Idle/001-00-034.png", 3), None);
    assert_eq!(path_component("Knight\\001.Idle\\001-00-034.png", 1), Some("001.Idle".to_string()));
    assert_eq!(path_component("a/b\\c/d", 2), Some("c".to_string()));
    assert_eq!(path_component("/a//b/", 0), Some(String::new()));
    assert_eq!(path_component("/a//b/", 1), Some("a".to_string()));
    assert_eq!(path_component("/a//b/", 2), Some(String::new()));
    assert_eq!(path_component("/a//b/", 3), Some("b".to_string()));
    assert_eq!(path_component("/a//b/", 4), Some(String::new()));
    assert_eq!(path_component("/a//b/", 5), None);
    assert_eq!(path_component("", 0), Some(String::new()));
    assert_eq!(path_component("", 1), None);
    assert_eq!(path_component("héllo/wörld", 1), Some("wörld".to_string()));
}

#[test]
fn path_components_agree_with_split() {
    for path in ["a/b/c", "a\\b/c\\", "", "/", "//x", "one", "a/b/c/d/e"] {
        let parts: Vec<&str> = path.split(['/', '\\']).collect();
        for index in 0..7 {
            assert_eq!(
                path_component(path, index),
                parts.get(index).map(|part| part.to_string()),
                "{path} [{index}]"
            );
        }
    }
}

#[test]
fn changed_frame_path_becomes_a_sprite() {
    let change = changed_sprite("Knight/001.Idle/001-00-034.png", "Knight");
    let expected = Sprite {
        id: 34,
        x: 0,
        y: 0,
        xr: 0,
        yr: 0,
        width: 0,
        height: 0,
        collection_name: "Knight".to_string(),
        name: "001-00-034.png".to_string(),
        path: "Knight/001.Idle/001-00-034.png".to_string(),
        flipped: false,
    };
    match change {
        PathChange::Frame(sprite) => assert_eq!(sprite, expected),
        other => panic!("{other:?}"),
    }
    match changed_sprite("Knight\\001.Idle\\001-00-034.png\\more", "K") {
        PathChange::Frame(sprite) => {
            assert_eq!(sprite.id, 34);
            assert_eq!(sprite.name, "001-00-034.png");
            assert_eq!(sprite.collection_name, "K");
            assert_eq!(sprite.path, "Knight\\001.Idle\\001-00-034.png\\more");
        }
        other => panic!("{other:?}"),
    }
}

#[test]
fn other_paths_are_not_frames() {
    assert!(matches!(changed_sprite("Knight/001.Idle", "Knight"), PathChange::NotAFrame));
    assert!(matches!(changed_sprite("Knight", "Knight"), PathChange::NotAFrame));
    assert!(matches!(changed_sprite("", "Knight"), PathChange::NotAFrame));
    assert!(matches!(changed_sprite("Knight/0.Atlases/SpriteInfo.json", "Knight"), PathChange::NotAFrame));
    assert!(matches!(changed_sprite("Knight/001.Idle/001-034.png", "Knight"), PathChange::NotAFrame));
    assert!(matches!(changed_sprite("Kn-ig-ht/001.Idle/034.png", "Knight"), PathChange::NotAFrame));
}

#[test]
fn frame_name_without_number_is_malformed() {
    assert!(matches!(changed_sprite("Knight/001.Idle/001-00-abc.png", "Knight"), PathChange::Malformed));
    assert!(matches!(changed_sprite("Knight/001.Idle/001-00-.png", "Knight"), PathChange::Malformed));
    assert!(matches!(changed_sprite("Knight/001.Idle/a--", "Knight"), PathChange::Malformed));
    assert!(matches!(changed_sprite("Knight/001.Idle/a--5", "Knight"), PathChange::Frame(_)));
}

#[test]
fn change_is_recorded_once() {
    let mut changed = Vec::new();
    record_change(&mut changed, sprite("Knight", "Idle-000-1.png", 1, 0));
    record_change(&mut changed, sprite("Knight", "Idle-001-2.png", 2, 0));
    record_change(&mut changed, sprite("Knight", "Idle-000-1.png", 1, 0));
    record_change(&mut changed, sprite("Knight", "Idle-000-1.png", 1, 5));
    assert_eq!(
        changed,
        vec![
            sprite("Knight", "Idle-000-1.png", 1, 0),
            sprite("Knight", "Idle-001-2.png", 2, 0),
            sprite("Knight", "Idle-000-1.png", 1, 5),
        ]
    );
}

#[test]
fn changed_sprite_stands_for_the_first_with_its_id() {
    let collections = library();
    let noted = sprite("Knight", "Idle-002-1.png", 1, 99);
    assert_eq!(resolve(&collections, &noted), Some(&collections[0].sprites[0]));
    assert_eq!(resolve(&collections, &sprite("Knight", "x", 2, 0)), Some(&collections[0].sprites[1]));
    assert_eq!(resolve(&collections, &sprite("Hud", "x", 1, 0)), Some(&collections[1].sprites[0]));
    assert_eq!(resolve(&collections, &sprite("Hud", "x", 2, 0)), None);
    assert_eq!(resolve(&collections, &sprite("Mage", "x", 1, 0)), None);
    assert_eq!(resolve(&collections, &sprite("Knight", "x", 3, 0)), None);
}

#[test]
fn fresh_changes_leave_out_what_is_known_already() {
    let collections = library();
    let changed = vec![
        sprite("Knight", "Idle-001-2.png", 2, 0),
        sprite("Hud", "Bar-000-1.png", 1, 0),
        sprite("Knight", "Idle-002-1.png", 1, 0),
        sprite("Knight", "Idle-000-1.png", 1, 0),
    ];
    let all = check_for_changed_sprites(&changed, &Vec::new(), &collections).unwrap();
    assert_eq!(
        all,
        vec![
            sprite("Knight", "Idle-001-2.png", 2, 4),
            sprite("Hud", "Bar-000-1.png", 1, 12),
            sprite("Knight", "Idle-000-1.png", 1, 0),
            sprite("Knight", "Idle-000-1.png", 1, 0),
        ]
    );
    let already = vec![sprite("Knight", "Idle-000-1.png", 1, 0), sprite("Knight", "Idle-001-2.png", 2, 0)];
    let fresh = check_for_changed_sprites(&changed, &already, &collections).unwrap();
    assert_eq!(fresh, vec![sprite("Knight", "Idle-001-2.png", 2, 4), sprite("Hud", "Bar-000-1.png", 1, 12)]);
    assert_eq!(check_for_changed_sprites(&Vec::new(), &already, &collections), Some(Vec::new()));
}

#[test]
fn unknown_change_gives_none() {
    let collections = library();
    let changed = vec![sprite("Knight", "Idle-001-2.png", 2, 0), sprite("Mage", "Cast-000-1.png", 1, 0)];
    assert_eq!(check_for_changed_sprites(&changed, &Vec::new(), &collections), None);
    let missing = vec![sprite("Hud", "Bar-000-5.png", 5, 0)];
    assert_eq!(check_for_changed_sprites(&missing, &Vec::new(), &collections), None);
}

#[test]
fn healed_changes_are_forgotten() {
    let mut changed = vec![
        sprite("Knight", "Idle-000-1.png", 1, 0),
        sprite("Hud", "Bar-000-2.png", 2, 0),
        sprite("Hud", "Bar-000-1.png", 1, 0),
        sprite("Knight", "Idle-001-2.png", 2, 0),
        sprite("Cape", "Wave-000-3.png", 3, 0),
    ];
    forget_replaced(&mut changed, &sprite("Knight", "Idle-000-1.png", 1, 0));
    assert_eq!(changed, vec![sprite("Hud", "Bar-000-2.png", 2, 0), sprite("Cape", "Wave-000-3.png", 3, 0)]);
    forget_replaced(&mut changed, &sprite("Mage", "x", 9, 0));
    assert_eq!(changed.len(), 2);
    forget_replaced(&mut changed, &sprite("Cape", "x", 9, 0));
    assert_eq!(changed, vec![sprite("Hud", "Bar-000-2.png", 2, 0)]);
}
