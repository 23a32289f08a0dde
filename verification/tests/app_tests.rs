use sprite_packer::app::{
    add_sprite, collections_of_animation, find_collection, get_animation, get_animation_list,
    get_animation_name_from_collection_name, get_collection, get_collection_from_sprite_name,
    get_collections_from_animation_name, sort_animations, sort_clips, sort_collections,
};
use sprite_packer::library::{Animation, Clip, Collection};
use sprite_packer::sprite::Sprite;

fn sprite(collection: &str, name: &str, id: u32) -> Sprite {
    Sprite {
        id,
        x: 0,
        y: 0,
        xr: 0,
        yr: 0,
        width: 1,
        height: 1,
        collection_name: collection.to_string(),
        name: name.to_string(),
        path: format!("{collection}/{name}"),
        flipped: false,
    }
}

fn collection(name: &str, path: &str, sprites: Vec<Sprite>) -> Collection {
    Collection { name: name.to_string(), path: path.to_string(), sprites }
}

fn clip(name: &str, frames: Vec<Sprite>) -> Clip {
    Clip::new(name.to_string(), frames, 0).unwrap()
}

fn loaded() -> (Vec<Collection>, Vec<Animation>) {
    let collections = vec![
        collection("Knight", "first.png", vec![sprite("Knight", "Idle-000-1.png", 1)]),
        collection("Hud", "hud.png", vec![sprite("Hud", "Bar-000-7.png", 7)]),
        collection("Knight", "second.png", vec![sprite("Knight", "Run-000-2.png", 2)]),
        collection("Cape", "cape.png", vec![sprite("Cape", "Wave-000-3.png", 3)]),
    ];
    let animations = vec![
        Animation {
            name: "Menu".to_string(),
            clips: vec![clip("Open", vec![sprite("Hud", "Bar-000-7.png", 7)])],
        },
        Animation {
            name: "Knight".to_string(),
            clips: vec![
                clip("Idle", vec![sprite("Knight", "Idle-000-1.png", 1), sprite("Cape", "Wave-000-3.png", 3)]),
                clip("Empty", Vec::new()),
                clip("Run", vec![sprite("Knight", "Run-000-2.png", 2), sprite("Hud", "Bar-000-7.png", 7)]),
            ],
        },
        Animation { name: "Menu".to_string(), clips: Vec::new() },
    ];
    (collections, animations)
}

#[test]
fn first_collection_with_the_name_is_found() {
    let (collections, _) = loaded();
    assert_eq!(find_collection("Knight", &collections), Some(0));
    assert_eq!(find_collection("Hud", &collections), Some(1));
    assert_eq!(find_collection("Cape", &collections), Some(3));
    assert_eq!(find_collection("knight", &collections), None);
    assert_eq!(find_collection("", &collections), None);
    assert_eq!(find_collection("Knight", &Vec::new()), None);
    assert_eq!(get_collection("Knight", &collections).unwrap().path, "first.png");
    assert_eq!(get_collection("Cape", &collections).unwrap().path, "cape.png");
    assert!(get_collection("Mage", &collections).is_none());
}

#[test]
fn first_animation_with_the_name_is_found() {
    let (_, animations) = loaded();
    assert_eq!(get_animation("Menu", &animations).unwrap().clips.len(), 1);
    assert_eq!(get_animation("Knight", &animations).unwrap().clips.len(), 3);
    assert!(get_animation("Mage", &animations).is_none());
}

#[test]
fn animation_list_keeps_the_order() {
    let (_, animations) = loaded();
    assert_eq!(get_animation_list(&animations), vec!["Menu", "Knight", "Menu"]);
    assert_eq!(get_animation_list(&Vec::new()), Vec::<String>::new());
}

#[test]
fn animation_is_found_by_a_collection_it_uses() {
    let (_, animations) = loaded();
    assert_eq!(get_animation_name_from_collection_name("Hud", &animations), Some("Menu".to_string()));
    assert_eq!(get_animation_name_from_collection_name("Cape", &animations), Some("Knight".to_string()));
    assert_eq!(get_animation_name_from_collection_name("Knight", &animations), Some("Knight".to_string()));
    assert_eq!(get_animation_name_from_collection_name("Mage", &animations), None);
}

#[test]
fn collection_is_found_by_a_sprite_it_holds() {
    let (collections, _) = loaded();
    assert_eq!(get_collection_from_sprite_name("Run-000-2.png", &collections).unwrap().path, "second.png");
    assert_eq!(get_collection_from_sprite_name("Bar-000-7.png", &collections).unwrap().name, "Hud");
    assert!(get_collection_from_sprite_name("Nope-000-9.png", &collections).is_none());
}

#[test]
fn collections_of_an_animation_come_sorted_and_once() {
    let (collections, animations) = loaded();
    let found = collections_of_animation(&animations[1], &collections).unwrap();
    let paths: Vec<&str> = found.iter().map(|c| c.path.as_str()).collect();
    assert_eq!(paths, vec!["cape.png", "hud.png", "first.png"]);
    let by_name = get_collections_from_animation_name("Knight", &animations, &collections).unwrap();
    let names: Vec<&str> = by_name.iter().map(|c| c.name.as_str()).collect();
    assert_eq!(names, vec!["Cape", "Hud", "Knight"]);
    let menu = get_collections_from_animation_name("Menu", &animations, &collections).unwrap();
    assert_eq!(menu.len(), 1);
    assert_eq!(menu[0].name, "Hud");
    let empty = collections_of_animation(&animations[2], &collections).unwrap();
    assert!(empty.is_empty());
}

#[test]
fn missing_animation_or_collection_gives_none() {
    let (mut collections, animations) = loaded();
    assert!(get_collections_from_animation_name("Mage", &animations, &collections).is_none());
    collections.remove(3);
    assert!(collections_of_animation(&animations[1], &collections).is_none());
    assert!(get_collections_from_animation_name("Knight", &animations, &collections).is_none());
    assert!(get_collections_from_animation_name("Menu", &animations, &collections).is_some());
}

#[test]
fn sprite_joins_the_first_collection_of_its_name() {
    let (mut collections, _) = loaded();
    add_sprite(&mut collections, sprite("Knight", "Jump-000-4.png", 4), "ignored.png".to_string());
    assert_eq!(collections.len(), 4);
    let names: Vec<&str> = collections[0].sprites.iter().map(|s| s.name.as_str()).collect();
    assert_eq!(names, vec!["Idle-000-1.png", "Jump-000-4.png"]);
    assert_eq!(collections[0].path, "first.png");
    assert_eq!(collections[2].sprites.len(), 1);
    assert_eq!(collections[1].sprites.len(), 1);
}

#[test]
fn sprite_of_an_unknown_collection_opens_a_new_one() {
    let (mut collections, _) = loaded();
    add_sprite(&mut collections, sprite("Mage", "Cast-000-9.png", 9), "Mage/0.Atlases/Mage.png".to_string());
    assert_eq!(collections.len(), 5);
    assert_eq!(collections[4].name, "Mage");
    assert_eq!(collections[4].path, "Mage/0.Atlases/Mage.png");
    assert_eq!(collections[4].sprites, vec![sprite("Mage", "Cast-000-9.png", 9)]);
    assert_eq!(collections[0].sprites.len(), 1);
    let mut none: Vec<Collection> = Vec::new();
    add_sprite(&mut none, sprite("Mage", "Cast-000-9.png", 9), "m.png".to_string());
    add_sprite(&mut none, sprite("Mage", "Cast-001-9.png", 9), "n.png".to_string());
    assert_eq!(none.len(), 1);
    assert_eq!(none[0].path, "m.png");
    assert_eq!(none[0].sprites.len(), 2);
}

#[test]
fn sorting_orders_by_name() {
    let (mut collections, mut animations) = loaded();
    sort_collections(&mut collections);
    let paths: Vec<&str> = collections.iter().map(|c| c.path.as_str()).collect();
    assert_eq!(paths, vec!["cape.png", "hud.png", "first.png", "second.png"]);
    let mut clips = animations[1].clips.clone();
    sort_clips(&mut clips);
    let names: Vec<&str> = clips.iter().map(|c| c.name.as_str()).collect();
    assert_eq!(names, vec!["Empty", "Idle", "Run"]);
    sort_animations(&mut animations);
    assert_eq!(get_animation_list(&animations), vec!["Knight", "Menu", "Menu"]);
    assert_eq!(animations[1].clips.len(), 1);
}

#[test]
fn sorting_follows_the_order_of_strings() {
    let mut collections: Vec<Collection> =
        ["b", "a", "", "B", "ab", "a-", "é", "z", "aa"].iter().map(|n| collection(n, n, Vec::new())).collect();
    sort_collections(&mut collections);
    let names: Vec<&str> = collections.iter().map(|c| c.name.as_str()).collect();
    assert_eq!(names, vec!["", "B", "a", "a-", "aa", "ab", "b", "z", "é"]);
}
