use sprite_packer::app::App;
use sprite_packer::library::{Animation, Clip, Collection, Library};
use sprite_packer::settings::Settings;
use sprite_packer::sprite::Sprite;
use std::cmp::Ordering;

fn frame(name: &str) -> Sprite {
    Sprite {
        id: 1,
        x: 0,
        y: 0,
        xr: 0,
        yr: 0,
        width: 1,
        height: 1,
        collection_name: "Hero".to_string(),
        name: name.to_string(),
        path: format!("Hero/Idle/{name}"),
        flipped: false,
    }
}

#[test]
fn clip_counts_and_names_its_frames() {
    let frames = vec![frame("Idle-000-1.png"), frame("Idle-001-1.png"), frame("Idle-002-2.png")];
    let clip = Clip::new("Idle".to_string(), frames.clone(), 2).unwrap();
    assert_eq!(clip.name, "Idle");
    assert_eq!(clip.frames, frames);
    assert_eq!(clip.frame_names, vec!["Idle-000-1.png", "Idle-001-1.png", "Idle-002-2.png"]);
    assert_eq!(clip.num_frames, 3);
    assert_eq!(clip.loop_start, 2);
    assert_eq!(clip.current_frame_index, 0);
    let empty = Clip::new("None".to_string(), Vec::new(), 0).unwrap();
    assert_eq!(empty.num_frames, 0);
    assert!(empty.frame_names.is_empty());
}

#[test]
fn collections_are_equal_by_name() {
    let a = Collection { name: "Hero".into(), path: "a.png".into(), sprites: vec![frame("x-1.png")] };
    let b = Collection { name: "Hero".into(), path: "b.png".into(), sprites: Vec::new() };
    let c = Collection { name: "Hud".into(), path: "a.png".into(), sprites: vec![frame("x-1.png")] };
    assert!(a == b);
    assert!(a != c);
}

#[test]
fn clips_animations_and_libraries_are_equal_by_name() {
    let idle = Clip::new("Idle".to_string(), vec![frame("Idle-000-1.png")], 0).unwrap();
    let other_idle = Clip::new("Idle".to_string(), Vec::new(), 4).unwrap();
    let run = Clip::new("Run".to_string(), vec![frame("Idle-000-1.png")], 0).unwrap();
    assert!(idle == other_idle);
    assert!(idle != run);
    let knight = Animation { clips: vec![idle.clone()], name: "Knight".into() };
    assert!(knight == Animation { clips: Vec::new(), name: "Knight".into() });
    assert!(knight != Animation { clips: vec![idle.clone()], name: "Mage".into() });
    let library = Library { clips: vec![run], name: "Knight".into() };
    assert!(library == Library { clips: Vec::new(), name: "Knight".into() });
    assert!(library != Library { clips: Vec::new(), name: "knight".into() });
}

#[test]
fn sprites_are_equal_field_by_field() {
    let a = frame("Idle-000-1.png");
    assert!(a == a.clone());
    let mut b = a.clone();
    b.yr = 1;
    assert!(a != b);
    let mut c = a.clone();
    c.path.push('x');
    assert!(a != c);
    let mut d = a.clone();
    d.flipped = true;
    assert!(a != d);
}

#[test]
fn default_settings_are_english_and_dark() {
    let settings = Settings::default();
    assert_eq!(settings.language, "en");
    assert_eq!(settings.sprites_path, "");
    assert_eq!(settings.mode, "dark");
    assert!(settings.needs_sprites_path());
    let chosen = Settings { sprites_path: "/home/me/sprites".into(), ..settings };
    assert!(!chosen.needs_sprites_path());
}

#[test]
fn default_app_holds_nothing() {
    let app = App::default();
    assert!(app.loaded_collections.is_empty());
    assert!(app.loaded_animations.is_empty());
    assert_eq!(app.settings.language, "en");
    assert_eq!(app.settings.mode, "dark");
    assert_eq!(app.settings.sprites_path, "");
}

#[test]
fn collections_are_ordered_by_name() {
    let hero = Collection { name: "Hero".into(), path: "z.png".into(), sprites: Vec::new() };
    let hud = Collection { name: "Hud".into(), path: "a.png".into(), sprites: vec![frame("x-1.png")] };
    let other_hero = Collection { name: "Hero".into(), path: "b.png".into(), sprites: Vec::new() };
    assert!(hero < hud);
    assert!(hud > hero);
    assert!(hero <= other_hero && hero >= other_hero);
    assert_eq!(hero.partial_cmp(&other_hero), Some(Ordering::Equal));
    assert_eq!(hero.partial_cmp(&hud), Some(Ordering::Less));
    assert_eq!(hud.partial_cmp(&hero), Some(Ordering::Greater));
}

#[test]
fn clips_animations_and_libraries_are_ordered_by_name() {
    let idle = Clip::new("Idle".to_string(), vec![frame("Idle-000-1.png")], 0).unwrap();
    let run = Clip::new("Run".to_string(), Vec::new(), 0).unwrap();
    assert!(idle < run);
    assert_eq!(run.partial_cmp(&idle), Some(Ordering::Greater));
    let a = Animation { clips: vec![run.clone()], name: "Knight".into() };
    let b = Animation { clips: Vec::new(), name: "Knight2".into() };
    assert!(a < b);
    let capital = Library { clips: Vec::new(), name: "Zebra".into() };
    let small = Library { clips: vec![idle], name: "apple".into() };
    assert!(capital < small);
    assert_eq!(small.partial_cmp(&small), Some(Ordering::Equal));
}

#[test]
fn settings_are_equal_field_by_field() {
    let settings = Settings::default();
    assert!(settings == Settings::default());
    assert!(settings != Settings { language: "de".into(), ..Settings::default() });
    assert!(settings != Settings { sprites_path: "/tmp".into(), ..Settings::default() });
    assert!(settings != Settings { mode: "light".into(), ..Settings::default() });
}
