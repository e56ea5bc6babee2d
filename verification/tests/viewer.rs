use imgvwr::config::Keybindings;
use imgvwr::imgvwr::Command;
use imgvwr::imgvwr::Imgvwr;
use imgvwr::imgvwr::Message;
use imgvwr::nav::Direction;
use imgvwr::rotation::Rotation;
use imgvwr::rotation::RotationState;
use imgvwr::util::DirEntry;
use imgvwr::util::ResolveError;

fn file(name: &str) -> DirEntry {
    DirEntry { name: name.as_bytes().to_vec(), is_regular_file: true }
}

fn viewer(names: &[&str], start: &str) -> Imgvwr {
    let entries: Vec<DirEntry> = names.iter().map(|n| file(n)).collect();
    Imgvwr::new(&start.as_bytes().to_vec(), &entries, Keybindings::default()).unwrap()
}

#[test]
fn scenario_wraparound_forward() {
    // Directory b.png, a.jpg, c.jpg starting at a.jpg: sorted order is
    // a.jpg, b.png, c.jpg with start index 0.
    let mut v = viewer(&["b.png", "a.jpg", "c.jpg"], "a.jpg");
    assert_eq!(v.current_image().as_slice(), &b"a.jpg"[..]);
    assert_eq!(v.update(Message::Move(Direction::Next)), Command::Continue);
    assert_eq!(v.current_image().as_slice(), &b"b.png"[..]);
    assert_eq!(v.update(Message::Move(Direction::Next)), Command::Continue);
    assert_eq!(v.current_image().as_slice(), &b"c.jpg"[..]);
    assert_eq!(v.update(Message::Move(Direction::Next)), Command::Continue);
    assert_eq!(v.current_image().as_slice(), &b"a.jpg"[..]);
}

#[test]
fn scenario_single_file_directory() {
    let mut v = viewer(&["only.png"], "only.png");
    v.update(Message::Move(Direction::Next));
    assert_eq!(v.current_image().as_slice(), &b"only.png"[..]);
    v.update(Message::Move(Direction::Previous));
    assert_eq!(v.current_image().as_slice(), &b"only.png"[..]);
}

#[test]
fn scenario_rotate_right_right_left() {
    let mut v = viewer(&["a.png"], "a.png");
    v.rotate_image(&Rotation::Right);
    v.rotate_image(&Rotation::Right);
    v.rotate_image(&Rotation::Left);
    assert_eq!(v.rotation(), 90);
}

#[test]
fn scenario_empty_set() {
    let entries: Vec<DirEntry> = Vec::new();
    match Imgvwr::new(&b"a.jpg".to_vec(), &entries, Keybindings::default()) {
        Err(err) => assert_eq!(err, ResolveError::EmptySet),
        Ok(_) => panic!("an empty directory must not resolve"),
    }
}

#[test]
fn cycle_forward_returns_to_start() {
    let mut v = viewer(&["a.png", "b.png", "c.png"], "b.png");
    assert_eq!(v.current_image().as_slice(), &b"b.png"[..]);
    for _ in 0..3 {
        v.switch_image(&Direction::Next);
    }
    assert_eq!(v.current_image().as_slice(), &b"b.png"[..]);
}

#[test]
fn cycle_backward_returns_to_start() {
    let mut v = viewer(&["a.png", "b.png", "c.png"], "b.png");
    for _ in 0..3 {
        v.switch_image(&Direction::Previous);
    }
    assert_eq!(v.current_image().as_slice(), &b"b.png"[..]);
}

#[test]
fn next_then_previous_is_identity() {
    let mut v = viewer(&["a.png", "b.png", "c.png"], "b.png");
    v.switch_image(&Direction::Next);
    v.switch_image(&Direction::Previous);
    assert_eq!(v.current_image().as_slice(), &b"b.png"[..]);
}

#[test]
fn four_right_turns_are_identity() {
    let mut r = RotationState::new();
    for _ in 0..4 {
        r.rotate(&Rotation::Right);
    }
    assert_eq!(r.degrees(), 0);
}

#[test]
fn four_left_turns_are_identity() {
    let mut r = RotationState::new();
    for _ in 0..4 {
        r.rotate(&Rotation::Left);
    }
    assert_eq!(r.degrees(), 0);
}

#[test]
fn left_turn_from_upright_is_normalized() {
    let mut r = RotationState::new();
    r.rotate(&Rotation::Left);
    assert_eq!(r.degrees(), 270);
}

#[test]
fn switching_images_resets_rotation() {
    let mut v = viewer(&["a.png", "b.png"], "a.png");
    v.rotate_image(&Rotation::Right);
    v.rotate_image(&Rotation::Right);
    assert_eq!(v.rotation(), 180);
    v.switch_image(&Direction::Next);
    assert_eq!(v.rotation(), 0);
}

#[test]
fn moving_by_message_resets_rotation() {
    let mut v = viewer(&["a.png", "b.png"], "a.png");
    v.rotate_image(&Rotation::Left);
    v.update(Message::Move(Direction::Previous));
    assert_eq!(v.rotation(), 0);
}

#[test]
fn quit_key_ends_the_session() {
    let mut v = viewer(&["a.png"], "a.png");
    let cmd = v.update(Message::KeyPressed("q".to_string()));
    assert_eq!(cmd, Command::Exit);
    assert_eq!(v.current_image().as_slice(), &b"a.png"[..]);
    assert_eq!(v.rotation(), 0);
}

#[test]
fn rotate_keys_turn_the_image() {
    let mut v = viewer(&["a.png"], "a.png");
    assert_eq!(v.update(Message::KeyPressed("]".to_string())), Command::Continue);
    assert_eq!(v.rotation(), 90);
    assert_eq!(v.update(Message::KeyPressed("[".to_string())), Command::Continue);
    assert_eq!(v.rotation(), 0);
}

#[test]
fn unbound_key_changes_nothing() {
    let mut v = viewer(&["a.png", "b.png"], "a.png");
    v.rotate_image(&Rotation::Right);
    let cmd = v.update(Message::KeyPressed("x".to_string()));
    assert_eq!(cmd, Command::Continue);
    assert_eq!(v.current_image().as_slice(), &b"a.png"[..]);
    assert_eq!(v.rotation(), 90);
}

#[test]
fn configured_keybindings_take_precedence() {
    let entries = vec![file("a.png")];
    let bindings = Keybindings {
        quit: Some("x".to_string()),
        rotate_left: None,
        rotate_right: None,
    };
    let mut v = Imgvwr::new(&b"a.png".to_vec(), &entries, bindings).unwrap();
    assert_eq!(v.update(Message::KeyPressed("x".to_string())), Command::Exit);
    // The unset bindings fall back to the defaults.
    assert_eq!(v.update(Message::KeyPressed("]".to_string())), Command::Continue);
    assert_eq!(v.rotation(), 90);
}

#[test]
fn quit_binding_wins_over_rotation() {
    let entries = vec![file("a.png")];
    let bindings = Keybindings {
        quit: Some("r".to_string()),
        rotate_left: Some("r".to_string()),
        rotate_right: Some("r".to_string()),
    };
    let mut v = Imgvwr::new(&b"a.png".to_vec(), &entries, bindings).unwrap();
    assert_eq!(v.update(Message::KeyPressed("r".to_string())), Command::Exit);
    assert_eq!(v.rotation(), 0);
}

#[test]
fn image_count_reports_the_set_size() {
    let v = viewer(&["a.png", "b.png", "c.png", "notes.txt"], "a.png");
    assert_eq!(v.image_count(), 3);
}
