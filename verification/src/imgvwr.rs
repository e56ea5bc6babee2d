//! The viewer controller.
//!
//! Receives the discrete user intents, updates the navigation and rotation
//! state, and exposes the current image and rotation for the presentation
//! layer to render.  Once constructed, no intent can fail: every operation
//! is total over the state's invariants.  Ending the session is signalled
//! to the shell, never performed here.

use crate::config::key_or_default;
use crate::config::Keybindings;
use crate::nav::advance_index;
use crate::nav::Direction;
use crate::nav::NavigationState;
use crate::rotation::is_normalized;
use crate::rotation::rotated_angle;
use crate::rotation::Rotation;
use crate::rotation::RotationState;
use crate::util::qualifying;
use crate::util::resolution_ok;
use crate::util::resolve;
use crate::util::sorted_names;
use crate::util::DirEntry;
use crate::util::ResolveError;
use vstd::prelude::*;

verus! {

/// A user intent delivered to the controller: a move through the image
/// set, or a pressed key still to be interpreted against the keybindings.
#[derive(Clone, Debug)]
pub enum Message {
    Move(Direction),
    KeyPressed(String),
}

/// What the shell is told after an intent is handled: keep running, or end
/// the session.  The controller never terminates the process itself.
#[derive(Clone, Copy, Debug, PartialEq, Eq, Structural)]
pub enum Command {
    Continue,
    Exit,
}

/// The viewer's state: the sorted image set with the current position, the
/// current image's rotation, and the resolved keybindings.
pub struct Imgvwr {
    nav: NavigationState,
    rotation: RotationState,
    quit: String,
    rotate_left: String,
    rotate_right: String,
}

impl Imgvwr {
    /// The sorted image names.
    pub closed spec fn images(self) -> Seq<Seq<u8>> {
        self.nav.names()
    }

    /// The current position in the image set.
    pub closed spec fn image_id(self) -> int {
        self.nav.index()
    }

    /// The current rotation angle, in degrees.
    pub closed spec fn rotation_degrees(self) -> int {
        self.rotation.angle()
    }

    /// The key that ends the session.
    pub closed spec fn quit_key(self) -> Seq<char> {
        self.quit@
    }

    /// The key that rotates a quarter turn counter-clockwise.
    pub closed spec fn rotate_left_key(self) -> Seq<char> {
        self.rotate_left@
    }

    /// The key that rotates a quarter turn clockwise.
    pub closed spec fn rotate_right_key(self) -> Seq<char> {
        self.rotate_right@
    }

    /// Invariant: a non-empty sorted set, an index within it, and a
    /// normalized rotation.
    pub open spec fn wf(self) -> bool {
        &&& self.images().len() > 0
        &&& sorted_names(self.images())
        &&& 0 <= self.image_id() < self.images().len()
        &&& is_normalized(self.rotation_degrees())
    }

    /// Builds the controller from the starting image's name, the listing
    /// of its directory, and the configured keybindings; a missing
    /// keybinding falls back to its default.  Fails exactly when the image
    /// set cannot be resolved.
    pub fn new(img: &Vec<u8>, entries: &Vec<DirEntry>, keybindings: Keybindings) -> (r: Result<
        Imgvwr,
        ResolveError,
    >)
        ensures
            match r {
                Ok(v) => {
                    &&& v.wf()
                    &&& resolution_ok(v.images(), v.image_id(), entries@, img@)
                    &&& v.rotation_degrees() == 0
                    &&& v.quit_key() == match keybindings.quit {
                        Some(k) => k@,
                        None => "q"@,
                    }
                    &&& v.rotate_left_key() == match keybindings.rotate_left {
                        Some(k) => k@,
                        None => "["@,
                    }
                    &&& v.rotate_right_key() == match keybindings.rotate_right {
                        Some(k) => k@,
                        None => "]"@,
                    }
                },
                Err(ResolveError::EmptySet) => qualifying(entries@).len() == 0,
                Err(ResolveError::StartNotFound) => qualifying(entries@).len() > 0 && !qualifying(
                    entries@,
                ).contains(img@),
                Err(ResolveError::DirectoryUnreadable) => false,
            },
    {
        let (images, image_id) = match resolve(img, entries) {
            Ok(p) => p,
            Err(e) => {
                return Err(e);
            },
        };
        let nav = NavigationState::new(images, image_id);
        let rotation = RotationState::new();
        let quit = key_or_default(keybindings.quit, "q");
        let rotate_left = key_or_default(keybindings.rotate_left, "[");
        let rotate_right = key_or_default(keybindings.rotate_right, "]");
        Ok(Imgvwr { nav, rotation, quit, rotate_left, rotate_right })
    }

    /// Switches to the neighbouring image and resets the rotation: a
    /// rotation is a per-image transform and never carries over to the
    /// next image.
    pub fn switch_image(&mut self, direction: &Direction)
        requires
            old(self).wf(),
        ensures
            final(self).wf(),
            final(self).images() == old(self).images(),
            final(self).image_id() == advance_index(
                old(self).image_id(),
                old(self).images().len() as int,
                *direction,
            ),
            final(self).rotation_degrees() == 0,
            final(self).quit_key() == old(self).quit_key(),
            final(self).rotate_left_key() == old(self).rotate_left_key(),
            final(self).rotate_right_key() == old(self).rotate_right_key(),
    {
        self.nav.advance(direction);
        self.rotation.reset();
    }

    /// Rotates the current image a quarter turn; navigation is untouched.
    pub fn rotate_image(&mut self, rotation: &Rotation)
        requires
            old(self).wf(),
        ensures
            final(self).wf(),
            final(self).images() == old(self).images(),
            final(self).image_id() == old(self).image_id(),
            final(self).rotation_degrees() == rotated_angle(
                old(self).rotation_degrees(),
                *rotation,
            ),
            final(self).quit_key() == old(self).quit_key(),
            final(self).rotate_left_key() == old(self).rotate_left_key(),
            final(self).rotate_right_key() == old(self).rotate_right_key(),
    {
        self.rotation.rotate(rotation);
    }

    /// Handles one intent: a move switches the image and resets rotation;
    /// a key is matched against quit, rotate-left and rotate-right, in
    /// that order, and an unbound key changes nothing.  Only the quit key
    /// ends the session.
    pub fn update(&mut self, message: Message) -> (cmd: Command)
        requires
            old(self).wf(),
        ensures
            final(self).wf(),
            final(self).images() == old(self).images(),
            final(self).quit_key() == old(self).quit_key(),
            final(self).rotate_left_key() == old(self).rotate_left_key(),
            final(self).rotate_right_key() == old(self).rotate_right_key(),
            match message {
                Message::Move(direction) => {
                    &&& cmd == Command::Continue
                    &&& final(self).image_id() == advance_index(
                        old(self).image_id(),
                        old(self).images().len() as int,
                        direction,
                    )
                    &&& final(self).rotation_degrees() == 0
                },
                Message::KeyPressed(key) => {
                    if key@ == old(self).quit_key() {
                        &&& cmd == Command::Exit
                        &&& final(self).image_id() == old(self).image_id()
                        &&& final(self).rotation_degrees() == old(self).rotation_degrees()
                    } else if key@ == old(self).rotate_left_key() {
                        &&& cmd == Command::Continue
                        &&& final(self).image_id() == old(self).image_id()
                        &&& final(self).rotation_degrees() == rotated_angle(
                            old(self).rotation_degrees(),
                            Rotation::Left,
                        )
                    } else if key@ == old(self).rotate_right_key() {
                        &&& cmd == Command::Continue
                        &&& final(self).image_id() == old(self).image_id()
                        &&& final(self).rotation_degrees() == rotated_angle(
                            old(self).rotation_degrees(),
                            Rotation::Right,
                        )
                    } else {
                        &&& cmd == Command::Continue
                        &&& final(self).image_id() == old(self).image_id()
                        &&& final(self).rotation_degrees() == old(self).rotation_degrees()
                    }
                },
            },
    {
        match message {
            Message::KeyPressed(key) => {
                if key.eq(&self.quit) {
                    Command::Exit
                } else if key.eq(&self.rotate_left) {
                    self.rotate_image(&Rotation::Left);
                    Command::Continue
                } else if key.eq(&self.rotate_right) {
                    self.rotate_image(&Rotation::Right);
                    Command::Continue
                } else {
                    Command::Continue
                }
            },
            Message::Move(direction) => {
                self.switch_image(&direction);
                Command::Continue
            },
        }
    }

    /// The current image's name, for the presentation layer to load.
    pub fn current_image(&self) -> (name: &Vec<u8>)
        requires
            self.wf(),
        ensures
            name@ == self.images()[self.image_id()],
    {
        self.nav.current()
    }

    /// The number of images in the set.
    pub fn image_count(&self) -> (n: usize)
        ensures
            n == self.images().len(),
    {
        self.nav.len()
    }

    /// The rotation to apply at render time, in degrees.
    pub fn rotation(&self) -> (d: u16)
        ensures
            d as int == self.rotation_degrees(),
    {
        self.rotation.degrees()
    }
}

} // verus!
