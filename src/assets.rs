use vstd::prelude::*;

verus! {

/// The keys (file stems) of the images and sounds that were loaded.
pub struct AssetRegistry {
    pub images: Vec<String>,
    pub sounds: Vec<String>,
}

/// Some entry of `keys` spells `key`.
pub open spec fn has_key(keys: Seq<String>, key: Seq<char>) -> bool {
    exists|i: int| 0 <= i < keys.len() && #[trigger] keys[i]@ == key
}

fn contains_key(keys: &Vec<String>, key: &String) -> (r: bool)
    ensures
        r == has_key(keys@, key@),
{
    let mut i: usize = 0;
    while i < keys.len()
        invariant
            0 <= i <= keys.len(),
            forall|j: int| 0 <= j < i ==> #[trigger] keys@[j]@ != key@,
        decreases keys.len() - i,
    {
        if keys[i] == *key {
            return true;
        }
        i = i + 1;
    }
    false
}

impl AssetRegistry {
    pub fn new(images: Vec<String>, sounds: Vec<String>) -> (r: AssetRegistry)
        ensures
            r.images == images,
            r.sounds == sounds,
    {
        AssetRegistry { images, sounds }
    }

    pub open spec fn has_image_spec(&self, key: Seq<char>) -> bool {
        has_key(self.images@, key)
    }

    pub open spec fn has_sound_spec(&self, key: Seq<char>) -> bool {
        has_key(self.sounds@, key)
    }

    /// An image with this key was loaded.
    pub fn has_image(&self, key: &String) -> (r: bool)
        ensures
            r == self.has_image_spec(key@),
    {
        contains_key(&self.images, key)
    }

    /// A sound with this key was loaded.
    pub fn has_sound(&self, key: &String) -> (r: bool)
        ensures
            r == self.has_sound_spec(key@),
    {
        contains_key(&self.sounds, key)
    }
}

} // verus!
