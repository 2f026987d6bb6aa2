//! Animals and the sounds they make.

use vstd::prelude::*;

verus! {

/// Something that makes a sound.
pub trait Animal {
    /// The sound, as text.
    spec fn sound_text(&self) -> Seq<char>;

    /// The sound that the animal makes.
    fn sound(&self) -> (heard: String)
        ensures
            heard@ == self.sound_text(),
    ;
}

/// A dog with a name.
#[derive(Debug)]
pub struct Dog {
    pub name: String,
}

impl Animal for Dog {
    open spec fn sound_text(&self) -> Seq<char> {
        "Woof woof. My name is "@ + self.name@
    }

    fn sound(&self) -> (heard: String) {
        let mut heard = "Woof woof. My name is ".to_owned();
        heard.append(self.name.as_str());
        heard
    }
}

/// A cat.
#[derive(Debug)]
pub struct Cat;

impl Animal for Cat {
    open spec fn sound_text(&self) -> Seq<char> {
        "Meow meow"@
    }

    fn sound(&self) -> (heard: String) {
        "Meow meow".to_owned()
    }
}

} // verus!
