use vstd::prelude::*;

verus! {

/// What can be written out. Every type can: how it is written is for the
/// program around the library to say.
pub trait SerializeAlias {
}

impl<T> SerializeAlias for T {
}

/// What can be read back. Every type can: how it is read is for the program
/// around the library to say.
pub trait DeserializeAlias {
}

impl<T> DeserializeAlias for T {
}

} // verus!
