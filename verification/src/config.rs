//! Configuration of content categories.

use vstd::prelude::*;

verus! {

/// Configuration for a content category, such as "Video" or "ISO".
///
/// Each category has a unique identifier, a human-readable name,
/// and an on-disk path relative to the media directory.
pub struct CategoryConfig {
    /// Unique identifier. May not be changed.
    pub id: usize,
    /// Human-readable name for the category.
    pub name: String,
    /// Path where to store the content symlinks, relative to the media directory.
    pub path: String,
}

impl CategoryConfig {
    pub fn id(&self) -> (res: usize)
        ensures
            res == self.id,
    {
        self.id
    }

    pub fn name(&self) -> (res: &str)
        ensures
            res@ == self.name@,
    {
        self.name.as_str()
    }

    pub fn path(&self) -> (res: &str)
        ensures
            res@ == self.path@,
    {
        self.path.as_str()
    }
}

} // verus!
