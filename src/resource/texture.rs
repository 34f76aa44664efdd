use vstd::prelude::*;

use std::sync::Arc;

use crate::resource::cache::{AssetCache, Fetch};

verus! {

/// The file a texture named `name` is read from.
pub open spec fn spec_texture_path(name: Seq<char>) -> Seq<char> {
    seq!['r', 'e', 's', '/', 't', 'e', 'x', 't', 'u', 'r', 'e', 's', '/'] + name + seq!['.', 'p', 'n', 'g']
}

/// `res/textures/<name>.png`.
pub fn texture_path(name: &str) -> (r: String)
    ensures
        r@ == spec_texture_path(name@),
{
    let mut path = "res/textures/".to_owned();
    path.append(name);
    path.append(".png");
    proof {
        reveal_strlit("res/textures/");
        reveal_strlit(".png");
        assert(path@ =~= spec_texture_path(name@));
    }
    path
}

/// Textures by name, each decoded and uploaded once. `T` is the uploaded
/// texture together with its sampler.
pub struct TextureRegistry<T> {
    data: AssetCache<T>,
}

impl<T> TextureRegistry<T> {
    /// The texture registered under `name`, if any.
    pub open spec fn spec_get(&self, name: Seq<char>) -> Option<T> {
        self.cache().spec_get(name)
    }

    pub closed spec fn cache(&self) -> AssetCache<T> {
        self.data
    }

    pub fn new() -> (r: Self)
        ensures
            forall|name: Seq<char>| #[trigger] r.spec_get(name) is None,
    {
        TextureRegistry { data: AssetCache::new() }
    }

    /// The texture registered under `name`, or the file to load it from.
    pub fn get_or_load(&self, name: &str) -> (r: Fetch<T>)
        ensures
            match self.spec_get(name@) {
                Some(t) => r matches Fetch::Cached(a) && *a == t,
                None => r matches Fetch::Load(path) && path@ == spec_texture_path(name@),
            },
    {
        match self.data.get(name) {
            Some(texture) => Fetch::Cached(texture),
            None => Fetch::Load(texture_path(name)),
        }
    }

    /// Registers a loaded texture under `name`.
    pub fn insert(&mut self, name: &str, texture: Arc<T>)
        ensures
            forall|key: Seq<char>|
                #[trigger] final(self).spec_get(key) == if key == name@ {
                    Some(*texture)
                } else {
                    old(self).spec_get(key)
                },
    {
        self.data.insert(name, texture);
    }
}

} // verus!
