//! Ownership registry for textures that other components reference but do
//! not own: a handle resolves only while its texture is still in the store.

use vstd::prelude::*;

use super::{Bitmap, Texture2D};

verus! {

/// A non-owning reference to a texture held in a `TextureStore`. The handle
/// does not keep the texture alive: resolving it fails once the texture has
/// been released by the store's owner.
#[derive(Clone, Copy, Debug, PartialEq, Eq, Structural)]
pub struct TextureHandle {
    index: usize,
}

/// Owns textures on behalf of components that hold only a `TextureHandle`.
/// A slot is never reused, so a handle resolves exactly until its texture is
/// released.
pub struct TextureStore<T: Bitmap> {
    slots: Vec<Option<Texture2D<T>>>,
}

impl<T: Bitmap> TextureStore<T> {
    /// Every texture still held is well formed.
    pub closed spec fn wf(&self) -> bool {
        forall|i: int|
            #![trigger self.slots@[i]]
            0 <= i < self.slots@.len() && self.slots@[i] is Some ==> self.slots@[i]->Some_0.wf()
    }

    /// Whether `h` still resolves to a texture.
    pub closed spec fn live(&self, h: TextureHandle) -> bool {
        h.index < self.slots@.len() && self.slots@[h.index as int] is Some
    }

    /// The texture `h` resolves to (meaningful while `live`).
    pub closed spec fn texture(&self, h: TextureHandle) -> Texture2D<T> {
        self.slots@[h.index as int]->Some_0
    }

    /// Creates an empty store: no handle is live.
    pub fn new() -> (r: TextureStore<T>)
        ensures
            r.wf(),
            forall|h: TextureHandle| !r.live(h),
    {
        TextureStore { slots: Vec::new() }
    }

    /// Takes ownership of a texture and hands back a handle for it. Handles
    /// given out earlier are unaffected.
    pub fn insert(&mut self, texture: Texture2D<T>) -> (h: TextureHandle)
        requires
            old(self).wf(),
            texture.wf(),
        ensures
            final(self).wf(),
            final(self).live(h),
            final(self).texture(h) == texture,
            forall|g: TextureHandle| g != h ==> final(self).live(g) == old(self).live(g),
            forall|g: TextureHandle|
                g != h && old(self).live(g) ==> final(self).texture(g) == old(self).texture(g),
    {
        let h = TextureHandle { index: self.slots.len() };
        self.slots.push(Some(texture));
        h
    }

    /// Releases the texture `h` refers to, if it is still held: `h` (and
    /// every copy of it) no longer resolves afterwards. Other handles are
    /// unaffected; the slot is not reused.
    pub fn release(&mut self, h: TextureHandle)
        requires
            old(self).wf(),
        ensures
            final(self).wf(),
            !final(self).live(h),
            forall|g: TextureHandle| g != h ==> final(self).live(g) == old(self).live(g),
            forall|g: TextureHandle|
                g != h && old(self).live(g) ==> final(self).texture(g) == old(self).texture(g),
    {
        if h.index < self.slots.len() {
            self.slots[h.index] = None;
        }
    }

    /// Resolves `h`: the texture if it is still held, `None` if it has been
    /// released or never came from this store.
    pub fn get(&self, h: TextureHandle) -> (r: Option<&Texture2D<T>>)
        requires
            self.wf(),
        ensures
            self.live(h) ==> (r matches Some(t) && *t == self.texture(h) && t.wf()),
            !self.live(h) ==> r is None,
    {
        if h.index < self.slots.len() {
            self.slots[h.index].as_ref()
        } else {
            None
        }
    }
}

} // verus!
