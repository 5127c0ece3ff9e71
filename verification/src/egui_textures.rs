//! Identifiers for user textures registered with the UI for one frame, and
//! which textures the UI keeps from one frame to the next.
use vstd::prelude::*;

verus! {

/// Hands out user-texture identifiers; identifiers are valid until the frame
/// ends and the counter is reset.
pub struct UserTextureIds {
    pub next_tex_id: u64,
}

impl UserTextureIds {
    /// A counter that starts at 0.
    pub fn new() -> (ids: UserTextureIds)
        ensures
            ids.next_tex_id == 0,
    {
        UserTextureIds { next_tex_id: 0 }
    }

    /// The identifier for the next registered texture.
    pub fn register(&mut self) -> (id: u64)
        requires
            old(self).next_tex_id < u64::MAX,
        ensures
            id == old(self).next_tex_id,
            final(self).next_tex_id == old(self).next_tex_id + 1,
    {
        let id = self.next_tex_id;
        self.next_tex_id = self.next_tex_id + 1;
        id
    }

    /// Ends the frame: identifiers are handed out from 0 again.
    pub fn reset(&mut self)
        ensures
            final(self).next_tex_id == 0,
    {
        self.next_tex_id = 0;
    }
}

/// A texture identifier of the UI: one the UI manages, or one a user
/// registered for the current frame.
#[derive(Debug, PartialEq, Eq, Structural, Copy, Clone)]
pub enum TexKey {
    Managed(u64),
    User(u64),
}

/// A texture bound for a frame, and whether its image came from the
/// resource pool.
#[derive(Debug, PartialEq, Eq, Structural, Copy, Clone)]
pub struct BoundTexture {
    pub id: TexKey,
    pub pooled: bool,
}

/// A bound texture is kept for the next frame when the UI manages it, its
/// image came from the pool, and the frame does not free it.
pub open spec fn is_kept(b: BoundTexture, freed: Seq<TexKey>) -> bool {
    b.pooled && b.id is Managed && !freed.contains(b.id)
}

/// The identifiers of the kept textures among `bound`, in order.
pub open spec fn kept_ids(bound: Seq<BoundTexture>, freed: Seq<TexKey>) -> Seq<TexKey>
    decreases bound.len(),
{
    if bound.len() == 0 {
        Seq::empty()
    } else if is_kept(bound.last(), freed) {
        kept_ids(bound.drop_last(), freed).push(bound.last().id)
    } else {
        kept_ids(bound.drop_last(), freed)
    }
}

fn is_freed(freed: &Vec<TexKey>, id: TexKey) -> (b: bool)
    ensures
        b == freed@.contains(id),
{
    let mut i: usize = 0;
    while i < freed.len()
        invariant
            i <= freed@.len(),
            forall|j: int| 0 <= j < i ==> freed@[j] != id,
        decreases freed@.len() - i,
    {
        if freed[i] == id {
            assert(freed@[i as int] == id);
            return true;
        }
        i += 1;
    }
    false
}

/// At the end of a frame, the textures to keep for the next one: the
/// managed textures whose images came from the pool, except those the frame
/// frees.
pub fn textures_to_keep(bound: &Vec<BoundTexture>, freed: &Vec<TexKey>) -> (r: Vec<TexKey>)
    ensures
        r@ == kept_ids(bound@, freed@),
{
    let mut r: Vec<TexKey> = Vec::new();
    let mut i: usize = 0;
    while i < bound.len()
        invariant
            i <= bound@.len(),
            r@ == kept_ids(bound@.take(i as int), freed@),
        decreases bound@.len() - i,
    {
        proof {
            assert(bound@.take(i + 1).drop_last() =~= bound@.take(i as int));
        }
        let b = bound[i];
        let managed = match b.id {
            TexKey::Managed(_) => true,
            TexKey::User(_) => false,
        };
        if b.pooled && managed && !is_freed(freed, b.id) {
            r.push(b.id);
        }
        i += 1;
    }
    proof {
        assert(bound@.take(i as int) =~= bound@);
    }
    r
}

} // verus!
