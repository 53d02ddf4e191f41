//! The advance of the animations.

use crate::animation::AnimationStorage;
use crate::data::{AnimationState, SpriteNumber};
use crate::ecs::{Entity, Storage};
use vstd::prelude::*;

verus! {

/// The animations one tick later.
pub open spec fn advanced_all(
    storage: &AnimationStorage,
    animations: Map<Entity, AnimationState>,
) -> Map<Entity, AnimationState> {
    Map::new(
        |e: Entity| animations.contains_key(e),
        |e: Entity| storage.advanced(animations[e]),
    )
}

/// The sprites after every entity whose animation shows a sprite was given
/// that sprite.
pub open spec fn shown_all(
    storage: &AnimationStorage,
    sprites: Map<Entity, SpriteNumber>,
    animations: Map<Entity, AnimationState>,
) -> Map<Entity, SpriteNumber> {
    Map::new(
        |e: Entity|
            sprites.contains_key(e) || (animations.contains_key(e) && storage.shown(animations[e])
                is Some),
        |e: Entity|
            if animations.contains_key(e) && storage.shown(animations[e]) is Some {
                storage.shown(animations[e])->Some_0
            } else {
                sprites[e]
            },
    )
}

#[derive(Debug)]
pub struct AnimationSystem;

impl AnimationSystem {
    /// Gives every animated entity the sprite that its animation shows, and
    /// advances the animation by one tick. An entity whose animation shows
    /// nothing keeps its sprite.
    pub fn run(
        &mut self,
        sprites: &mut Storage<SpriteNumber>,
        animations: &mut Storage<AnimationState>,
        animation_storage: &AnimationStorage,
    )
        ensures
            final(animations)@ == advanced_all(animation_storage, old(animations)@),
            final(sprites)@ == shown_all(animation_storage, old(sprites)@, old(animations)@),
    {
        let n = animations.bound();
        let ghost states = animations@;
        let ghost shown = sprites@;
        let mut i: usize = 0;
        while i < n
            invariant
                i <= n,
                forall|e: Entity| #[trigger] states.contains_key(e) ==> e.0 < n,
                animations@ == Map::new(
                    |e: Entity| states.contains_key(e),
                    |e: Entity|
                        if e.0 < i {
                            animation_storage.advanced(states[e])
                        } else {
                            states[e]
                        },
                ),
                sprites@ == Map::new(
                    |e: Entity|
                        shown.contains_key(e) || (e.0 < i && states.contains_key(e)
                            && animation_storage.shown(states[e]) is Some),
                    |e: Entity|
                        if e.0 < i && states.contains_key(e) && animation_storage.shown(
                            states[e],
                        ) is Some {
                            animation_storage.shown(states[e])->Some_0
                        } else {
                            shown[e]
                        },
                ),
            decreases n - i,
        {
            let entity = Entity(i);
            if let Some(mut animation) = animations.get_copied(entity) {
                if let Some(sprite) = animation_storage.next(&mut animation) {
                    sprites.insert(entity, sprite);
                }
                animations.insert(entity, animation);
            }
            i += 1;
            assert(animations@ =~= Map::new(
                |e: Entity| states.contains_key(e),
                |e: Entity|
                    if e.0 < i {
                        animation_storage.advanced(states[e])
                    } else {
                        states[e]
                    },
            ));
            assert(sprites@ =~= Map::new(
                |e: Entity|
                    shown.contains_key(e) || (e.0 < i && states.contains_key(e)
                        && animation_storage.shown(states[e]) is Some),
                |e: Entity|
                    if e.0 < i && states.contains_key(e) && animation_storage.shown(
                        states[e],
                    ) is Some {
                        animation_storage.shown(states[e])->Some_0
                    } else {
                        shown[e]
                    },
            ));
        }
        assert(animations@ =~= advanced_all(animation_storage, states));
        assert(sprites@ =~= shown_all(animation_storage, shown, states));
    }
}

} // verus!
