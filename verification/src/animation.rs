//! Animations: sequences of sprites, each with the animation that follows
//! it.

use crate::config::{FrameConfig, PlayerAnimationsConfig};
use crate::data::{AnimationHandle, AnimationState, PlayerAnimations, SpriteNumber};
use vstd::prelude::*;

verus! {

/// A sequence of sprites, one for each tick, and the animation that is
/// shown after the last one.
#[derive(Debug)]
pub struct Animation {
    pub frames: Vec<SpriteNumber>,
    pub next: AnimationHandle,
}

/// The animations that were registered. The handle of an animation is its
/// index.
#[derive(Debug)]
pub struct AnimationStorage {
    animations: Vec<Animation>,
}

/// The number, among the sprites of all the sheets `sheets` one after the
/// other, of the sprite `sprite` of the sheet `sheet`. `sheets` holds the
/// number of sprites of each sheet.
pub open spec fn sprite_in_sheets(sheets: Seq<usize>, sheet: int, sprite: int) -> int
    decreases sheet,
{
    if sheet <= 0 {
        sprite
    } else {
        sheets[sheet - 1] + sprite_in_sheets(sheets, sheet - 1, sprite)
    }
}

/// Whether `frame` names a sprite of one of the sheets `sheets`.
pub open spec fn is_frame_of(sheets: Seq<usize>, frame: FrameConfig) -> bool {
    frame.spritesheet < sheets.len() && frame.sprite < sheets[frame.spritesheet as int]
}

/// The sprites of the frames `config`, each shown for its duration.
pub open spec fn frames_of(sheets: Seq<usize>, config: Seq<FrameConfig>) -> Seq<SpriteNumber>
    decreases config.len(),
{
    if config.len() == 0 {
        Seq::empty()
    } else {
        frames_of(sheets, config.drop_last()) + Seq::new(
            config.last().duration as nat,
            |i: int|
                SpriteNumber(
                    sprite_in_sheets(
                        sheets,
                        config.last().spritesheet as int,
                        config.last().sprite as int,
                    ) as usize,
                ),
        )
    }
}

/// The number of sprites of all the sheets `sheets` together.
pub open spec fn sprites_in(sheets: Seq<usize>) -> int {
    sprite_in_sheets(sheets, sheets.len() as int, 0)
}

proof fn lemma_sprite_in_sheets(sheets: Seq<usize>, sheet: int, sprite: int, upto: int)
    requires
        0 <= sheet < upto <= sheets.len(),
        0 <= sprite < sheets[sheet],
    ensures
        0 <= sprite_in_sheets(sheets, sheet, sprite) < sprite_in_sheets(sheets, upto, 0),
    decreases upto,
{
    lemma_sheets_start(sheets, sheet);
    if upto - 1 > sheet {
        lemma_sprite_in_sheets(sheets, sheet, sprite, upto - 1);
    } else {
        lemma_shift(sheets, sheet, sprite);
        lemma_shift(sheets, sheet + 1, 0);
    }
}

proof fn lemma_sheets_start(sheets: Seq<usize>, sheet: int)
    requires
        0 <= sheet <= sheets.len(),
    ensures
        0 <= sprite_in_sheets(sheets, sheet, 0),
    decreases sheet,
{
    if sheet > 0 {
        lemma_sheets_start(sheets, sheet - 1);
    }
}

proof fn lemma_shift(sheets: Seq<usize>, sheet: int, sprite: int)
    requires
        0 <= sheet <= sheets.len(),
    ensures
        sprite_in_sheets(sheets, sheet, sprite) == sprite_in_sheets(sheets, sheet, 0) + sprite,
    decreases sheet,
{
    if sheet > 0 {
        lemma_shift(sheets, sheet - 1, sprite);
        lemma_shift(sheets, sheet - 1, 0);
    }
}

impl AnimationStorage {
    /// The animations, by handle.
    pub closed spec fn view(&self) -> Seq<Animation> {
        self.animations@
    }

    /// A storage without animations.
    pub fn new() -> (s: Self)
        ensures
            s.view().len() == 0,
    {
        AnimationStorage { animations: Vec::new() }
    }

    /// Registers `animation` and returns its handle.
    pub fn insert(&mut self, animation: Animation) -> (handle: AnimationHandle)
        ensures
            handle.0 == old(self).view().len(),
            final(self).view() == old(self).view().push(animation),
    {
        let handle = AnimationHandle(self.animations.len());
        self.animations.push(animation);
        handle
    }

    /// Sets the animation that follows the animation `handle`.
    pub fn set_next(&mut self, handle: AnimationHandle, next: AnimationHandle)
        requires
            handle.0 < old(self).view().len(),
        ensures
            final(self).view().len() == old(self).view().len(),
            final(self).view()[handle.0 as int].frames == old(self).view()[handle.0 as int].frames,
            final(self).view()[handle.0 as int].next == next,
            forall|i: int|
                0 <= i < old(self).view().len() && i != handle.0 ==> final(self).view()[i] == old(
                    self,
                ).view()[i],
    {
        self.animations[handle.0].next = next;
    }

    /// Starts the animation `handle`.
    pub fn start(&self, handle: AnimationHandle) -> (s: AnimationState)
        ensures
            s == AnimationState::started(handle),
    {
        AnimationState::start(handle)
    }

    /// The sprite that `state` shows, if its animation is registered and
    /// has a frame for it.
    pub open spec fn shown(&self, state: AnimationState) -> Option<SpriteNumber> {
        if state.current.0 < self.view().len() && state.frame < self.view()[state.current.0 as int].frames@.len() {
            Some(self.view()[state.current.0 as int].frames@[state.frame as int])
        } else {
            None
        }
    }

    /// The state one tick after `state`: the next frame of the animation,
    /// or the first frame of the animation that follows it. A state that
    /// shows nothing stays as it is.
    pub open spec fn advanced(&self, state: AnimationState) -> AnimationState {
        if self.shown(state) is Some {
            if state.frame + 1 < self.view()[state.current.0 as int].frames@.len() {
                AnimationState { current: state.current, frame: (state.frame + 1) as usize }
            } else {
                AnimationState::started(self.view()[state.current.0 as int].next)
            }
        } else {
            state
        }
    }

    /// The sprite that `state` shows, and advances `state` by one tick.
    pub fn next(&self, state: &mut AnimationState) -> (sprite: Option<SpriteNumber>)
        ensures
            sprite == self.shown(*old(state)),
            *final(state) == self.advanced(*old(state)),
    {
        if state.current.0 < self.animations.len() {
            let animation = &self.animations[state.current.0];
            if state.frame < animation.frames.len() {
                let sprite = animation.frames[state.frame];
                if state.frame + 1 < animation.frames.len() {
                    state.frame = state.frame + 1;
                } else {
                    state.current = animation.next;
                    state.frame = 0;
                }
                return Some(sprite);
            }
        }
        None
    }
}

/// The number of the sprite `sprite` of the sheet `sheet` among the
/// sprites of all sheets.
fn sprite_number(sheets: &Vec<usize>, sheet: usize, sprite: usize) -> (n: usize)
    requires
        sheet < sheets@.len(),
        sprite < sheets@[sheet as int],
        sprites_in(sheets@) <= usize::MAX,
    ensures
        n == sprite_in_sheets(sheets@, sheet as int, sprite as int),
{
    let mut n: usize = sprite;
    let mut i: usize = 0;
    proof {
        lemma_sprite_in_sheets(sheets@, sheet as int, sprite as int, sheets@.len() as int);
    }
    while i < sheet
        invariant
            i <= sheet < sheets@.len(),
            n == sprite_in_sheets(sheets@, i as int, sprite as int),
            sprite_in_sheets(sheets@, sheet as int, sprite as int) <= usize::MAX,
        decreases sheet - i,
    {
        proof {
            lemma_grows(sheets@, (i + 1) as int, sheet as int, sprite as int);
        }
        n = n + sheets[i];
        i += 1;
    }
    n
}

proof fn lemma_grows(sheets: Seq<usize>, a: int, b: int, sprite: int)
    requires
        0 <= a <= b <= sheets.len(),
    ensures
        sprite_in_sheets(sheets, a, sprite) <= sprite_in_sheets(sheets, b, sprite),
    decreases b,
{
    if a < b {
        lemma_grows(sheets, a, b - 1, sprite);
    }
}

/// Registers the animation with the frames `config`, each shown for its
/// duration, and returns its handle. The animation is followed by `next`,
/// or by itself without one.
pub fn add_animation(
    storage: &mut AnimationStorage,
    spritesheets: &Vec<usize>,
    config: &Vec<FrameConfig>,
    next: Option<AnimationHandle>,
) -> (handle: AnimationHandle)
    requires
        sprites_in(spritesheets@) <= usize::MAX,
        forall|i: int| 0 <= i < config@.len() ==> is_frame_of(spritesheets@, #[trigger] config@[i]),
    ensures
        handle.0 == old(storage).view().len(),
        final(storage).view().len() == old(storage).view().len() + 1,
        forall|i: int|
            0 <= i < old(storage).view().len() ==> final(storage).view()[i] == old(
                storage,
            ).view()[i],
        final(storage).view()[handle.0 as int].frames@ == frames_of(spritesheets@, config@),
        final(storage).view()[handle.0 as int].next == (match next {
            Some(next) => next,
            None => handle,
        }),
{
    let mut frames: Vec<SpriteNumber> = Vec::new();
    let mut i: usize = 0;
    while i < config.len()
        invariant
            i <= config.len(),
            sprites_in(spritesheets@) <= usize::MAX,
            forall|i: int|
                0 <= i < config@.len() ==> is_frame_of(spritesheets@, #[trigger] config@[i]),
            frames@ == frames_of(spritesheets@, config@.take(i as int)),
        decreases config.len() - i,
    {
        let FrameConfig { spritesheet, sprite, duration } = config[i];
        assert(is_frame_of(spritesheets@, config@[i as int]));
        let number = SpriteNumber(sprite_number(spritesheets, spritesheet, sprite));
        let ghost before = frames@;
        let mut k: usize = 0;
        while k < duration
            invariant
                k <= duration,
                frames@ == before + Seq::new(k as nat, |j: int| number),
            decreases duration - k,
        {
            frames.push(number);
            assert(frames@ =~= before + Seq::new((k + 1) as nat, |j: int| number));
            k += 1;
        }
        proof {
            assert(config@.take(i + 1).drop_last() =~= config@.take(i as int));
            assert(config@.take(i + 1).last() == config@[i as int]);
            assert(frames@ =~= frames_of(spritesheets@, config@.take(i + 1)));
        }
        i += 1;
    }
    assert(config@.take(config@.len() as int) =~= config@);
    let handle = AnimationHandle(storage.animations.len());
    let next = match next {
        Some(next) => next,
        None => handle,
    };
    storage.insert(Animation { frames, next })
}

impl PlayerAnimations {
    /// Registers the animations of the player. Running into an obstacle is
    /// followed by idling, the start of a fall by falling and a jump by the
    /// start of a fall; the others repeat.
    pub fn from_config(
        storage: &mut AnimationStorage,
        spritesheets: &Vec<usize>,
        config: &PlayerAnimationsConfig,
    ) -> (animations: PlayerAnimations)
        requires
            sprites_in(spritesheets@) <= usize::MAX,
            frames_are_known(spritesheets@, config.idle@),
            frames_are_known(spritesheets@, config.running@),
            frames_are_known(spritesheets@, config.run_into_obstacle@),
            frames_are_known(spritesheets@, config.falling@),
            frames_are_known(spritesheets@, config.start_falling@),
            frames_are_known(spritesheets@, config.jumping@),
        ensures
            final(storage).view().len() == old(storage).view().len() + 6,
            forall|i: int|
                0 <= i < old(storage).view().len() ==> final(storage).view()[i] == old(
                    storage,
                ).view()[i],
            animations.idle.0 == old(storage).view().len(),
            animations.running.0 == old(storage).view().len() + 1,
            animations.run_into_obstacle.0 == old(storage).view().len() + 2,
            animations.falling.0 == old(storage).view().len() + 3,
            animations.start_falling.0 == old(storage).view().len() + 4,
            animations.jumping.0 == old(storage).view().len() + 5,
            is_animation(final(storage), animations.idle, spritesheets@, config.idle@, animations.idle),
            is_animation(
                final(storage),
                animations.running,
                spritesheets@,
                config.running@,
                animations.running,
            ),
            is_animation(
                final(storage),
                animations.run_into_obstacle,
                spritesheets@,
                config.run_into_obstacle@,
                animations.idle,
            ),
            is_animation(
                final(storage),
                animations.falling,
                spritesheets@,
                config.falling@,
                animations.falling,
            ),
            is_animation(
                final(storage),
                animations.start_falling,
                spritesheets@,
                config.start_falling@,
                animations.falling,
            ),
            is_animation(
                final(storage),
                animations.jumping,
                spritesheets@,
                config.jumping@,
                animations.start_falling,
            ),
    {
        let idle = add_animation(storage, spritesheets, &config.idle, None);
        let running = add_animation(storage, spritesheets, &config.running, None);
        let run_into_obstacle = add_animation(
            storage,
            spritesheets,
            &config.run_into_obstacle,
            Some(idle),
        );
        let falling = add_animation(storage, spritesheets, &config.falling, None);
        let start_falling = add_animation(
            storage,
            spritesheets,
            &config.start_falling,
            Some(falling),
        );
        let jumping = add_animation(storage, spritesheets, &config.jumping, Some(start_falling));

        PlayerAnimations { idle, running, run_into_obstacle, jumping, start_falling, falling }
    }
}

/// Whether every frame of `config` names a sprite of one of the sheets
/// `sheets`.
pub open spec fn frames_are_known(sheets: Seq<usize>, config: Seq<FrameConfig>) -> bool {
    forall|i: int| 0 <= i < config.len() ==> is_frame_of(sheets, #[trigger] config[i])
}

/// Whether the animation `handle` of `storage` has the frames `config` and
/// is followed by `next`.
pub open spec fn is_animation(
    storage: &AnimationStorage,
    handle: AnimationHandle,
    sheets: Seq<usize>,
    config: Seq<FrameConfig>,
    next: AnimationHandle,
) -> bool {
    &&& handle.0 < storage.view().len()
    &&& storage.view()[handle.0 as int].frames@ == frames_of(sheets, config)
    &&& storage.view()[handle.0 as int].next == next
}

} // verus!
