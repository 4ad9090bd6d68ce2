//! Which sprites' behaviors an event is sent to: every behavior of the
//! stage's and the playing film loops' sprites, `beginSprite` to sprites
//! whose behaviors have not had it yet, `endSprite` to the sprites that
//! leave. The player makes the calls, in the order given here.
use vstd::prelude::*;
use crate::datum::{CastMemberRef, ScriptErrorCode};
use crate::events::ScriptInstanceRef;

verus! {

/// The score a sprite plays in: the stage's, or a film loop member's.
#[derive(Clone, Copy, Debug)]
pub enum ScoreRef {
    Stage,
    FilmLoop(CastMemberRef),
}

/// A behavior of a sprite, and whether it has had `beginSprite` (a behavior
/// the player no longer holds counts as having had it).
#[derive(Clone, Copy, Debug)]
pub struct Behavior {
    pub instance: ScriptInstanceRef,
    pub begin_sprite_called: bool,
}

/// A score channel's sprite as events see it: the channel's number (0 is
/// the frame's behavior channel), the sprite's own number, whether it has
/// entered the stage, whether it is a puppet, and its behaviors.
pub struct ChannelSprite {
    pub number: usize,
    pub sprite_number: u16,
    pub entered: bool,
    pub puppet: bool,
    pub behaviors: Vec<Behavior>,
}

/// The sprites of a playing film loop's current frame.
pub struct FilmLoopChannels {
    pub member: CastMemberRef,
    pub channels: Vec<ChannelSprite>,
}

/// A sprite's behaviors to send an event to, in the score it plays in.
pub struct SpriteBehaviors {
    pub score: ScoreRef,
    pub number: usize,
    pub behaviors: Vec<ScriptInstanceRef>,
}

/// The instances of a list of behaviors.
pub open spec fn instances_of(b: Seq<Behavior>) -> Seq<ScriptInstanceRef> {
    b.map_values(|x: Behavior| x.instance)
}

fn copy_instances(b: &Vec<Behavior>) -> (r: Vec<ScriptInstanceRef>)
    ensures
        r@ == instances_of(b@),
{
    let mut r: Vec<ScriptInstanceRef> = Vec::new();
    let mut i: usize = 0;
    while i < b.len()
        invariant
            i <= b.len(),
            r@ == instances_of(b@.take(i as int)),
        decreases b.len() - i,
    {
        r.push(b[i].instance);
        i = i + 1;
        assert(r@ =~= instances_of(b@.take(i as int)));
    }
    assert(b@.take(b.len() as int) =~= b@);
    r
}

/// A sprite, by score, number and behaviors, as values.
pub open spec fn target(score: ScoreRef, number: usize, behaviors: Seq<ScriptInstanceRef>) -> (
    ScoreRef,
    usize,
    Seq<ScriptInstanceRef>,
) {
    (score, number, behaviors)
}

/// The targets as values.
pub open spec fn targets_view(t: Seq<SpriteBehaviors>) -> Seq<(ScoreRef, usize, Seq<ScriptInstanceRef>)> {
    t.map_values(|s: SpriteBehaviors| (s.score, s.number, s.behaviors@))
}

// ---- An event to every behavior ----

/// Whether a stage channel's sprite gets an event sent to all behaviors: it
/// has entered or is a puppet, has behaviors, and is a sprite channel.
pub open spec fn stage_sprite_targeted(c: ChannelSprite) -> bool {
    (c.entered || c.puppet) && c.behaviors@.len() > 0 && c.number > 0
}

/// Whether a film loop's sprite does: it has behaviors, has entered, and is
/// a sprite channel.
pub open spec fn film_loop_sprite_targeted(c: ChannelSprite) -> bool {
    c.behaviors@.len() > 0 && c.entered && c.number > 0
}

/// The sprites, in channel order, of the channels the predicate picks.
pub open spec fn picked(channels: Seq<ChannelSprite>, score: ScoreRef, film_loop: bool) -> Seq<
    (ScoreRef, usize, Seq<ScriptInstanceRef>),
>
    decreases channels.len(),
{
    if channels.len() == 0 {
        Seq::empty()
    } else {
        let c = channels.last();
        picked(channels.drop_last(), score, film_loop) + if (if film_loop {
            film_loop_sprite_targeted(c)
        } else {
            stage_sprite_targeted(c)
        }) {
            seq![target(score, c.number, instances_of(c.behaviors@))]
        } else {
            Seq::empty()
        }
    }
}

/// The film loops' sprites, film loop after film loop.
pub open spec fn picked_film_loops(loops: Seq<FilmLoopChannels>) -> Seq<(ScoreRef, usize, Seq<ScriptInstanceRef>)>
    decreases loops.len(),
{
    if loops.len() == 0 {
        Seq::empty()
    } else {
        picked_film_loops(loops.drop_last()) + picked(
            loops.last().channels@,
            ScoreRef::FilmLoop(loops.last().member),
            true,
        )
    }
}

fn push_picked(out: &mut Vec<SpriteBehaviors>, channels: &Vec<ChannelSprite>, score: ScoreRef, film_loop: bool)
    ensures
        targets_view(final(out)@) == targets_view(old(out)@) + picked(channels@, score, film_loop),
{
    let ghost start = targets_view(out@);
    let mut i: usize = 0;
    while i < channels.len()
        invariant
            i <= channels.len(),
            targets_view(out@) == start + picked(channels@.take(i as int), score, film_loop),
        decreases channels.len() - i,
    {
        let c = &channels[i];
        assert(channels@.take(i + 1).drop_last() =~= channels@.take(i as int));
        let take = if film_loop {
            c.behaviors.len() > 0 && c.entered && c.number > 0
        } else {
            (c.entered || c.puppet) && c.behaviors.len() > 0 && c.number > 0
        };
        assert(channels@.take(i + 1).last() == *c);
        assert(take == (if film_loop {
            film_loop_sprite_targeted(*c)
        } else {
            stage_sprite_targeted(*c)
        }));
        let ghost before = out@;
        if take {
            let sb = SpriteBehaviors { score, number: c.number, behaviors: copy_instances(&c.behaviors) };
            out.push(sb);
            assert(targets_view(out@) =~= targets_view(before).push(target(score, c.number, instances_of(c.behaviors@))));
        } else {
            assert(targets_view(out@) =~= targets_view(before));
        }
        i = i + 1;
        assert(targets_view(out@) =~= start + picked(channels@.take(i as int), score, film_loop));
    }
    assert(channels@.take(channels.len() as int) =~= channels@);
}

/// The sprites an event for all behaviors goes to: the stage's first, in
/// channel order, then each film loop's.
pub fn behavior_targets(stage: &Vec<ChannelSprite>, film_loops: &Vec<FilmLoopChannels>) -> (r: Vec<SpriteBehaviors>)
    ensures
        targets_view(r@) == picked(stage@, ScoreRef::Stage, false) + picked_film_loops(film_loops@),
{
    let mut out: Vec<SpriteBehaviors> = Vec::new();
    assert(targets_view(out@) =~= Seq::<(ScoreRef, usize, Seq<ScriptInstanceRef>)>::empty());
    push_picked(&mut out, stage, ScoreRef::Stage, false);
    let ghost head = targets_view(out@);
    let mut j: usize = 0;
    while j < film_loops.len()
        invariant
            j <= film_loops.len(),
            head == picked(stage@, ScoreRef::Stage, false),
            targets_view(out@) == head + picked_film_loops(film_loops@.take(j as int)),
        decreases film_loops.len() - j,
    {
        assert(film_loops@.take(j + 1).drop_last() =~= film_loops@.take(j as int));
        let fl = &film_loops[j];
        push_picked(&mut out, &fl.channels, ScoreRef::FilmLoop(fl.member), true);
        j = j + 1;
        assert(targets_view(out@) =~= head + picked_film_loops(film_loops@.take(j as int)));
    }
    assert(film_loops@.take(film_loops.len() as int) =~= film_loops@);
    out
}

/// Whether an event may be sent to all behaviors now: not while behavior
/// properties are being set up, and not from within such a dispatch.
pub fn dispatch_allowed(initializing_behavior_props: bool, dispatching_events: bool) -> (r: bool)
    ensures
        r == (!initializing_behavior_props && !dispatching_events),
{
    !initializing_behavior_props && !dispatching_events
}

/// Whether a behavior's error stops the rest of a dispatch: an abort does;
/// any other error is reported and the dispatch goes on.
pub fn error_stops_dispatch(code: ScriptErrorCode) -> (r: bool)
    ensures
        r == (code == ScriptErrorCode::Abort),
{
    code == ScriptErrorCode::Abort
}

// ---- beginSprite ----

/// Whether any behavior has had `beginSprite`.
pub open spec fn any_started(b: Seq<Behavior>) -> bool {
    exists|i: int| 0 <= i < b.len() && (#[trigger] b[i]).begin_sprite_called
}

fn any_started_exec(b: &Vec<Behavior>) -> (r: bool)
    ensures
        r == any_started(b@),
{
    let mut i: usize = 0;
    while i < b.len()
        invariant
            i <= b.len(),
            forall|j: int| 0 <= j < i ==> !(#[trigger] b@[j]).begin_sprite_called,
        decreases b.len() - i,
    {
        if b[i].begin_sprite_called {
            return true;
        }
        i = i + 1;
    }
    false
}

/// Whether a channel's sprite gets `beginSprite`: it has entered, has
/// behaviors, and none of them has had it yet.
pub open spec fn begins(c: ChannelSprite) -> bool {
    c.entered && c.behaviors@.len() > 0 && !any_started(c.behaviors@)
}

/// The sprite behaviors and channels `beginSprite` goes to, and whether the
/// frame's behavior channel gets it.
pub struct BeginSpriteTargets {
    /// Each sprite behavior by itself, with its score and channel.
    pub behaviors: Vec<(ScoreRef, usize, ScriptInstanceRef)>,
    /// Whether the frame's behaviors get it (they are reached through the
    /// frame and movie scripts).
    pub frame: bool,
    /// The channels that begin, with their scores.
    pub channels: Vec<(ScoreRef, u32)>,
}

/// Each behavior of a sprite by itself.
pub open spec fn each_behavior(score: ScoreRef, number: usize, b: Seq<ScriptInstanceRef>) -> Seq<
    (ScoreRef, usize, ScriptInstanceRef),
> {
    b.map_values(|i: ScriptInstanceRef| (score, number, i))
}

/// What `beginSprite` reaches on channels of one score, in channel order:
/// the behaviors, whether the frame channel begins, and the channels. On
/// a film loop only sprite channels take part.
pub open spec fn begin_sprite_spec(channels: Seq<ChannelSprite>, score: ScoreRef, film_loop: bool) -> (
    Seq<(ScoreRef, usize, ScriptInstanceRef)>,
    bool,
    Seq<(ScoreRef, u32)>,
)
    decreases channels.len(),
{
    if channels.len() == 0 {
        (Seq::empty(), false, Seq::empty())
    } else {
        let (b, f, ch) = begin_sprite_spec(channels.drop_last(), score, film_loop);
        let c = channels.last();
        if !begins(c) || (film_loop && c.number == 0) {
            (b, f, ch)
        } else if c.number == 0 {
            (b, true, ch.push((score, c.number as u32)))
        } else {
            (b + each_behavior(score, c.number, instances_of(c.behaviors@)), f, ch.push((score, c.number as u32)))
        }
    }
}

/// The same over the film loops, film loop after film loop.
pub open spec fn begin_sprite_film_loops(loops: Seq<FilmLoopChannels>) -> (
    Seq<(ScoreRef, usize, ScriptInstanceRef)>,
    bool,
    Seq<(ScoreRef, u32)>,
)
    decreases loops.len(),
{
    if loops.len() == 0 {
        (Seq::empty(), false, Seq::empty())
    } else {
        let (b, f, ch) = begin_sprite_film_loops(loops.drop_last());
        let (b2, f2, ch2) = begin_sprite_spec(loops.last().channels@, ScoreRef::FilmLoop(loops.last().member), true);
        (b + b2, f || f2, ch + ch2)
    }
}

fn add_begin_sprite(t: &mut BeginSpriteTargets, channels: &Vec<ChannelSprite>, score: ScoreRef, film_loop: bool)
    ensures
        ({
            let (b, f, ch) = begin_sprite_spec(channels@, score, film_loop);
            &&& final(t).behaviors@ == old(t).behaviors@ + b
            &&& final(t).frame == (old(t).frame || f)
            &&& final(t).channels@ == old(t).channels@ + ch
        }),
{
    let ghost b0 = t.behaviors@;
    let ghost f0 = t.frame;
    let ghost c0 = t.channels@;
    let mut i: usize = 0;
    while i < channels.len()
        invariant
            i <= channels.len(),
            t.behaviors@ == b0 + begin_sprite_spec(channels@.take(i as int), score, film_loop).0,
            t.frame == (f0 || begin_sprite_spec(channels@.take(i as int), score, film_loop).1),
            t.channels@ == c0 + begin_sprite_spec(channels@.take(i as int), score, film_loop).2,
        decreases channels.len() - i,
    {
        let c = &channels[i];
        assert(channels@.take(i + 1).drop_last() =~= channels@.take(i as int));
        assert(channels@.take(i + 1).last() == *c);
        let ghost prev = begin_sprite_spec(channels@.take(i as int), score, film_loop);
        let ghost next = begin_sprite_spec(channels@.take(i + 1), score, film_loop);
        let starts = c.entered && c.behaviors.len() > 0 && !any_started_exec(&c.behaviors);
        assert(starts == begins(*c));
        if starts && !(film_loop && c.number == 0) {
            if c.number == 0 {
                assert(next == (prev.0, true, prev.2.push((score, c.number as u32))));
                t.frame = true;
            } else {
                assert(next == (prev.0 + each_behavior(score, c.number, instances_of(c.behaviors@)), prev.1, prev.2.push(
                    (score, c.number as u32),
                )));
                let ghost before = t.behaviors@;
                let mut k: usize = 0;
                while k < c.behaviors.len()
                    invariant
                        k <= c.behaviors.len(),
                        t.behaviors@ == before + each_behavior(score, c.number, instances_of(c.behaviors@.take(k as int))),
                        t.frame == (f0 || prev.1),
                        t.channels@ == c0 + prev.2,
                    decreases c.behaviors.len() - k,
                {
                    t.behaviors.push((score, c.number, c.behaviors[k].instance));
                    k = k + 1;
                    assert(t.behaviors@ =~= before + each_behavior(
                        score,
                        c.number,
                        instances_of(c.behaviors@.take(k as int)),
                    ));
                }
                assert(c.behaviors@.take(c.behaviors.len() as int) =~= c.behaviors@);
                assert(t.behaviors@ =~= b0 + next.0);
            }
            t.channels.push((score, c.number as u32));
            assert(t.channels@ =~= c0 + next.2);
        } else {
            assert(next == prev);
        }
        i = i + 1;
    }
    assert(channels@.take(channels.len() as int) =~= channels@);
}

/// Where `beginSprite` goes: the stage's channels first, in order, then
/// each film loop's sprite channels; see `begin_sprite_spec`.
pub fn begin_sprite_targets(stage: &Vec<ChannelSprite>, film_loops: &Vec<FilmLoopChannels>) -> (r: BeginSpriteTargets)
    ensures
        ({
            let (b1, f1, c1) = begin_sprite_spec(stage@, ScoreRef::Stage, false);
            let (b2, f2, c2) = begin_sprite_film_loops(film_loops@);
            &&& r.behaviors@ == b1 + b2
            &&& r.frame == (f1 || f2)
            &&& r.channels@ == c1 + c2
        }),
{
    let mut t = BeginSpriteTargets { behaviors: Vec::new(), frame: false, channels: Vec::new() };
    add_begin_sprite(&mut t, stage, ScoreRef::Stage, false);
    let ghost (b1, f1, c1) = begin_sprite_spec(stage@, ScoreRef::Stage, false);
    assert(t.behaviors@ =~= b1);
    assert(t.channels@ =~= c1);
    let mut j: usize = 0;
    while j < film_loops.len()
        invariant
            j <= film_loops.len(),
            (b1, f1, c1) == begin_sprite_spec(stage@, ScoreRef::Stage, false),
            t.behaviors@ == b1 + begin_sprite_film_loops(film_loops@.take(j as int)).0,
            t.frame == (f1 || begin_sprite_film_loops(film_loops@.take(j as int)).1),
            t.channels@ == c1 + begin_sprite_film_loops(film_loops@.take(j as int)).2,
        decreases film_loops.len() - j,
    {
        assert(film_loops@.take(j + 1).drop_last() =~= film_loops@.take(j as int));
        let fl = &film_loops[j];
        assert(film_loops@.take(j + 1).last() == *fl);
        add_begin_sprite(&mut t, &fl.channels, ScoreRef::FilmLoop(fl.member), true);
        j = j + 1;
        assert(t.behaviors@ =~= b1 + begin_sprite_film_loops(film_loops@.take(j as int)).0);
        assert(t.channels@ =~= c1 + begin_sprite_film_loops(film_loops@.take(j as int)).2);
    }
    assert(film_loops@.take(film_loops.len() as int) =~= film_loops@);
    t
}

// ---- endSprite ----

/// The numbers with repeats left out, each where it first occurs.
pub open spec fn first_occurrences(nums: Seq<u32>) -> Seq<u32>
    decreases nums.len(),
{
    if nums.len() == 0 {
        Seq::empty()
    } else if nums.drop_last().contains(nums.last()) {
        first_occurrences(nums.drop_last())
    } else {
        first_occurrences(nums.drop_last()).push(nums.last())
    }
}

/// The sprites `endSprite` goes to and whether the frame's behavior channel
/// gets it: each channel named (once, in the order first named) that the
/// score has and whose sprite has behaviors.
pub open spec fn end_sprite_spec(nums: Seq<u32>, channels: Seq<ChannelSprite>) -> (Seq<(u16, Seq<ScriptInstanceRef>)>, bool)
    decreases nums.len(),
{
    if nums.len() == 0 {
        (Seq::empty(), false)
    } else {
        let (s, f) = end_sprite_spec(nums.drop_last(), channels);
        let n = nums.last() as int;
        if n >= channels.len() || channels[n].behaviors@.len() == 0 {
            (s, f)
        } else if channels[n].number > 0 {
            (s.push((channels[n].sprite_number, instances_of(channels[n].behaviors@))), f)
        } else {
            (s, true)
        }
    }
}

proof fn lemma_push_contains(s: Seq<u32>, a: u32, x: u32)
    ensures
        s.push(a).contains(x) <==> (s.contains(x) || x == a),
{
    if s.push(a).contains(x) {
        let j = choose|j: int| 0 <= j < s.push(a).len() && s.push(a)[j] == x;
        if j < s.len() {
            assert(s[j] == x);
        }
    }
    if s.contains(x) {
        let j = choose|j: int| 0 <= j < s.len() && s[j] == x;
        assert(s.push(a)[j] == x);
    }
    if x == a {
        assert(s.push(a)[s.len() as int] == x);
    }
}

/// The sprites `endSprite` goes to in a score, by sprite number, and
/// whether its frame behaviors get it; `channels` are the score's channels
/// by number. See `end_sprite_spec` and `first_occurrences`.
pub fn end_sprite_targets(sprite_nums: &Vec<u32>, channels: &Vec<ChannelSprite>) -> (r: (
    Vec<(u16, Vec<ScriptInstanceRef>)>,
    bool,
))
    ensures
        r.0@.map_values(|e: (u16, Vec<ScriptInstanceRef>)| (e.0, e.1@)) == end_sprite_spec(
            first_occurrences(sprite_nums@),
            channels@,
        ).0,
        r.1 == end_sprite_spec(first_occurrences(sprite_nums@), channels@).1,
{
    let mut seen: Vec<u32> = Vec::new();
    let mut sprites: Vec<(u16, Vec<ScriptInstanceRef>)> = Vec::new();
    let mut frame = false;
    let mut i: usize = 0;
    while i < sprite_nums.len()
        invariant
            i <= sprite_nums.len(),
            seen@ == first_occurrences(sprite_nums@.take(i as int)),
            forall|x: u32| #[trigger] seen@.contains(x) <==> sprite_nums@.take(i as int).contains(x),
            sprites@.map_values(|e: (u16, Vec<ScriptInstanceRef>)| (e.0, e.1@)) == end_sprite_spec(seen@, channels@).0,
            frame == end_sprite_spec(seen@, channels@).1,
        decreases sprite_nums.len() - i,
    {
        let n = sprite_nums[i];
        let ghost prefix = sprite_nums@.take(i as int);
        assert(sprite_nums@.take(i + 1) =~= prefix.push(n));
        assert(prefix.push(n).drop_last() =~= prefix);
        let mut already = false;
        let mut k: usize = 0;
        while k < seen.len()
            invariant
                k <= seen.len(),
                already == (exists|j: int| 0 <= j < k && seen@[j] == n),
            decreases seen.len() - k,
        {
            if seen[k] == n {
                already = true;
            }
            k = k + 1;
        }
        assert(already == seen@.contains(n));
        let ghost old_seen = seen@;
        if !already {
            let ghost old_sprites = sprites@;
            seen.push(n);
            assert(seen@.drop_last() =~= old_seen);
            assert(seen@.last() == n);
            let idx = n as usize;
            if idx < channels.len() && channels[idx].behaviors.len() > 0 {
                if channels[idx].number > 0 {
                    sprites.push((channels[idx].sprite_number, copy_instances(&channels[idx].behaviors)));
                    assert(sprites@.map_values(|e: (u16, Vec<ScriptInstanceRef>)| (e.0, e.1@)) =~= old_sprites.map_values(
                        |e: (u16, Vec<ScriptInstanceRef>)| (e.0, e.1@),
                    ).push((channels@[idx as int].sprite_number, instances_of(channels@[idx as int].behaviors@))));
                } else {
                    frame = true;
                }
            }
        }
        proof {
            assert forall|x: u32| #[trigger] seen@.contains(x) <==> prefix.push(n).contains(x) by {
                lemma_push_contains(prefix, n, x);
                lemma_push_contains(old_seen, n, x);
            }
        }
        i = i + 1;
    }
    assert(sprite_nums@.take(sprite_nums.len() as int) =~= sprite_nums@);
    (sprites, frame)
}

// ---- Sending an event to the behaviors, one at a time ----

/// Where a dispatch to sprite behaviors stands: the sprite and behavior it
/// is at, whether the sprite's score context is set, and whether it is over.
#[derive(Clone, Copy, Debug)]
pub struct BehaviorDispatch {
    pub sprite: usize,
    pub behavior: usize,
    pub entered: bool,
    pub finished: bool,
}

/// What the player does next in a dispatch to sprite behaviors.
#[derive(Clone, Copy, Debug)]
pub enum DispatchAction {
    /// Set the score context to the sprite's score.
    EnterScore(ScoreRef),
    /// Call the handler on this behavior of this sprite.
    Invoke(usize, ScriptInstanceRef),
    /// Report the error the last call gave.
    Report,
    /// Set the score context back to the stage.
    LeaveScore,
    /// Every behavior has had the event.
    Finished,
    /// A call aborted: set the score context back to the stage and stop.
    Aborted,
}

/// How the last action went.
#[derive(Clone, Copy, Debug)]
pub enum DispatchEvent {
    /// The action was done.
    Done,
    /// The call returned, with the error's kind where it failed.
    Invoked(Option<ScriptErrorCode>),
}

/// The action at the dispatch's position: the end once past the last sprite;
/// else the sprite's score first, then its behaviors in order, then back to
/// the stage, and on to the next sprite.
pub open spec fn dispatch_next(t: Seq<(ScoreRef, usize, Seq<ScriptInstanceRef>)>, s: BehaviorDispatch) -> (
    BehaviorDispatch,
    DispatchAction,
) {
    if s.finished || s.sprite >= t.len() {
        (BehaviorDispatch { finished: true, ..s }, DispatchAction::Finished)
    } else if !s.entered {
        (BehaviorDispatch { entered: true, behavior: 0, ..s }, DispatchAction::EnterScore(t[s.sprite as int].0))
    } else if s.behavior < t[s.sprite as int].2.len() {
        (s, DispatchAction::Invoke(t[s.sprite as int].1, t[s.sprite as int].2[s.behavior as int]))
    } else {
        (
            BehaviorDispatch { sprite: (s.sprite + 1) as usize, behavior: 0, entered: false, ..s },
            DispatchAction::LeaveScore,
        )
    }
}

/// The dispatch after an event: a call that aborted ends it; one that failed
/// otherwise is reported and the next behavior follows, as after a call
/// that returned; any other action done leads to the action at the
/// dispatch's position.
pub open spec fn dispatch_step(t: Seq<(ScoreRef, usize, Seq<ScriptInstanceRef>)>, s: BehaviorDispatch, ev: DispatchEvent) -> (
    BehaviorDispatch,
    DispatchAction,
) {
    match ev {
        DispatchEvent::Invoked(Some(code)) => if code == ScriptErrorCode::Abort {
            (BehaviorDispatch { finished: true, ..s }, DispatchAction::Aborted)
        } else {
            (BehaviorDispatch { behavior: (s.behavior + 1) as usize, ..s }, DispatchAction::Report)
        },
        DispatchEvent::Invoked(None) => dispatch_next(t, BehaviorDispatch { behavior: (s.behavior + 1) as usize, ..s }),
        DispatchEvent::Done => dispatch_next(t, s),
    }
}

/// A call is awaited: the dispatch is at a behavior of an entered sprite.
pub open spec fn awaits_call(t: Seq<(ScoreRef, usize, Seq<ScriptInstanceRef>)>, s: BehaviorDispatch) -> bool {
    !s.finished && s.sprite < t.len() && s.entered && s.behavior < t[s.sprite as int].2.len()
}

impl BehaviorDispatch {
    /// A dispatch before its first action.
    pub fn start() -> (d: BehaviorDispatch)
        ensures
            d == (BehaviorDispatch { sprite: 0, behavior: 0, entered: false, finished: false }),
    {
        BehaviorDispatch { sprite: 0, behavior: 0, entered: false, finished: false }
    }

    /// Takes how the last action went and gives the next; see
    /// `dispatch_step`. The first action follows `Done` on a dispatch just
    /// started. A call's outcome is taken only while a call is awaited.
    pub fn step(&mut self, targets: &Vec<SpriteBehaviors>, ev: DispatchEvent) -> (a: DispatchAction)
        requires
            ev is Invoked ==> awaits_call(targets_view(targets@), *old(self)) && old(self).behavior < usize::MAX,
        ensures
            (*final(self), a) == dispatch_step(targets_view(targets@), *old(self), ev),
    {
        let ghost t = targets_view(targets@);
        match ev {
            DispatchEvent::Invoked(Some(code)) => {
                if code == ScriptErrorCode::Abort {
                    self.finished = true;
                    return DispatchAction::Aborted;
                }
                self.behavior = self.behavior + 1;
                DispatchAction::Report
            },
            DispatchEvent::Invoked(None) => {
                self.behavior = self.behavior + 1;
                self.next(targets)
            },
            DispatchEvent::Done => self.next(targets),
        }
    }

    fn next(&mut self, targets: &Vec<SpriteBehaviors>) -> (a: DispatchAction)
        ensures
            (*final(self), a) == dispatch_next(targets_view(targets@), *old(self)),
    {
        let ghost t = targets_view(targets@);
        if self.finished || self.sprite >= targets.len() {
            self.finished = true;
            return DispatchAction::Finished;
        }
        let target = &targets[self.sprite];
        assert(t[self.sprite as int] == (target.score, target.number, target.behaviors@));
        if !self.entered {
            self.entered = true;
            self.behavior = 0;
            return DispatchAction::EnterScore(target.score);
        }
        if self.behavior < target.behaviors.len() {
            return DispatchAction::Invoke(target.number, target.behaviors[self.behavior]);
        }
        self.sprite = self.sprite + 1;
        self.behavior = 0;
        self.entered = false;
        DispatchAction::LeaveScore
    }
}

/// An abort ends the dispatch, whatever behaviors are left.
pub proof fn lemma_abort_ends_dispatch(t: Seq<(ScoreRef, usize, Seq<ScriptInstanceRef>)>, s: BehaviorDispatch)
    ensures
        dispatch_step(t, s, DispatchEvent::Invoked(Some(ScriptErrorCode::Abort))).1 is Aborted,
        dispatch_step(t, s, DispatchEvent::Invoked(Some(ScriptErrorCode::Abort))).0.finished,
        dispatch_next(t, dispatch_step(t, s, DispatchEvent::Invoked(Some(ScriptErrorCode::Abort))).0).1 is Finished,
{
}

/// After a sprite's last behavior, whether its call returned or failed
/// other than by an abort, the score context goes back to the stage before
/// anything else.
pub proof fn lemma_stage_after_each_sprite(
    t: Seq<(ScoreRef, usize, Seq<ScriptInstanceRef>)>,
    s: BehaviorDispatch,
    code: Option<ScriptErrorCode>,
)
    requires
        awaits_call(t, s),
        s.behavior < usize::MAX,
        s.behavior + 1 == t[s.sprite as int].2.len(),
        code != Some(ScriptErrorCode::Abort),
    ensures
        ({
            let (s1, a1) = dispatch_step(t, s, DispatchEvent::Invoked(code));
            match a1 {
                DispatchAction::Report => dispatch_step(t, s1, DispatchEvent::Done).1 is LeaveScore,
                _ => a1 is LeaveScore,
            }
        }),
{
}

/// A call that fails other than by an abort is reported, and the next
/// behavior of the sprite, if any, is called after.
pub proof fn lemma_errors_reported_and_passed(
    t: Seq<(ScoreRef, usize, Seq<ScriptInstanceRef>)>,
    s: BehaviorDispatch,
    code: ScriptErrorCode,
)
    requires
        awaits_call(t, s),
        s.behavior < usize::MAX,
        s.behavior + 1 < t[s.sprite as int].2.len(),
        code != ScriptErrorCode::Abort,
    ensures
        dispatch_step(t, s, DispatchEvent::Invoked(Some(code))).1 is Report,
        dispatch_step(t, dispatch_step(t, s, DispatchEvent::Invoked(Some(code))).0, DispatchEvent::Done).1
            == DispatchAction::Invoke(t[s.sprite as int].1, t[s.sprite as int].2[s.behavior + 1]),
{
}

} // verus!
