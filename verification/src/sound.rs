use vstd::prelude::*;

verus! {

/// The events of the game that make a sound.
#[derive(Debug, Clone, Copy, PartialEq, Eq, Structural)]
pub enum EffectKind {
    Victory,
    CharacterDeath,
    EnemyDeath,
    PickUp,
    Explosion,
    Overtime,
}

/// The sound clips of the game; an explosion mixes three clips.
#[derive(Debug, Clone, Copy, PartialEq, Eq, Structural)]
pub enum SoundClip {
    ExplosionFirst,
    ExplosionSecond,
    ExplosionThird,
    EnemyDeath,
    CharacterDeath,
    Victory,
    PickUp,
    Overtime,
}

/// One clip to play: right away, or after a delay in milliseconds; quiet clips are played
/// lower than the others.
#[derive(Debug, Clone, Copy, PartialEq, Eq, Structural)]
pub struct ScheduledSound {
    pub clip: SoundClip,
    pub delay_ms: Option<u64>,
    pub quiet: bool,
}

pub open spec fn later(clip: SoundClip, delay_ms: u64, quiet: bool) -> ScheduledSound {
    ScheduledSound { clip, delay_ms: Some(delay_ms), quiet }
}

pub open spec fn now(clip: SoundClip) -> ScheduledSound {
    ScheduledSound { clip, delay_ms: None, quiet: false }
}

/// The event each clip belongs to: the three explosion clips to explosions, every other clip
/// to the event of the same name.
pub open spec fn clip_event(clip: SoundClip) -> EffectKind {
    match clip {
        SoundClip::ExplosionFirst => EffectKind::Explosion,
        SoundClip::ExplosionSecond => EffectKind::Explosion,
        SoundClip::ExplosionThird => EffectKind::Explosion,
        SoundClip::EnemyDeath => EffectKind::EnemyDeath,
        SoundClip::CharacterDeath => EffectKind::CharacterDeath,
        SoundClip::Victory => EffectKind::Victory,
        SoundClip::PickUp => EffectKind::PickUp,
        SoundClip::Overtime => EffectKind::Overtime,
    }
}

/// The clips an event plays: an explosion rumbles with eight quiet clips spread over 0.7 s,
/// deaths sound after 1.5 s, the other events right away.
pub open spec fn spec_sound_schedule(effect: EffectKind) -> Seq<ScheduledSound> {
    match effect {
        EffectKind::Explosion => seq![
            later(SoundClip::ExplosionThird, 150, true),
            later(SoundClip::ExplosionThird, 250, true),
            later(SoundClip::ExplosionThird, 400, true),
            later(SoundClip::ExplosionThird, 550, true),
            later(SoundClip::ExplosionThird, 700, true),
            later(SoundClip::ExplosionFirst, 0, true),
            later(SoundClip::ExplosionFirst, 700, true),
            later(SoundClip::ExplosionSecond, 400, true),
        ],
        EffectKind::EnemyDeath => seq![later(SoundClip::EnemyDeath, 1500, false)],
        EffectKind::CharacterDeath => seq![later(SoundClip::CharacterDeath, 1500, false)],
        EffectKind::Victory => seq![now(SoundClip::Victory)],
        EffectKind::PickUp => seq![now(SoundClip::PickUp)],
        EffectKind::Overtime => seq![now(SoundClip::Overtime)],
    }
}

/// The clips to play for an event (see `spec_sound_schedule`).
pub fn on_sound_trigger(effect: EffectKind) -> (r: Vec<ScheduledSound>)
    ensures
        r@ == spec_sound_schedule(effect),
        r@.len() > 0,
        forall|i: int| 0 <= i < r@.len() ==> clip_event(#[trigger] r@[i].clip) == effect,
{
    let r = match effect {
        EffectKind::Explosion => {
            let mut r: Vec<ScheduledSound> = Vec::new();
            let delays: [(SoundClip, u64); 8] = [
                (SoundClip::ExplosionThird, 150),
                (SoundClip::ExplosionThird, 250),
                (SoundClip::ExplosionThird, 400),
                (SoundClip::ExplosionThird, 550),
                (SoundClip::ExplosionThird, 700),
                (SoundClip::ExplosionFirst, 0),
                (SoundClip::ExplosionFirst, 700),
                (SoundClip::ExplosionSecond, 400),
            ];
            let mut i: usize = 0;
            while i < 8
                invariant
                    i <= 8,
                    r@.len() == i,
                    forall|k: int|
                        0 <= k < i ==> r@[k] == later(delays@[k].0, delays@[k].1, true),
                decreases 8 - i,
            {
                let (clip, delay) = delays[i];
                r.push(ScheduledSound { clip, delay_ms: Some(delay), quiet: true });
                i = i + 1;
            }
            r
        },
        EffectKind::EnemyDeath => vec![ScheduledSound { clip: SoundClip::EnemyDeath, delay_ms: Some(1500), quiet: false }],
        EffectKind::CharacterDeath => vec![ScheduledSound { clip: SoundClip::CharacterDeath, delay_ms: Some(1500), quiet: false }],
        EffectKind::Victory => vec![ScheduledSound { clip: SoundClip::Victory, delay_ms: None, quiet: false }],
        EffectKind::PickUp => vec![ScheduledSound { clip: SoundClip::PickUp, delay_ms: None, quiet: false }],
        EffectKind::Overtime => vec![ScheduledSound { clip: SoundClip::Overtime, delay_ms: None, quiet: false }],
    };
    assert(r@ =~= spec_sound_schedule(effect));
    r
}

/// Each event plays its own clips and at least one: every clip scheduled for an event belongs
/// to that event, so no event plays another event's clip. Only an explosion is quiet, only the
/// deaths wait (1.5 s) and an explosion spreads its clips over 0.7 s; every other event plays
/// exactly one clip right away.
pub proof fn lemma_each_event_plays_its_own_clips(effect: EffectKind)
    ensures
        spec_sound_schedule(effect).len() > 0,
        forall|i: int|
            0 <= i < spec_sound_schedule(effect).len() ==> {
                let s = #[trigger] spec_sound_schedule(effect)[i];
                &&& clip_event(s.clip) == effect
                &&& s.quiet <==> effect == EffectKind::Explosion
                &&& (effect == EffectKind::EnemyDeath || effect == EffectKind::CharacterDeath) ==> s.delay_ms
                    == Some(1500u64)
                &&& effect == EffectKind::Explosion ==> (s.delay_ms matches Some(ms) && ms <= 700)
                &&& (effect == EffectKind::Victory || effect == EffectKind::PickUp || effect
                    == EffectKind::Overtime) ==> s.delay_ms is None && spec_sound_schedule(effect).len() == 1
            },
{
}

} // verus!
