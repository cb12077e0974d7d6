//! What the heads-up display lists: one line per power-up effect that still
//! has time left, refreshed ten times a second.
use vstd::prelude::*;

use crate::player::EffectKind;
use crate::timer::{ticked, Timer, TimerMode, TimerModel};

verus! {

/// How often the power-up list is refreshed.
pub const POWERUP_UI_PERIOD: u64 = 100_000_000;

/// One line of the power-up list: an effect and its time left.
#[derive(Clone, Copy, Debug, PartialEq, Eq, Structural)]
pub struct EffectLine {
    pub kind: EffectKind,
    pub remaining: u64,
}

/// The line an effect gets: none when the effect is not carried or has no
/// time left.
pub open spec fn line_for(kind: EffectKind, remaining: Option<u64>) -> Seq<EffectLine> {
    match remaining {
        Some(r) => if r > 0 {
            seq![EffectLine { kind, remaining: r }]
        } else {
            Seq::empty()
        },
        None => Seq::empty(),
    }
}

/// The lines for the four effects, in the order triple shot, rapid fire,
/// pierce shot, invincibility.
pub open spec fn spec_powerup_lines(
    triple_shot: Option<u64>,
    rapid_fire: Option<u64>,
    pierce_shot: Option<u64>,
    invincible: Option<u64>,
) -> Seq<EffectLine> {
    line_for(EffectKind::TripleShot, triple_shot) + line_for(EffectKind::RapidFire, rapid_fire)
        + line_for(EffectKind::PierceShot, pierce_shot) + line_for(EffectKind::Invincible, invincible)
}

/// The label an effect is listed under.
pub fn effect_label(kind: EffectKind) -> (label: &'static str)
    ensures
        label@ == match kind {
            EffectKind::TripleShot => "TRIPLE"@,
            EffectKind::RapidFire => "RAPID"@,
            EffectKind::PierceShot => "PIERCE"@,
            EffectKind::Invincible => "INVINCIBLE"@,
        },
{
    match kind {
        EffectKind::TripleShot => "TRIPLE",
        EffectKind::RapidFire => "RAPID",
        EffectKind::PierceShot => "PIERCE",
        EffectKind::Invincible => "INVINCIBLE",
    }
}

/// Adds the line for `kind`, if it gets one.
pub fn append_effect_line(lines: &mut Vec<EffectLine>, kind: EffectKind, remaining: Option<u64>)
    ensures
        final(lines)@ == old(lines)@ + line_for(kind, remaining),
{
    let ghost before = lines@;
    match remaining {
        Some(r) => {
            if r > 0 {
                lines.push(EffectLine { kind, remaining: r });
                assert(lines@ =~= before + line_for(kind, remaining));
            } else {
                assert(before + line_for(kind, remaining) =~= before);
            }
        },
        None => {
            assert(before + line_for(kind, remaining) =~= before);
        },
    }
}

/// The power-up list for the effects' times left.
pub fn powerup_lines(
    triple_shot: Option<u64>,
    rapid_fire: Option<u64>,
    pierce_shot: Option<u64>,
    invincible: Option<u64>,
) -> (lines: Vec<EffectLine>)
    ensures
        lines@ == spec_powerup_lines(triple_shot, rapid_fire, pierce_shot, invincible),
{
    let mut lines: Vec<EffectLine> = Vec::new();
    append_effect_line(&mut lines, EffectKind::TripleShot, triple_shot);
    append_effect_line(&mut lines, EffectKind::RapidFire, rapid_fire);
    append_effect_line(&mut lines, EffectKind::PierceShot, pierce_shot);
    append_effect_line(&mut lines, EffectKind::Invincible, invincible);
    assert(lines@ =~= spec_powerup_lines(triple_shot, rapid_fire, pierce_shot, invincible));
    lines
}

/// The refresh timer before a tick: a timer with no duration yet becomes a
/// fresh repeating timer of the refresh period.
pub open spec fn refresh_timer(t: TimerModel) -> TimerModel {
    if t.duration == 0 {
        TimerModel {
            elapsed: 0,
            duration: POWERUP_UI_PERIOD as nat,
            repeating: true,
            finished: false,
            times_finished_this_tick: 0,
        }
    } else {
        t
    }
}

/// Lets `delta` pass for the refresh timer; when a refresh period completed
/// during it, returns the new power-up list, otherwise nothing.
pub fn update_powerup_ui(
    ui_timer: &mut Timer,
    delta: u64,
    triple_shot: Option<u64>,
    rapid_fire: Option<u64>,
    pierce_shot: Option<u64>,
    invincible: Option<u64>,
) -> (lines: Option<Vec<EffectLine>>)
    ensures
        final(ui_timer)@ == ticked(refresh_timer(old(ui_timer)@), delta as nat),
        final(ui_timer)@.times_finished_this_tick == 0 ==> lines is None,
        final(ui_timer)@.times_finished_this_tick > 0 ==> (lines matches Some(l) && l@
            == spec_powerup_lines(triple_shot, rapid_fire, pierce_shot, invincible)),
{
    if ui_timer.duration() == 0 {
        *ui_timer = Timer::new(POWERUP_UI_PERIOD, TimerMode::Repeating);
    }
    ui_timer.tick(delta);
    if ui_timer.times_finished_this_tick() == 0 {
        return None;
    }
    Some(powerup_lines(triple_shot, rapid_fire, pierce_shot, invincible))
}

} // verus!
