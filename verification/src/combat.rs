//! The server's rules for weapons, hits, deaths and disconnections, one
//! player and one tick at a time.
use vstd::prelude::*;
use crate::components::{
    PlayerWeaponComponent, PlayerHealthComponent, AMMO_COUNT, FIRE_COOLDOWN, RELOAD_COOLDOWN,
};

verus! {

/// What a player's weapon does in a tick.
#[derive(PartialEq, Eq, Structural, Clone, Copy, Debug)]
pub enum WeaponAction {
    /// Nothing: the weapon is cooling down, or the player did not ask for anything.
    Idle,
    /// A shot leaves the barrel.
    Fire,
    /// A reload starts.
    Reload,
}

/// The weapon once this tick's wait has elapsed: one tick less to wait, and a
/// reload that ends now refills the magazine.
pub open spec fn cooled(w: PlayerWeaponComponent) -> PlayerWeaponComponent {
    if w.cooldown > 0 {
        let c = (w.cooldown - 1) as i16;
        if w.reloading && c == 0 {
            PlayerWeaponComponent { cooldown: c, ammo: AMMO_COUNT, reloading: false }
        } else {
            PlayerWeaponComponent { cooldown: c, ..w }
        }
    } else {
        w
    }
}

/// The weapon after a tick, and what it did: it fires when the trigger is
/// pulled, it is ready and it is loaded; it starts a reload when it is ready
/// and the trigger is pulled on an empty magazine or reload is pressed on a
/// magazine that is not full.
pub open spec fn weapon_step(w: PlayerWeaponComponent, trigger: bool, reload: bool) -> (
    PlayerWeaponComponent,
    WeaponAction,
) {
    let c = cooled(w);
    if trigger && c.cooldown == 0 && c.ammo > 0 {
        (
            PlayerWeaponComponent {
                cooldown: FIRE_COOLDOWN,
                ammo: (c.ammo - 1) as u8,
                reloading: c.reloading,
            },
            WeaponAction::Fire,
        )
    } else if (trigger || (reload && c.ammo < AMMO_COUNT)) && c.cooldown == 0 {
        (
            PlayerWeaponComponent { cooldown: RELOAD_COOLDOWN, ammo: c.ammo, reloading: true },
            WeaponAction::Reload,
        )
    } else {
        (c, WeaponAction::Idle)
    }
}

/// Runs one tick of a player's weapon, given whether the player pulls the
/// trigger and whether the player presses reload.
pub fn weapon_tick(weapon: &mut PlayerWeaponComponent, trigger: bool, reload: bool) -> (r:
    WeaponAction)
    ensures
        (*final(weapon), r) == weapon_step(*old(weapon), trigger, reload),
{
    if weapon.cooldown > 0 {
        weapon.cooldown -= 1;
        if weapon.reloading && weapon.cooldown == 0 {
            weapon.ammo = AMMO_COUNT;
            weapon.reloading = false;
        }
    }
    if trigger && weapon.cooldown == 0 && weapon.ammo > 0 {
        weapon.cooldown = FIRE_COOLDOWN;
        weapon.ammo -= 1;
        WeaponAction::Fire
    } else if (trigger || (reload && weapon.ammo < AMMO_COUNT)) && weapon.cooldown == 0 {
        weapon.cooldown = RELOAD_COOLDOWN;
        weapon.reloading = true;
        WeaponAction::Reload
    } else {
        WeaponAction::Idle
    }
}

/// What a shot that struck something did.
#[derive(PartialEq, Eq, Structural, Clone, Copy, Debug)]
pub enum HitOutcome {
    /// The target was not a living player; no health changed.
    NoDamage,
    /// The target lost a hit point and lives on.
    Wounded,
    /// The target lost its last hit point and is out of the game.
    Killed,
}

/// Whether a hit on `target` needs no more than the counters can hold.
pub open spec fn hit_fits(
    target: PlayerHealthComponent,
    shooter: PlayerHealthComponent,
    active_players: u8,
    target_is_player: bool,
) -> bool {
    target_is_player && target.alive ==> {
        &&& target.health >= 1
        &&& shooter.hits < 255
        &&& target.health == 1 ==> active_players >= 1
    }
}

/// Whether a shot by `shooter` that struck `target` can be counted with
/// every counter in range (see `hit_fits`).
pub fn can_resolve_hit(
    target: &PlayerHealthComponent,
    shooter: &PlayerHealthComponent,
    active_players: u8,
    target_is_player: bool,
) -> (r: bool)
    ensures
        r == hit_fits(*target, *shooter, active_players, target_is_player),
{
    !(target_is_player && target.alive) || (target.health >= 1 && shooter.hits < 255 && (
    target.health != 1 || active_players >= 1))
}

/// The target, the shooter and the count of players in the game after a shot
/// by `shooter` struck `target`, and what the shot did.
pub open spec fn hit_step(
    target: PlayerHealthComponent,
    shooter: PlayerHealthComponent,
    active_players: u8,
    target_is_player: bool,
) -> (PlayerHealthComponent, PlayerHealthComponent, u8, HitOutcome) {
    if target_is_player && target.alive {
        let shooter2 = PlayerHealthComponent { hits: (shooter.hits + 1) as u8, ..shooter };
        if target.health == 1 {
            (
                PlayerHealthComponent { alive: false, health: 0, ..target },
                shooter2,
                (active_players - 1) as u8,
                HitOutcome::Killed,
            )
        } else {
            (
                PlayerHealthComponent { health: (target.health - 1) as u8, ..target },
                shooter2,
                active_players,
                HitOutcome::Wounded,
            )
        }
    } else {
        (target, shooter, active_players, HitOutcome::NoDamage)
    }
}

/// Applies a shot by `shooter` that struck `target`: a living player loses a
/// hit point and the shooter scores a hit; a player left with none is dead,
/// and one player fewer is still in the game.
pub fn resolve_hit(
    target: &mut PlayerHealthComponent,
    shooter: &mut PlayerHealthComponent,
    active_players: &mut u8,
    target_is_player: bool,
) -> (r: HitOutcome)
    requires
        hit_fits(*old(target), *old(shooter), *old(active_players), target_is_player),
    ensures
        (*final(target), *final(shooter), *final(active_players), r) == hit_step(
            *old(target),
            *old(shooter),
            *old(active_players),
            target_is_player,
        ),
{
    if target_is_player && target.alive {
        target.health -= 1;
        shooter.hits += 1;
        if target.health == 0 {
            target.alive = false;
            *active_players -= 1;
            HitOutcome::Killed
        } else {
            HitOutcome::Wounded
        }
    } else {
        HitOutcome::NoDamage
    }
}

/// Takes a player whose connection was lost out of the game: dead, with no
/// health left, and one player fewer counted as in the game.
pub fn mark_disconnected(health: &mut PlayerHealthComponent, active_players: &mut u8)
    requires
        *old(active_players) >= 1,
    ensures
        *final(health) == (PlayerHealthComponent { alive: false, health: 0, ..*old(health) }),
        *final(active_players) == *old(active_players) - 1,
{
    health.alive = false;
    health.health = 0;
    *active_players -= 1;
}

/// Whether a game with `active_players` players still in it is over: at most
/// one is left.
pub open spec fn game_is_over(active_players: u8) -> bool {
    active_players <= 1
}

/// Marks the game as ended once at most one player is left in it; an ended
/// game stays ended.
pub fn update_game_ended(game_ended: &mut bool, active_players: u8)
    ensures
        *final(game_ended) == (*old(game_ended) || game_is_over(active_players)),
{
    if active_players <= 1 {
        *game_ended = true;
    }
}

/// What a player's lasso does in a tick.
#[derive(PartialEq, Eq, Structural, Clone, Copy, Debug)]
pub enum LassoAction {
    /// No lasso out, and none thrown.
    Nothing,
    /// A lasso is thrown along the player's aim.
    Throw,
    /// The lasso that is out stays attached and is reeled in.
    Hold,
    /// The lasso that is out lets go.
    Release,
}

/// The lasso's action: while the right button is held, a lasso that is out
/// holds on and one that is not is thrown; letting go of the button releases
/// a lasso that is out.
pub fn lasso_action(lasso_out: bool, rmb_clicked: bool) -> (r: LassoAction)
    ensures
        lasso_out && rmb_clicked ==> r == LassoAction::Hold,
        lasso_out && !rmb_clicked ==> r == LassoAction::Release,
        !lasso_out && rmb_clicked ==> r == LassoAction::Throw,
        !lasso_out && !rmb_clicked ==> r == LassoAction::Nothing,
{
    if lasso_out {
        if rmb_clicked {
            LassoAction::Hold
        } else {
            LassoAction::Release
        }
    } else if rmb_clicked {
        LassoAction::Throw
    } else {
        LassoAction::Nothing
    }
}

/// A weapon whose magazine holds at most a full load keeps it so, and a shot
/// always costs exactly one round.
pub proof fn law_ammo_stays_within_magazine(w: PlayerWeaponComponent, trigger: bool, reload: bool)
    requires
        w.ammo <= AMMO_COUNT,
    ensures
        weapon_step(w, trigger, reload).0.ammo <= AMMO_COUNT,
        weapon_step(w, trigger, reload).1 == WeaponAction::Fire ==> weapon_step(
            w,
            trigger,
            reload,
        ).0.ammo == cooled(w).ammo - 1,
{
}

/// A weapon that still has more than one tick to wait does nothing but wait.
pub proof fn law_cooling_weapon_is_idle(w: PlayerWeaponComponent, trigger: bool, reload: bool)
    requires
        w.cooldown > 1,
    ensures
        weapon_step(w, trigger, reload) == (
            PlayerWeaponComponent { cooldown: (w.cooldown - 1) as i16, ..w },
            WeaponAction::Idle,
        ),
{
}

/// A weapon that is ready this tick (it had no wait left, or its last tick of
/// wait passes now) and holds a round, counting the full magazine of a
/// reload that ends now, fires when the trigger is pulled, whatever the
/// reload key does: it spends exactly that one round and starts the wait
/// between shots.
pub proof fn law_ready_loaded_weapon_fires(w: PlayerWeaponComponent, reload: bool)
    requires
        (w.cooldown == 0 && w.ammo > 0) || (w.cooldown == 1 && (w.reloading || w.ammo > 0)),
    ensures
        weapon_step(w, true, reload).1 == WeaponAction::Fire,
        weapon_step(w, true, reload).0.cooldown == FIRE_COOLDOWN,
        weapon_step(w, true, reload).0.ammo + 1 == (if w.cooldown == 1 && w.reloading {
            AMMO_COUNT as int
        } else {
            w.ammo as int
        }),
{
}

/// A ready weapon with an empty magazine starts a reload when the trigger is
/// pulled: it waits the reload time, still empty.
pub proof fn law_ready_empty_weapon_reloads_on_trigger(w: PlayerWeaponComponent, reload: bool)
    requires
        w.cooldown == 0 || (w.cooldown == 1 && !w.reloading),
        w.ammo == 0,
    ensures
        weapon_step(w, true, reload) == (
            PlayerWeaponComponent { cooldown: RELOAD_COOLDOWN, ammo: 0, reloading: true },
            WeaponAction::Reload,
        ),
{
}

/// Without the trigger, the reload key starts a reload of a ready weapon
/// exactly when its magazine is not full; a weapon asked for nothing does
/// nothing, and an action other than firing never spends a round.
pub proof fn law_reload_key_and_idle(w: PlayerWeaponComponent, trigger: bool, reload: bool)
    requires
        w.ammo <= AMMO_COUNT,
    ensures
        (w.cooldown == 0 && !trigger && reload) ==> (weapon_step(w, false, true).1
            == WeaponAction::Reload <==> w.ammo < AMMO_COUNT),
        (!trigger && !reload) ==> weapon_step(w, false, false).1 == WeaponAction::Idle,
        weapon_step(w, trigger, reload).1 == WeaponAction::Fire ==> trigger,
        weapon_step(w, trigger, reload).1 == WeaponAction::Reload ==> (trigger || reload)
            && weapon_step(w, trigger, reload).0.reloading && weapon_step(w, trigger, reload).0.cooldown
            == RELOAD_COOLDOWN,
        weapon_step(w, trigger, reload).1 != WeaponAction::Fire ==> weapon_step(
            w,
            trigger,
            reload,
        ).0.ammo >= w.ammo,
{
}

/// A reload that ends this tick leaves a full magazine, less the round of a
/// shot fired in the same tick.
pub proof fn law_reload_refills(w: PlayerWeaponComponent, trigger: bool, reload: bool)
    requires
        w.reloading,
        w.cooldown == 1,
    ensures
        weapon_step(w, trigger, reload).1 == WeaponAction::Fire ==> weapon_step(
            w,
            trigger,
            reload,
        ).0.ammo == AMMO_COUNT - 1,
        weapon_step(w, trigger, reload).1 != WeaponAction::Fire ==> weapon_step(
            w,
            trigger,
            reload,
        ).0.ammo == AMMO_COUNT,
{
}

/// A living player always has a hit point left, a shot that kills takes
/// exactly one player out of the game, and any other shot takes none out.
pub proof fn law_hits_keep_health_consistent(
    target: PlayerHealthComponent,
    shooter: PlayerHealthComponent,
    active_players: u8,
    target_is_player: bool,
)
    requires
        target.alive ==> target.health >= 1,
        hit_fits(target, shooter, active_players, target_is_player),
    ensures
        hit_step(target, shooter, active_players, target_is_player).0.alive ==> hit_step(
            target,
            shooter,
            active_players,
            target_is_player,
        ).0.health >= 1,
        hit_step(target, shooter, active_players, target_is_player).3 == HitOutcome::Killed
            ==> hit_step(target, shooter, active_players, target_is_player).2 == active_players
            - 1,
        hit_step(target, shooter, active_players, target_is_player).3 != HitOutcome::Killed
            ==> hit_step(target, shooter, active_players, target_is_player).2 == active_players,
        !hit_step(target, shooter, active_players, target_is_player).0.alive ==> hit_step(
            target,
            shooter,
            active_players,
            target_is_player,
        ).3 != HitOutcome::Wounded,
{
}

/// A shot that strikes a living player takes exactly one hit point from it
/// and gives the shooter exactly one hit, changing nothing else of either; it
/// kills exactly when that was the target's last point, and only a kill
/// takes a player out of the game. A shot that strikes anything else changes
/// nothing.
pub proof fn law_hit_takes_exactly_one_point(
    target: PlayerHealthComponent,
    shooter: PlayerHealthComponent,
    active_players: u8,
    target_is_player: bool,
)
    requires
        hit_fits(target, shooter, active_players, target_is_player),
    ensures
        ({
            let (t, s, a, o) = hit_step(target, shooter, active_players, target_is_player);
            &&& target_is_player && target.alive ==> {
                &&& t.health == target.health - 1
                &&& t.hits == target.hits
                &&& t.alive == (target.health > 1)
                &&& s.hits == shooter.hits + 1
                &&& s.health == shooter.health
                &&& s.alive == shooter.alive
                &&& (o == HitOutcome::Killed) == (target.health == 1)
                &&& (o == HitOutcome::Wounded) == (target.health > 1)
                &&& a == active_players - (if target.health == 1 {
                    1int
                } else {
                    0int
                })
            }
            &&& !(target_is_player && target.alive) ==> t == target && s == shooter && a
                == active_players && o == HitOutcome::NoDamage
        }),
{
}

/// The number of living players among `health`.
pub open spec fn living(health: Seq<PlayerHealthComponent>) -> int
    decreases health.len(),
{
    if health.len() == 0 {
        0
    } else {
        living(health.drop_last()) + if health.last().alive {
            1int
        } else {
            0int
        }
    }
}

proof fn lemma_living_update(health: Seq<PlayerHealthComponent>, i: int, v: PlayerHealthComponent)
    requires
        0 <= i < health.len(),
    ensures
        living(health.update(i, v)) == living(health) - (if health[i].alive {
            1int
        } else {
            0int
        }) + (if v.alive {
            1int
        } else {
            0int
        }),
    decreases health.len(),
{
    let u = health.update(i, v);
    if i == health.len() - 1 {
        assert(u.drop_last() =~= health.drop_last());
    } else {
        lemma_living_update(health.drop_last(), i, v);
        assert(u.drop_last() =~= health.drop_last().update(i, v));
    }
}

/// A shot between two players keeps the gap between the count of players in
/// the game and the number of living players: a kill lowers both by one, any
/// other shot changes neither.
pub proof fn law_hits_keep_active_count(
    health: Seq<PlayerHealthComponent>,
    target: int,
    shooter: int,
    active_players: u8,
)
    requires
        0 <= target < health.len(),
        0 <= shooter < health.len(),
        target != shooter,
        hit_fits(health[target], health[shooter], active_players, true),
    ensures
        ({
            let (t, s, a, o) = hit_step(health[target], health[shooter], active_players, true);
            a - living(health.update(target, t).update(shooter, s)) == active_players - living(
                health,
            )
        }),
{
    let (t, s, a, o) = hit_step(health[target], health[shooter], active_players, true);
    lemma_living_update(health, target, t);
    let h1 = health.update(target, t);
    lemma_living_update(h1, shooter, s);
}

/// Losing the connection of a living player keeps the gap between the count
/// of players in the game and the number of living players.
pub proof fn law_disconnect_keeps_active_count(
    health: Seq<PlayerHealthComponent>,
    player: int,
    active_players: u8,
)
    requires
        0 <= player < health.len(),
        health[player].alive,
        active_players >= 1,
    ensures
        (active_players - 1) - living(
            health.update(player, PlayerHealthComponent { alive: false, health: 0, ..health[player] }),
        ) == active_players - living(health),
{
    lemma_living_update(
        health,
        player,
        PlayerHealthComponent { alive: false, health: 0, ..health[player] },
    );
}

} // verus!
