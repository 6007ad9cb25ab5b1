use spaceman::combat::{
    can_resolve_hit, lasso_action, mark_disconnected, resolve_hit, update_game_ended, weapon_tick, HitOutcome,
    LassoAction, WeaponAction,
};
use spaceman::components::{
    aggregate_inputs, combine_input, InputButtons, PlayerHealthComponent, PlayerWeaponComponent,
    ReadyECS, AMMO_COUNT, MIN_PLAYERS,
};
use spaceman::random::get_rand_from_vec;
use spaceman::roster::{disconnected_players, Roster};
use spaceman::world::{prop_default_dynamic, prop_default_modelname, prop_default_name, triangles};

#[test]
fn component_defaults() {
    let w = PlayerWeaponComponent::default();
    assert_eq!(w, PlayerWeaponComponent { cooldown: 0, ammo: 6, reloading: false });
    let h = PlayerHealthComponent::default();
    assert_eq!(h, PlayerHealthComponent { alive: true, health: 2, hits: 0 });
    let i = InputButtons::default();
    assert!(!i.lmb_clicked && !i.w_pressed && !i.enter_pressed && !i.reset_pressed);
    assert!(ReadyECS { ready: true }.ready);
    assert_eq!(AMMO_COUNT, 6);
    assert_eq!(MIN_PLAYERS, 2);
}

#[test]
fn firing_costs_a_round_and_cools_down() {
    let mut w = PlayerWeaponComponent::default();
    assert_eq!(weapon_tick(&mut w, true, false), WeaponAction::Fire);
    assert_eq!(w, PlayerWeaponComponent { cooldown: 30, ammo: 5, reloading: false });
    for _ in 0..29 {
        assert_eq!(weapon_tick(&mut w, true, true), WeaponAction::Idle);
    }
    assert_eq!(w.cooldown, 1);
    assert_eq!(weapon_tick(&mut w, true, false), WeaponAction::Fire);
    assert_eq!(w.ammo, 4);
}

#[test]
fn empty_trigger_starts_reload_which_refills() {
    let mut w = PlayerWeaponComponent { cooldown: 0, ammo: 0, reloading: false };
    assert_eq!(weapon_tick(&mut w, true, false), WeaponAction::Reload);
    assert_eq!(w, PlayerWeaponComponent { cooldown: 180, ammo: 0, reloading: true });
    for _ in 0..179 {
        assert_eq!(weapon_tick(&mut w, false, false), WeaponAction::Idle);
    }
    assert_eq!(w.ammo, 0);
    assert_eq!(weapon_tick(&mut w, false, false), WeaponAction::Idle);
    assert_eq!(w, PlayerWeaponComponent { cooldown: 0, ammo: AMMO_COUNT, reloading: false });
}

#[test]
fn reload_ending_and_shot_in_same_tick() {
    let mut w = PlayerWeaponComponent { cooldown: 1, ammo: 0, reloading: true };
    assert_eq!(weapon_tick(&mut w, true, false), WeaponAction::Fire);
    assert_eq!(w, PlayerWeaponComponent { cooldown: 30, ammo: 5, reloading: false });
}

#[test]
fn reload_key_on_full_magazine_does_nothing() {
    let mut w = PlayerWeaponComponent::default();
    assert_eq!(weapon_tick(&mut w, false, true), WeaponAction::Idle);
    assert_eq!(w, PlayerWeaponComponent::default());
    let mut v = PlayerWeaponComponent { cooldown: 0, ammo: 3, reloading: false };
    assert_eq!(weapon_tick(&mut v, false, true), WeaponAction::Reload);
    assert_eq!(v, PlayerWeaponComponent { cooldown: 180, ammo: 3, reloading: true });
}

#[test]
fn hits_wound_then_kill() {
    let mut target = PlayerHealthComponent::default();
    let mut shooter = PlayerHealthComponent::default();
    let mut active: u8 = 3;
    assert_eq!(resolve_hit(&mut target, &mut shooter, &mut active, true), HitOutcome::Wounded);
    assert_eq!(target, PlayerHealthComponent { alive: true, health: 1, hits: 0 });
    assert_eq!(shooter.hits, 1);
    assert_eq!(active, 3);
    assert_eq!(resolve_hit(&mut target, &mut shooter, &mut active, true), HitOutcome::Killed);
    assert_eq!(target, PlayerHealthComponent { alive: false, health: 0, hits: 0 });
    assert_eq!(shooter.hits, 2);
    assert_eq!(active, 2);
    assert_eq!(resolve_hit(&mut target, &mut shooter, &mut active, true), HitOutcome::NoDamage);
    assert_eq!(shooter.hits, 2);
    assert_eq!(active, 2);
}

#[test]
fn hits_on_props_do_nothing() {
    let mut target = PlayerHealthComponent::default();
    let mut shooter = PlayerHealthComponent::default();
    let mut active: u8 = 2;
    assert_eq!(resolve_hit(&mut target, &mut shooter, &mut active, false), HitOutcome::NoDamage);
    assert_eq!(target, PlayerHealthComponent::default());
    assert_eq!(shooter, PlayerHealthComponent::default());
}

#[test]
fn disconnect_takes_player_out() {
    let mut h = PlayerHealthComponent { alive: true, health: 2, hits: 4 };
    let mut active: u8 = 2;
    mark_disconnected(&mut h, &mut active);
    assert_eq!(h, PlayerHealthComponent { alive: false, health: 0, hits: 4 });
    assert_eq!(active, 1);
}

#[test]
fn game_ends_with_one_player_left() {
    let mut ended = false;
    update_game_ended(&mut ended, 2);
    assert!(!ended);
    update_game_ended(&mut ended, 1);
    assert!(ended);
    update_game_ended(&mut ended, 3);
    assert!(ended);
    let mut e2 = false;
    update_game_ended(&mut e2, 0);
    assert!(e2);
}

#[test]
fn lasso_actions() {
    assert_eq!(lasso_action(false, false), LassoAction::Nothing);
    assert_eq!(lasso_action(false, true), LassoAction::Throw);
    assert_eq!(lasso_action(true, true), LassoAction::Hold);
    assert_eq!(lasso_action(true, false), LassoAction::Release);
}

fn buttons() -> InputButtons {
    InputButtons::default()
}

#[test]
fn combine_ors_buttons_but_not_enter() {
    let mut curr = buttons();
    let mut v = buttons();
    v.w_pressed = true;
    v.lmb_clicked = true;
    v.enter_pressed = true;
    v.reset_pressed = true;
    combine_input(&mut curr, v);
    assert!(curr.w_pressed && curr.lmb_clicked);
    assert!(!curr.enter_pressed && !curr.reset_pressed);
    let mut v2 = buttons();
    v2.d_pressed = true;
    combine_input(&mut curr, v2);
    assert!(curr.w_pressed && curr.d_pressed && curr.lmb_clicked);
}

#[test]
fn aggregate_without_messages_drops_one_shot_buttons() {
    let mut prev = buttons();
    prev.lmb_clicked = true;
    prev.r_pressed = true;
    prev.w_pressed = true;
    prev.enter_pressed = true;
    let r = aggregate_inputs(prev, &vec![]);
    assert!(!r.lmb_clicked && !r.r_pressed);
    assert!(r.w_pressed && r.enter_pressed);
}

#[test]
fn aggregate_merges_messages_in_any_order() {
    let mut a = buttons();
    a.a_pressed = true;
    let mut b = buttons();
    b.shift_pressed = true;
    b.rmb_clicked = true;
    let mut prev = buttons();
    prev.w_pressed = true;
    let r1 = aggregate_inputs(prev, &vec![a, b]);
    let r2 = aggregate_inputs(prev, &vec![b, a]);
    assert_eq!(r1, r2);
    assert!(r1.a_pressed && r1.shift_pressed && r1.rmb_clicked);
    assert!(!r1.w_pressed);
}

#[test]
fn roster_add_and_remove_players() {
    let mut r = Roster::new();
    assert_eq!(r.next_client_id(), 0);
    r.add_player(11);
    r.add_prop(50, true);
    r.add_player(12);
    r.add_prop(51, false);
    assert_eq!(r.next_client_id(), 2);
    assert_eq!(r.players, vec![11, 12]);
    assert_eq!(r.dynamics, vec![11, 50, 12]);
    assert_eq!(r.renderables, vec![11, 50, 12, 51]);
    assert_eq!(r.active_players, 2);
    assert!(r.is_player(12));
    assert!(!r.is_player(50));
    r.mark_ready(11);
    r.remove_player(11);
    assert_eq!(r.ids, vec![11, 12]);
    assert_eq!(r.players, vec![12]);
    assert_eq!(r.dynamics, vec![50, 12]);
    assert_eq!(r.renderables, vec![50, 12, 51]);
    assert!(r.ready_players.is_empty());
    assert_eq!(r.active_players, 1);
}

#[test]
fn remove_undoes_add() {
    let mut r = Roster::new();
    r.add_player(1);
    r.add_prop(2, true);
    let before = (r.players.clone(), r.dynamics.clone(), r.renderables.clone());
    r.add_player(3);
    r.remove_player(3);
    assert_eq!((r.players.clone(), r.dynamics.clone(), r.renderables.clone()), before);
}

#[test]
fn lobby_starts_when_enough_players_are_all_ready() {
    let mut r = Roster::new();
    r.add_player(1);
    r.mark_ready(1);
    assert!(!r.can_start_game());
    r.add_player(2);
    assert!(!r.can_start_game());
    r.mark_ready(2);
    r.mark_ready(2);
    assert_eq!(r.ready_players, vec![1, 2]);
    assert!(r.can_start_game());
    r.clear_ready();
    assert!(!r.can_start_game());
}

#[test]
fn reset_world_readmits_players_after_props() {
    let mut r = Roster::new();
    r.add_player(1);
    r.add_player(2);
    r.add_prop(9, true);
    r.mark_ready(1);
    r.clear_world();
    assert!(r.dynamics.is_empty() && r.renderables.is_empty() && r.ready_players.is_empty());
    r.add_prop(20, true);
    r.add_prop(21, false);
    r.readmit_players();
    assert_eq!(r.dynamics, vec![20, 1, 2]);
    assert_eq!(r.renderables, vec![20, 21, 1, 2]);
    assert_eq!(r.active_players, 2);
}

#[test]
fn random_draw_takes_one_element_out() {
    for _ in 0..50 {
        let original = vec![10, 20, 30, 40];
        let mut v = original.clone();
        let x = get_rand_from_vec(&mut v);
        assert_eq!(v.len(), 3);
        let mut all = v.clone();
        all.push(x);
        all.sort();
        assert_eq!(all, original);
    }
}

#[test]
fn random_draw_from_single_element() {
    let mut v = vec!["only"];
    assert_eq!(get_rand_from_vec(&mut v), "only");
    assert!(v.is_empty());
}

#[test]
fn prop_defaults() {
    assert_eq!(prop_default_name(), "UNNAMED");
    assert_eq!(prop_default_modelname(), "cube");
    assert!(prop_default_dynamic());
}

#[test]
fn triangles_group_indices() {
    let t = triangles(&[0, 1, 2, 2, 3, 0]);
    assert_eq!(t, vec![[0, 1, 2], [2, 3, 0]]);
    assert!(triangles(&[]).is_empty());
}

#[test]
fn removed_player_is_no_longer_ready_even_if_listed_twice() {
    let mut r = Roster::new();
    r.add_player(5);
    r.add_player(6);
    r.mark_ready(6);
    r.ready_players.push(5);
    r.ready_players.push(5);
    r.remove_player(5);
    assert_eq!(r.ready_players, vec![6]);
    assert_eq!(r.players, vec![6]);
}

#[test]
fn disconnected_players_in_roster_order() {
    use_disconnected();
}

fn use_disconnected() {
    let players = vec![1, 2, 3, 4];
    let connected = vec![true, false, true, false];
    assert_eq!(disconnected_players(&players, &connected), vec![2, 4]);
    assert!(disconnected_players(&players, &vec![true; 4]).is_empty());
}

#[test]
fn restart_drops_lost_players_and_rebuilds_lists() {
    let mut r = Roster::new();
    r.add_player(1);
    r.add_player(2);
    r.add_player(3);
    r.add_prop(9, true);
    r.mark_ready(1);
    r.mark_ready(3);
    r.active_players = 1;
    r.restart(&vec![true, false, true], &vec![(20, true), (21, false), (22, true)]);
    assert_eq!(r.ids, vec![1, 2, 3]);
    assert_eq!(r.players, vec![1, 3]);
    assert_eq!(r.dynamics, vec![20, 22, 1, 3]);
    assert_eq!(r.renderables, vec![20, 21, 22, 1, 3]);
    assert!(r.ready_players.is_empty());
    assert_eq!(r.active_players, 2);
}

#[test]
fn restart_with_everyone_gone_and_no_props() {
    let mut r = Roster::new();
    r.add_player(4);
    r.restart(&vec![false], &vec![]);
    assert!(r.players.is_empty() && r.dynamics.is_empty() && r.renderables.is_empty());
    assert_eq!(r.ids, vec![4]);
    assert_eq!(r.active_players, 0);
}

#[test]
fn hit_counting_bounds() {
    let alive = PlayerHealthComponent { alive: true, health: 2, hits: 0 };
    let last = PlayerHealthComponent { alive: true, health: 1, hits: 0 };
    let broken = PlayerHealthComponent { alive: true, health: 0, hits: 0 };
    let dead = PlayerHealthComponent { alive: false, health: 0, hits: 0 };
    let ace = PlayerHealthComponent { alive: true, health: 2, hits: 255 };
    assert!(can_resolve_hit(&alive, &alive, 2, true));
    assert!(can_resolve_hit(&last, &alive, 1, true));
    assert!(!can_resolve_hit(&last, &alive, 0, true));
    assert!(!can_resolve_hit(&broken, &alive, 2, true));
    assert!(!can_resolve_hit(&alive, &ace, 2, true));
    assert!(can_resolve_hit(&dead, &ace, 0, true));
    assert!(can_resolve_hit(&broken, &ace, 0, false));
}

#[test]
fn kills_and_disconnects_keep_count_of_living_players() {
    let mut health = vec![PlayerHealthComponent::default(); 3];
    let mut active: u8 = 3;
    let living = |h: &Vec<PlayerHealthComponent>| h.iter().filter(|p| p.alive).count() as i32;
    let gap = active as i32 - living(&health);
    for _ in 0..2 {
        let mut t = health[0];
        let mut s = health[1];
        resolve_hit(&mut t, &mut s, &mut active, true);
        health[0] = t;
        health[1] = s;
        assert_eq!(active as i32 - living(&health), gap);
    }
    assert!(!health[0].alive);
    assert_eq!(active, 2);
    mark_disconnected(&mut health[2], &mut active);
    assert_eq!(active as i32 - living(&health), gap);
    assert_eq!(active, 1);
}
