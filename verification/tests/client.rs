use spaceman::client_state::{
    react_to_event, ArmMotion, DamageFlash, EventReaction, GameEvent, KillMessage, Shake,
    cursor_disabled, finalize_rankings, next_state, record_elimination, sync_client_health,
    update_spectator_mode, ClientSession, GameState,
};
use spaceman::components::{InputButtons, PlayerHealthComponent};
use spaceman::controls::{
    movement_axes, process_arrow_inputs, process_inputs_game, process_inputs_game_over, process_inputs_lobby,
    set_fullscreen, toggle_fullscreen_key, update_focus, KeyState, WindowGeometry,
    WindowPlacement,
};
use spaceman::hud::{has_death_message, health_bar, lobby_card, Anchor, HealthBar, LobbyCard};

fn no_keys() -> KeyState {
    KeyState {
        w: false,
        a: false,
        s: false,
        d: false,
        r: false,
        left_shift: false,
        left_control: false,
        space: false,
        enter: false,
        escape: false,
        f11: false,
        mouse_left: false,
        mouse_right: false,
        mouse_middle: false,
    }
}

#[test]
fn lobby_enter_sends_ready_once() {
    let mut ready_sent = false;
    let mut first_enter = false;
    assert!(process_inputs_lobby(true, &mut ready_sent, &mut first_enter));
    assert!(ready_sent);
    assert!(!process_inputs_lobby(true, &mut ready_sent, &mut first_enter));
    assert!(!process_inputs_lobby(false, &mut ready_sent, &mut first_enter));
}

#[test]
fn lobby_enter_held_from_before_is_ignored() {
    let mut ready_sent = false;
    let mut first_enter = true;
    assert!(!process_inputs_lobby(true, &mut ready_sent, &mut first_enter));
    assert!(first_enter);
    assert!(!process_inputs_lobby(false, &mut ready_sent, &mut first_enter));
    assert!(!first_enter);
    assert!(process_inputs_lobby(true, &mut ready_sent, &mut first_enter));
}

#[test]
fn game_keys_press_buttons() {
    let mut keys = no_keys();
    keys.w = true;
    keys.left_shift = true;
    keys.mouse_left = true;
    keys.mouse_right = true;
    keys.space = true;
    let mut input = InputButtons::default();
    let (mut roll, mut zoomed, mut mmb, mut first_click) = (false, false, false, false);
    process_inputs_game(&keys, &mut input, &mut roll, &mut zoomed, &mut mmb, &mut first_click, true);
    assert!(input.w_pressed && input.shift_pressed && input.lmb_clicked && input.rmb_clicked);
    assert!(!input.a_pressed && !input.ctrl_pressed);
    assert!(roll);
    assert!(!zoomed);
}

#[test]
fn game_keys_ignored_without_focus() {
    let mut keys = no_keys();
    keys.w = true;
    keys.mouse_middle = true;
    let mut input = InputButtons::default();
    let (mut roll, mut zoomed, mut mmb, mut first_click) = (false, false, false, true);
    process_inputs_game(&keys, &mut input, &mut roll, &mut zoomed, &mut mmb, &mut first_click, false);
    assert_eq!(input, InputButtons::default());
    assert!(!zoomed && !mmb && first_click);
}

#[test]
fn focusing_click_does_not_fire() {
    let mut keys = no_keys();
    keys.mouse_left = true;
    let mut input = InputButtons::default();
    let (mut roll, mut zoomed, mut mmb, mut first_click) = (false, false, false, true);
    process_inputs_game(&keys, &mut input, &mut roll, &mut zoomed, &mut mmb, &mut first_click, true);
    assert!(!input.lmb_clicked);
    assert!(first_click);
    keys.mouse_left = false;
    process_inputs_game(&keys, &mut input, &mut roll, &mut zoomed, &mut mmb, &mut first_click, true);
    assert!(!first_click);
    keys.mouse_left = true;
    process_inputs_game(&keys, &mut input, &mut roll, &mut zoomed, &mut mmb, &mut first_click, true);
    assert!(input.lmb_clicked);
}

#[test]
fn middle_button_toggles_zoom_once_per_press() {
    let mut keys = no_keys();
    keys.mouse_middle = true;
    let mut input = InputButtons::default();
    let (mut roll, mut zoomed, mut mmb, mut first_click) = (false, false, false, false);
    process_inputs_game(&keys, &mut input, &mut roll, &mut zoomed, &mut mmb, &mut first_click, true);
    assert!(zoomed && mmb);
    process_inputs_game(&keys, &mut input, &mut roll, &mut zoomed, &mut mmb, &mut first_click, true);
    assert!(zoomed && mmb);
    keys.mouse_middle = false;
    process_inputs_game(&keys, &mut input, &mut roll, &mut zoomed, &mut mmb, &mut first_click, true);
    assert!(zoomed && !mmb);
    keys.mouse_middle = true;
    process_inputs_game(&keys, &mut input, &mut roll, &mut zoomed, &mut mmb, &mut first_click, true);
    assert!(!zoomed && mmb);
}

#[test]
fn game_over_enter_moves_on_once() {
    let mut first_enter = false;
    assert!(process_inputs_game_over(true, &mut first_enter));
    assert!(!process_inputs_game_over(true, &mut first_enter));
    assert!(!process_inputs_game_over(false, &mut first_enter));
    assert!(first_enter);
}

#[test]
fn movement_axes_cancel_out() {
    let mut i = InputButtons::default();
    assert_eq!(movement_axes(&i), (0, 0, 0));
    i.w_pressed = true;
    i.a_pressed = true;
    i.ctrl_pressed = true;
    assert_eq!(movement_axes(&i), (-1, -1, 1));
    i.s_pressed = true;
    i.d_pressed = true;
    i.shift_pressed = true;
    assert_eq!(movement_axes(&i), (0, 0, 0));
}

#[test]
fn focus_is_lost_and_regained() {
    let (mut focused, mut first_mouse, mut first_click) = (true, false, false);
    update_focus(&mut focused, &mut first_mouse, &mut first_click, true, false);
    assert!(!focused && !first_mouse && !first_click);
    update_focus(&mut focused, &mut first_mouse, &mut first_click, false, true);
    assert!(focused && first_mouse && first_click);
}

#[test]
fn f11_toggles_once_per_press() {
    let (mut fullscreen, mut f11_pressed) = (false, false);
    assert!(toggle_fullscreen_key(&mut fullscreen, &mut f11_pressed, true));
    assert!(fullscreen);
    assert!(!toggle_fullscreen_key(&mut fullscreen, &mut f11_pressed, true));
    assert!(fullscreen);
    assert!(!toggle_fullscreen_key(&mut fullscreen, &mut f11_pressed, false));
    assert!(toggle_fullscreen_key(&mut fullscreen, &mut f11_pressed, true));
    assert!(!fullscreen);
}

#[test]
fn fullscreen_round_trip() {
    let mut g = WindowGeometry {
        width: 800,
        height: 600,
        saved_xpos: 0,
        saved_ypos: 0,
        saved_width: 800,
        saved_height: 600,
    };
    let p = set_fullscreen(true, &mut g, (40, 30), (1920, 1080));
    assert_eq!(p, WindowPlacement { decorated: false, xpos: 0, ypos: 0, width: 1920, height: 1080 });
    assert_eq!((g.width, g.height), (1920, 1080));
    let p2 = set_fullscreen(false, &mut g, (0, 0), (1920, 1080));
    assert_eq!(p2, WindowPlacement { decorated: true, xpos: 40, ypos: 30, width: 1600, height: 1200 });
    assert_eq!((g.width, g.height), (800, 600));
}

#[test]
fn game_state_cycle() {
    let mut session = ClientSession::new();
    session.rankings.push(2);
    session.rankings.push(0);
    session.ready_sent = true;
    session.first_mouse = false;
    let mut s = GameState::EnteringLobby;
    s = next_state(s, false, false, false, &mut session);
    assert_eq!(s, GameState::InLobby);
    assert!(session.rankings.is_empty());
    assert!(!session.ready_sent);
    assert!(!session.first_mouse);
    session.ready_sent = true;
    s = next_state(s, false, true, true, &mut session);
    assert_eq!(s, GameState::InLobby);
    assert!(session.ready_sent);
    assert!(!session.first_mouse);
    s = next_state(s, true, false, false, &mut session);
    assert_eq!(s, GameState::InGame);
    assert!(session.first_mouse);
    session.spectator_mode = true;
    session.rankings.push(1);
    s = next_state(s, true, false, true, &mut session);
    assert_eq!(s, GameState::InGame);
    assert!(session.spectator_mode);
    s = next_state(s, false, true, false, &mut session);
    assert_eq!(s, GameState::GameOver);
    assert!(session.spectator_mode);
    s = next_state(s, false, false, false, &mut session);
    assert_eq!(s, GameState::GameOver);
    assert!(!session.spectator_mode);
    assert_eq!(session.rankings, vec![1]);
    s = next_state(s, false, false, true, &mut session);
    assert_eq!(s, GameState::EnteringLobby);
    assert_eq!(session.rankings, vec![1]);
    s = next_state(s, false, false, false, &mut session);
    assert_eq!(s, GameState::InLobby);
    assert!(session.rankings.is_empty());
    assert!(!session.ready_sent);
}

#[test]
fn cursor_capture() {
    assert!(cursor_disabled(true, GameState::InGame));
    assert!(cursor_disabled(true, GameState::GameOver));
    assert!(!cursor_disabled(true, GameState::InLobby));
    assert!(!cursor_disabled(false, GameState::InGame));
}

#[test]
fn health_sync_takes_new_health_then_death() {
    let mut c = PlayerHealthComponent::default();
    let s = PlayerHealthComponent { alive: true, health: 1, hits: 3 };
    sync_client_health(&mut c, &s);
    assert_eq!(c, PlayerHealthComponent { alive: true, health: 1, hits: 0 });
    let dead = PlayerHealthComponent { alive: false, health: 0, hits: 3 };
    sync_client_health(&mut c, &dead);
    assert_eq!(c, PlayerHealthComponent { alive: false, health: 1, hits: 0 });
    sync_client_health(&mut c, &dead);
    assert_eq!(c, PlayerHealthComponent { alive: false, health: 0, hits: 0 });
}

#[test]
fn spectator_mode_for_dead_players_only() {
    let mut spec = false;
    update_spectator_mode(&mut spec, true, true);
    assert!(!spec);
    update_spectator_mode(&mut spec, false, false);
    assert!(!spec);
    update_spectator_mode(&mut spec, false, true);
    assert!(spec);
    update_spectator_mode(&mut spec, true, false);
    assert!(spec);
}

#[test]
fn rankings_put_last_standing_first() {
    let players = vec![100, 200, 300, 400];
    let mut rankings = vec![];
    record_elimination(&mut rankings, &players, 300);
    record_elimination(&mut rankings, &players, 100);
    let dead = PlayerHealthComponent { alive: false, health: 0, hits: 0 };
    let alive = PlayerHealthComponent { alive: true, health: 1, hits: 2 };
    finalize_rankings(&mut rankings, &vec![dead, alive, dead, dead]);
    assert_eq!(rankings, vec![1, 0, 2]);
}

#[test]
fn rankings_skip_alive_players_without_health() {
    let mut rankings = vec![3];
    let weird = PlayerHealthComponent { alive: true, health: 0, hits: 0 };
    let alive = PlayerHealthComponent::default();
    finalize_rankings(&mut rankings, &vec![alive, weird, alive]);
    assert_eq!(rankings, vec![2, 0, 3]);
}

#[test]
fn lobby_cards() {
    assert_eq!(lobby_card(3, 2, false, 0), LobbyCard::Gray);
    assert_eq!(lobby_card(0, 2, true, 0), LobbyCard::ReadyMe);
    assert_eq!(lobby_card(1, 2, true, 0), LobbyCard::Ready);
    assert_eq!(lobby_card(0, 2, false, 0), LobbyCard::JoinedMe);
    assert_eq!(lobby_card(1, 2, false, 0), LobbyCard::Joined);
}

#[test]
fn health_bars() {
    assert_eq!(health_bar(true, 2), HealthBar::Full);
    assert_eq!(health_bar(true, 1), HealthBar::Half);
    assert_eq!(health_bar(true, 0), HealthBar::Empty);
    assert_eq!(health_bar(false, 2), HealthBar::Empty);
}

#[test]
fn death_messages_exist_for_pairs_of_players() {
    assert!(has_death_message(0, 3));
    assert!(!has_death_message(2, 2));
}

#[test]
fn anchor_offsets() {
    assert_eq!(Anchor::BotLeft.offset_in_halves(), (0, 0));
    assert_eq!(Anchor::BotRight.offset_in_halves(), (-2, 0));
    assert_eq!(Anchor::TopLeft.offset_in_halves(), (0, -2));
    assert_eq!(Anchor::TopRight.offset_in_halves(), (-2, -2));
    assert_eq!(Anchor::Centered.offset_in_halves(), (-1, -1));
}

#[test]
fn arrow_keys_name_the_movement() {
    let mut m = String::from("no input");
    process_arrow_inputs(&mut m, false, false, false, false);
    assert_eq!(m, "no input");
    process_arrow_inputs(&mut m, false, true, true, false);
    assert_eq!(m, "up");
    process_arrow_inputs(&mut m, true, true, false, true);
    assert_eq!(m, "down");
    process_arrow_inputs(&mut m, false, false, false, true);
    assert_eq!(m, "right");
    process_arrow_inputs(&mut m, false, false, true, true);
    assert_eq!(m, "left");
}

fn quiet() -> EventReaction {
    EventReaction {
        shake: Shake::Still,
        shake_event: false,
        damage: DamageFlash::NoFlash,
        hitmarker: false,
        killmarker: None,
        arm: ArmMotion::Rest,
        tracer_from: None,
        death_message: None,
        eliminated: None,
    }
}

#[test]
fn reactions_to_own_and_others_fire() {
    let r = react_to_event(&GameEvent::Fire { player: 1 }, 1, true, false, false);
    assert_eq!(r.shake, Shake::Fire);
    assert!(r.shake_event);
    assert_eq!(r.arm, ArmMotion::Shoot);
    assert_eq!(react_to_event(&GameEvent::Fire { player: 2 }, 1, true, false, false), quiet());
}

#[test]
fn reactions_to_hits() {
    let on_me = react_to_event(&GameEvent::Hit { player: 2, target: 1 }, 1, true, true, true);
    assert_eq!(on_me.shake, Shake::Hit);
    assert_eq!(on_me.damage, DamageFlash::Hit);
    assert_eq!(on_me.tracer_from, Some(2));
    assert!(!on_me.hitmarker);
    let mine = react_to_event(&GameEvent::Hit { player: 1, target: 3 }, 1, true, true, true);
    assert!(mine.hitmarker);
    assert_eq!(mine.shake, Shake::Still);
    let on_prop = react_to_event(&GameEvent::Hit { player: 1, target: 9 }, 1, true, false, false);
    assert!(!on_prop.hitmarker);
    assert_eq!(on_prop.tracer_from, Some(1));
    let on_dead_me = react_to_event(&GameEvent::Hit { player: 2, target: 1 }, 1, false, true, false);
    assert_eq!(on_dead_me.shake, Shake::Still);
}

#[test]
fn reactions_to_deaths_and_disconnects() {
    let mine = react_to_event(&GameEvent::Death { player: 1, killer: 2 }, 1, false, true, false);
    assert_eq!(mine.shake, Shake::Death);
    assert!(!mine.shake_event);
    assert_eq!(mine.damage, DamageFlash::Death);
    assert_eq!(mine.death_message, Some(KillMessage { killer: 2, victim: 1 }));
    assert_eq!(mine.eliminated, Some(1));
    let kill = react_to_event(&GameEvent::Death { player: 3, killer: 1 }, 1, true, true, false);
    assert_eq!(kill.killmarker, Some(3));
    assert_eq!(kill.shake, Shake::Still);
    let reload = react_to_event(&GameEvent::Reload { player: 1 }, 1, true, false, false);
    assert_eq!(reload.arm, ArmMotion::Reload);
    let gone = react_to_event(&GameEvent::Disconnect { player: 4 }, 1, true, false, false);
    assert_eq!(gone.eliminated, Some(4));
    assert_eq!(react_to_event(&GameEvent::StartMove { player: 1 }, 1, true, false, false), quiet());
}
