//! The client's side of a game: the screen it is on, what it believes of its
//! own player's health, and the final standings.
use vstd::prelude::*;
use crate::components::PlayerHealthComponent;
use crate::roster::position_of;

verus! {

/// The screen the client shows.
#[derive(PartialEq, Eq, Structural, Clone, Copy, Debug)]
pub enum GameState {
    EnteringLobby,
    InLobby,
    InGame,
    GameOver,
}

/// What the client keeps across screens besides the screen itself: the
/// standings of the last game, whether its ready message went out, whether
/// the next mouse movement starts afresh, and whether it only watches.
pub struct ClientSession {
    pub rankings: Vec<usize>,
    pub ready_sent: bool,
    pub first_mouse: bool,
    pub spectator_mode: bool,
}

impl ClientSession {
    /// A session on its first screen: no standings, nothing sent, the mouse
    /// fresh, playing.
    pub fn new() -> (r: ClientSession)
        ensures
            r.rankings@ == Seq::<usize>::empty(),
            !r.ready_sent,
            r.first_mouse,
            !r.spectator_mode,
    {
        ClientSession { rankings: Vec::new(), ready_sent: false, first_mouse: true, spectator_mode: false }
    }
}

/// The next screen: entering the lobby always lands in it; the lobby gives
/// way to the game once the server starts it; the game gives way to the
/// standings once it has ended; the standings give way to a new lobby once
/// the player moves on.
pub open spec fn next_screen(state: GameState, game_started: bool, game_ended: bool, move_on: bool) -> GameState {
    match state {
        GameState::EnteringLobby => GameState::InLobby,
        GameState::InLobby => if game_started {
            GameState::InGame
        } else {
            GameState::InLobby
        },
        GameState::InGame => if game_ended {
            GameState::GameOver
        } else {
            GameState::InGame
        },
        GameState::GameOver => if move_on {
            GameState::EnteringLobby
        } else {
            GameState::GameOver
        },
    }
}

/// One step of the client's screens. Entering the lobby clears the last
/// standings and allows a new ready message; the start of a game makes the
/// next mouse movement start afresh; the standings screen ends spectating.
/// Nothing else of the session changes.
pub fn next_state(
    state: GameState,
    game_started: bool,
    game_ended: bool,
    move_on: bool,
    session: &mut ClientSession,
) -> (r: GameState)
    ensures
        r == next_screen(state, game_started, game_ended, move_on),
        final(session).rankings@ == (if state == GameState::EnteringLobby {
            Seq::<usize>::empty()
        } else {
            old(session).rankings@
        }),
        final(session).ready_sent == (old(session).ready_sent && state != GameState::EnteringLobby),
        final(session).first_mouse == (old(session).first_mouse || (state == GameState::InLobby
            && game_started)),
        final(session).spectator_mode == (old(session).spectator_mode && state
            != GameState::GameOver),
{
    match state {
        GameState::EnteringLobby => {
            session.rankings.clear();
            session.ready_sent = false;
            GameState::InLobby
        },
        GameState::InLobby => if game_started {
            session.first_mouse = true;
            GameState::InGame
        } else {
            GameState::InLobby
        },
        GameState::InGame => if game_ended {
            GameState::GameOver
        } else {
            GameState::InGame
        },
        GameState::GameOver => {
            session.spectator_mode = false;
            if move_on {
                GameState::EnteringLobby
            } else {
                GameState::GameOver
            }
        },
    }
}

/// Whether the mouse cursor is captured: the window has focus and the
/// client is not in the lobby.
pub fn cursor_disabled(is_focused: bool, state: GameState) -> (r: bool)
    ensures
        r == (is_focused && state != GameState::InLobby),
{
    is_focused && !(state == GameState::InLobby)
}

/// What the client believes of its player's health after a server update:
/// a new hit count of a living player is taken first; a death is taken next;
/// otherwise the server's view is taken whole.
pub open spec fn synced_health(client: PlayerHealthComponent, server: PlayerHealthComponent) -> PlayerHealthComponent {
    if server.alive && server.health != client.health {
        PlayerHealthComponent { health: server.health, ..client }
    } else if server.alive != client.alive && client.alive {
        PlayerHealthComponent { alive: server.alive, ..client }
    } else {
        PlayerHealthComponent { alive: server.alive, health: server.health, ..client }
    }
}

/// Takes the server's view of the client's player into the client's.
pub fn sync_client_health(client: &mut PlayerHealthComponent, server: &PlayerHealthComponent)
    ensures
        *final(client) == synced_health(*old(client), *server),
{
    if server.alive && server.health != client.health {
        client.health = server.health;
    } else if server.alive != client.alive && client.alive {
        client.alive = server.alive;
    } else {
        client.alive = server.alive;
        client.health = server.health;
    }
}

/// Two updates from an unchanged server bring the client's belief in line
/// with the server on life and health.
pub proof fn law_health_sync_converges(client: PlayerHealthComponent, server: PlayerHealthComponent)
    ensures
        synced_health(synced_health(client, server), server).alive == server.alive,
        synced_health(synced_health(client, server), server).health == server.health,
        synced_health(synced_health(client, server), server).hits == client.hits,
{
}

/// A dead player who presses enter starts watching the game; a spectator
/// stays one.
pub fn update_spectator_mode(spectator_mode: &mut bool, alive: bool, enter_pressed: bool)
    ensures
        *final(spectator_mode) == (*old(spectator_mode) || (!alive && enter_pressed)),
{
    if !alive && enter_pressed {
        *spectator_mode = true;
    }
}

/// Puts the place in `players` of a player who just left the game (killed or
/// disconnected) at the end of the standings; the first to leave is last.
pub fn record_elimination(rankings: &mut Vec<usize>, players: &Vec<u64>, player: u64)
    requires
        players@.contains(player),
    ensures
        final(rankings)@ == old(rankings)@.push(players@.index_of_first(player).unwrap() as usize),
{
    proof {
        players@.index_of_first_ensures(player);
    }
    let place = position_of(players, player).unwrap();
    rankings.push(place);
}

/// The places, in order, of the players still standing: alive with health left.
pub open spec fn standing(health: Seq<PlayerHealthComponent>) -> Seq<usize>
    decreases health.len(),
{
    if health.len() == 0 {
        Seq::empty()
    } else {
        let last = health.last();
        let front = standing(health.drop_last());
        if last.alive && last.health > 0 {
            front.push((health.len() - 1) as usize)
        } else {
            front
        }
    }
}

/// Completes the standings when the game has ended: the players still
/// standing join the players who left, and the whole list is turned around,
/// so that the last player standing comes first and the first to leave last.
pub fn finalize_rankings(rankings: &mut Vec<usize>, health: &Vec<PlayerHealthComponent>)
    ensures
        final(rankings)@ == (old(rankings)@ + standing(health@)).reverse(),
{
    let ghost start = rankings@;
    let mut k: usize = 0;
    while k < health.len()
        invariant
            k <= health@.len(),
            rankings@ == start + standing(health@.subrange(0, k as int)),
        decreases health@.len() - k,
    {
        proof {
            let pre = health@.subrange(0, k + 1);
            assert(pre.drop_last() =~= health@.subrange(0, k as int));
            assert(pre.last() == health@[k as int]);
        }
        if health[k].alive && health[k].health > 0 {
            rankings.push(k);
            assert(rankings@ =~= start + standing(health@.subrange(0, k + 1)));
        }
        k += 1;
    }
    assert(health@.subrange(0, k as int) =~= health@);
    let ghost before = rankings@;
    let mut reversed: Vec<usize> = Vec::new();
    let mut j: usize = rankings.len();
    while j > 0
        invariant
            j <= before.len(),
            rankings@ == before,
            reversed@ == before.subrange(j as int, before.len() as int).reverse(),
        decreases j,
    {
        j -= 1;
        proof {
            lemma_reverse_prepend(before.subrange(j as int, before.len() as int));
            assert(before.subrange(j as int, before.len() as int).drop_first() =~= before.subrange(
                j + 1,
                before.len() as int,
            ));
        }
        reversed.push(rankings[j]);
    }
    assert(before.subrange(0, before.len() as int) =~= before);
    *rankings = reversed;
}

proof fn lemma_reverse_prepend(s: Seq<usize>)
    requires
        s.len() > 0,
    ensures
        s.reverse() == s.drop_first().reverse().push(s[0]),
    decreases s.len(),
{
    if s.len() == 1 {
        assert(s.drop_first().reverse() =~= Seq::<usize>::empty());
        assert(s.reverse() =~= seq![s[0]]);
    } else {
        let t = s.drop_first();
        lemma_reverse_prepend(s.drop_last());
        assert(s.drop_last().drop_first() =~= t.drop_last());
        assert(t.last() == s.last());
        assert(s.reverse() =~= seq![s.last()] + s.drop_last().reverse());
        assert(t.reverse() =~= seq![t.last()] + t.drop_last().reverse());
    }
}

/// When the game ends with one player standing, that player tops the
/// standings, whoever left before.
pub proof fn law_last_player_standing_wins(
    eliminated: Seq<usize>,
    health: Seq<PlayerHealthComponent>,
    winner: usize,
)
    requires
        standing(health) == seq![winner],
    ensures
        (eliminated + standing(health)).reverse()[0] == winner,
        (eliminated + standing(health)).reverse().len() == eliminated.len() + 1,
{
    let all = eliminated + seq![winner];
    assert(all.last() == winner);
    assert(all.drop_last() =~= eliminated);
    assert(all.reverse() =~= seq![winner] + eliminated.reverse());
    lemma_reverse_len(eliminated);
}

proof fn lemma_reverse_len(s: Seq<usize>)
    ensures
        s.reverse().len() == s.len(),
    decreases s.len(),
{
    if s.len() > 0 {
        lemma_reverse_len(s.drop_last());
    }
}

/// A game event as the client receives it, its entities named by the 64-bit
/// form of their keys.
#[derive(PartialEq, Eq, Structural, Clone, Copy, Debug)]
pub enum GameEvent {
    Fire { player: u64 },
    Hit { player: u64, target: u64 },
    Reload { player: u64 },
    Death { player: u64, killer: u64 },
    Disconnect { player: u64 },
    StartMove { player: u64 },
    StopMove { player: u64 },
}

/// How hard the camera shakes at an event: lightly when this client fires,
/// more when it is hit, fully when it dies.
#[derive(PartialEq, Eq, Structural, Clone, Copy, Debug)]
pub enum Shake {
    Still,
    Fire,
    Hit,
    Death,
}

/// How strongly the damage overlay flashes: when this client is hit, and
/// fully when it dies.
#[derive(PartialEq, Eq, Structural, Clone, Copy, Debug)]
pub enum DamageFlash {
    NoFlash,
    Hit,
    Death,
}

/// What the client's first-person arm does.
#[derive(PartialEq, Eq, Structural, Clone, Copy, Debug)]
pub enum ArmMotion {
    Rest,
    Shoot,
    Reload,
}

/// The players of a kill message.
#[derive(PartialEq, Eq, Structural, Clone, Copy, Debug)]
pub struct KillMessage {
    pub killer: u64,
    pub victim: u64,
}

/// What the client does about one event.
#[derive(PartialEq, Eq, Structural, Clone, Copy, Debug)]
pub struct EventReaction {
    pub shake: Shake,
    /// The shake came from the event, so this frame's change of speed does not shake too.
    pub shake_event: bool,
    pub damage: DamageFlash,
    /// This client's shot struck a living player.
    pub hitmarker: bool,
    /// This client killed the player named.
    pub killmarker: Option<u64>,
    pub arm: ArmMotion,
    /// A tracer is drawn from the player named to the point hit.
    pub tracer_from: Option<u64>,
    /// The kill message of these players is shown.
    pub death_message: Option<KillMessage>,
    /// The player named left the game and joins the standings.
    pub eliminated: Option<u64>,
}

/// The reaction to an event that concerns no one in particular.
pub open spec fn no_reaction() -> EventReaction {
    EventReaction {
        shake: Shake::Still,
        shake_event: false,
        damage: DamageFlash::NoFlash,
        hitmarker: false,
        killmarker: None,
        arm: ArmMotion::Rest,
        tracer_from: None,
        death_message: None,
        eliminated: None,
    }
}

/// The client's reaction to `event` when it plays `me`, alive or not, and
/// the target of a hit is a player, alive or not: its own shots shake the
/// camera and move the arm; a hit on itself while alive shakes and flashes,
/// and its own hit on a living player shows a hit marker; every hit draws a
/// tracer from the shooter; its own reload moves the arm; every death shows
/// the kill message and puts the victim in the standings, shakes and flashes
/// fully when the victim is itself, or marks the kill when it is the killer;
/// every disconnection puts the player in the standings.
pub open spec fn reaction(
    event: GameEvent,
    me: u64,
    me_alive: bool,
    target_is_player: bool,
    target_alive: bool,
) -> EventReaction {
    match event {
        GameEvent::Fire { player } => if player == me {
            EventReaction { shake: Shake::Fire, shake_event: true, arm: ArmMotion::Shoot, ..no_reaction() }
        } else {
            no_reaction()
        },
        GameEvent::Hit { player, target } => {
            let traced = EventReaction { tracer_from: Some(player), ..no_reaction() };
            if target == me && me_alive {
                EventReaction { shake: Shake::Hit, shake_event: true, damage: DamageFlash::Hit, ..traced }
            } else if player == me && target_is_player && target_alive {
                EventReaction { hitmarker: true, ..traced }
            } else {
                traced
            }
        },
        GameEvent::Reload { player } => if player == me {
            EventReaction { arm: ArmMotion::Reload, ..no_reaction() }
        } else {
            no_reaction()
        },
        GameEvent::Death { player, killer } => {
            let noted = EventReaction {
                death_message: Some(KillMessage { killer, victim: player }),
                eliminated: Some(player),
                ..no_reaction()
            };
            if player == me {
                EventReaction { shake: Shake::Death, damage: DamageFlash::Death, ..noted }
            } else if killer == me {
                EventReaction { killmarker: Some(player), ..noted }
            } else {
                noted
            }
        },
        GameEvent::Disconnect { player } => EventReaction { eliminated: Some(player), ..no_reaction() },
        GameEvent::StartMove { .. } => no_reaction(),
        GameEvent::StopMove { .. } => no_reaction(),
    }
}

/// Decides what the client does about one event.
pub fn react_to_event(
    event: &GameEvent,
    me: u64,
    me_alive: bool,
    target_is_player: bool,
    target_alive: bool,
) -> (r: EventReaction)
    ensures
        r == reaction(*event, me, me_alive, target_is_player, target_alive),
{
    let quiet = EventReaction {
        shake: Shake::Still,
        shake_event: false,
        damage: DamageFlash::NoFlash,
        hitmarker: false,
        killmarker: None,
        arm: ArmMotion::Rest,
        tracer_from: None,
        death_message: None,
        eliminated: None,
    };
    match *event {
        GameEvent::Fire { player } => {
            if player == me {
                EventReaction { shake: Shake::Fire, shake_event: true, arm: ArmMotion::Shoot, ..quiet }
            } else {
                quiet
            }
        },
        GameEvent::Hit { player, target } => {
            let traced = EventReaction { tracer_from: Some(player), ..quiet };
            if target == me && me_alive {
                EventReaction { shake: Shake::Hit, shake_event: true, damage: DamageFlash::Hit, ..traced }
            } else if player == me && target_is_player && target_alive {
                EventReaction { hitmarker: true, ..traced }
            } else {
                traced
            }
        },
        GameEvent::Reload { player } => {
            if player == me {
                EventReaction { arm: ArmMotion::Reload, ..quiet }
            } else {
                quiet
            }
        },
        GameEvent::Death { player, killer } => {
            let noted = EventReaction {
                death_message: Some(KillMessage { killer, victim: player }),
                eliminated: Some(player),
                ..quiet
            };
            if player == me {
                EventReaction { shake: Shake::Death, damage: DamageFlash::Death, ..noted }
            } else if killer == me {
                EventReaction { killmarker: Some(player), ..noted }
            } else {
                noted
            }
        },
        GameEvent::Disconnect { player } => EventReaction { eliminated: Some(player), ..quiet },
        GameEvent::StartMove { .. } => quiet,
        GameEvent::StopMove { .. } => quiet,
    }
}

/// Events about other players never shake this client's camera or move its
/// arm, except a hit on it.
pub proof fn law_others_events_leave_camera_still(
    event: GameEvent,
    me: u64,
    me_alive: bool,
    target_is_player: bool,
    target_alive: bool,
)
    requires
        match event {
            GameEvent::Fire { player } => player != me,
            GameEvent::Hit { target, .. } => target != me,
            GameEvent::Reload { player } => player != me,
            GameEvent::Death { player, .. } => player != me,
            _ => true,
        },
    ensures
        reaction(event, me, me_alive, target_is_player, target_alive).shake == Shake::Still,
        !reaction(event, me, me_alive, target_is_player, target_alive).shake_event,
        reaction(event, me, me_alive, target_is_player, target_alive).arm == ArmMotion::Rest,
        reaction(event, me, me_alive, target_is_player, target_alive).damage
            == DamageFlash::NoFlash,
{
}

/// Every death, whoever died and whoever killed, shows the kill message of
/// exactly those two players and puts the victim in the standings; every
/// disconnection puts the player in the standings; no other event shows a
/// kill message or changes the standings. Every hit, and only a hit, draws a
/// tracer from the shooter, and a kill marker only ever names a player this
/// client killed.
pub proof fn law_deaths_and_disconnects_reach_the_standings(
    event: GameEvent,
    me: u64,
    me_alive: bool,
    target_is_player: bool,
    target_alive: bool,
)
    ensures
        ({
            let r = reaction(event, me, me_alive, target_is_player, target_alive);
            &&& (event matches GameEvent::Death { player, killer } ==> r.death_message == Some(
                KillMessage { killer, victim: player },
            ) && r.eliminated == Some(player))
            &&& (event matches GameEvent::Disconnect { player } ==> r.eliminated == Some(player)
                && r.death_message is None)
            &&& (!(event is Death) && !(event is Disconnect) ==> r.eliminated is None
                && r.death_message is None)
            &&& (event matches GameEvent::Hit { player, .. } ==> r.tracer_from == Some(player))
            &&& (!(event is Hit) ==> r.tracer_from is None)
            &&& (r.killmarker matches Some(v) ==> event == GameEvent::Death { player: v, killer: me }
                && v != me)
        }),
{
}

/// Each screen is left only on its own signal and the others do not matter:
/// the standings give way to a new lobby exactly when the player moves on,
/// whether or not a game started or ended; the game gives way to the
/// standings exactly when it ends; the lobby gives way to the game exactly
/// when the game starts; entering the lobby always lands in it.
pub proof fn law_screens_follow_their_own_signal(
    started: bool,
    ended: bool,
    moved_on: bool,
    other_started: bool,
    other_ended: bool,
    other_moved_on: bool,
)
    ensures
        next_screen(GameState::GameOver, started, ended, true) == GameState::EnteringLobby,
        next_screen(GameState::GameOver, started, ended, false) == GameState::GameOver,
        next_screen(GameState::InGame, started, true, moved_on) == GameState::GameOver,
        next_screen(GameState::InGame, started, false, moved_on) == GameState::InGame,
        next_screen(GameState::InLobby, true, ended, moved_on) == GameState::InGame,
        next_screen(GameState::InLobby, false, ended, moved_on) == GameState::InLobby,
        next_screen(GameState::EnteringLobby, started, ended, moved_on) == GameState::InLobby,
        next_screen(GameState::GameOver, started, ended, moved_on) == next_screen(
            GameState::GameOver,
            other_started,
            other_ended,
            moved_on,
        ),
        next_screen(GameState::InGame, started, ended, moved_on) == next_screen(
            GameState::InGame,
            other_started,
            ended,
            other_moved_on,
        ),
        next_screen(GameState::InLobby, started, ended, moved_on) == next_screen(
            GameState::InLobby,
            started,
            other_ended,
            other_moved_on,
        ),
{
}

/// The players still standing are named by their places, in increasing
/// order, and a place is among them exactly when its player is alive with
/// health left.
pub proof fn law_standing_are_the_living(health: Seq<PlayerHealthComponent>)
    requires
        health.len() <= usize::MAX,
    ensures
        forall|i: int|
            0 <= i < health.len() ==> (#[trigger] standing(health).contains(i as usize) <==> (
            health[i].alive && health[i].health > 0)),
        forall|k: int| 0 <= k < standing(health).len() ==> #[trigger] standing(health)[k] < health.len(),
        forall|k: int, l: int|
            0 <= k < l < standing(health).len() ==> #[trigger] standing(health)[k]
                < #[trigger] standing(health)[l],
    decreases health.len(),
{
    if health.len() > 0 {
        let n = health.len() - 1;
        let front = health.drop_last();
        law_standing_are_the_living(front);
        let s = standing(health);
        let sf = standing(front);
        assert forall|i: int| 0 <= i < health.len() implies (#[trigger] s.contains(i as usize) <==> (
        health[i].alive && health[i].health > 0)) by {
            if i < n {
                assert(front[i] == health[i]);
                if s.contains(i as usize) {
                    let j = choose|j: int| 0 <= j < s.len() && s[j] == i as usize;
                    if j < sf.len() {
                        assert(sf[j] == i as usize);
                        assert(sf.contains(i as usize));
                    } else {
                        assert(s[j] == n as usize);
                    }
                }
                if sf.contains(i as usize) {
                    let j = choose|j: int| 0 <= j < sf.len() && sf[j] == i as usize;
                    assert(s[j] == i as usize);
                }
            } else {
                if health[i].alive && health[i].health > 0 {
                    assert(s[s.len() - 1] == i as usize);
                } else {
                    if s.contains(i as usize) {
                        let j = choose|j: int| 0 <= j < s.len() && s[j] == i as usize;
                        assert(sf[j] < front.len());
                    }
                }
            }
        }
        assert forall|k: int| 0 <= k < s.len() implies #[trigger] s[k] < health.len() by {
            if k < sf.len() {
                assert(s[k] == sf[k]);
            }
        }
        assert forall|k: int, l: int| 0 <= k < l < s.len() implies #[trigger] s[k] < #[trigger] s[l] by {
            if l < sf.len() {
                assert(s[k] == sf[k] && s[l] == sf[l]);
            } else {
                assert(s[k] == sf[k]);
                assert(sf[k] < front.len());
                assert(s[l] == n as usize);
            }
        }
    }
}

/// A server update never changes the hits the client counted for itself,
/// and each of life and health ends up as the client had it or as the
/// server has it; a living player's health is always taken from the server.
pub proof fn law_health_sync_takes_from_the_server(
    client: PlayerHealthComponent,
    server: PlayerHealthComponent,
)
    ensures
        synced_health(client, server).hits == client.hits,
        synced_health(client, server).alive == client.alive || synced_health(client, server).alive
            == server.alive,
        synced_health(client, server).health == client.health || synced_health(client, server).health
            == server.health,
        server.alive ==> synced_health(client, server).health == server.health,
        !server.alive ==> !synced_health(client, server).alive,
{
}

} // verus!
