//! The server's lists of entities: who has connected, who is playing, which
//! entities move and which are drawn, and who is ready in the lobby.
//! Entities are named by the 64-bit form of their keys.
use vstd::prelude::*;
use crate::components::MIN_PLAYERS;

verus! {

/// The first position of `key` in `v`, if any.
pub fn position_of(v: &Vec<u64>, key: u64) -> (r: Option<usize>)
    ensures
        r matches Some(i) ==> v@.index_of_first(key) == Some(i as int),
        r is None ==> v@.index_of_first(key) is None,
{
    let mut k: usize = 0;
    while k < v.len()
        invariant
            k <= v@.len(),
            forall|j: int| 0 <= j < k ==> v@[j] != key,
        decreases v@.len() - k,
    {
        if v[k] == key {
            proof {
                v@.index_of_first_ensures(key);
                let f = v@.index_of_first(key).unwrap();
                assert(f == k as int) by {
                    if f < k as int {
                        assert(v@[f] != key);
                    }
                    if f > k as int {
                        assert(v@[k as int] == key);
                    }
                }
            }
            return Some(k);
        }
        k += 1;
    }
    proof {
        v@.index_of_first_ensures(key);
        if v@.contains(key) {
            let i = choose|i: int| 0 <= i < v@.len() && v@[i] == key;
            assert(v@[i] != key);
        }
    }
    None
}

/// Whether `v` holds `key`.
pub fn contains_key(v: &Vec<u64>, key: u64) -> (r: bool)
    ensures
        r == v@.contains(key),
{
    let p = position_of(v, key);
    proof {
        v@.index_of_first_ensures(key);
    }
    p.is_some()
}

/// Removes the first `key` in `v`; `v` must hold it.
fn remove_first(v: &mut Vec<u64>, key: u64)
    requires
        old(v)@.contains(key),
    ensures
        final(v)@ == old(v)@.remove_value(key),
{
    match position_of(v, key) {
        Some(i) => {
            proof {
                v@.index_of_first_ensures(key);
            }
            v.remove(i);
        },
        None => {
            proof {
                v@.index_of_first_ensures(key);
            }
        },
    }
}

/// `s` with every `key` taken out.
pub open spec fn without(s: Seq<u64>, key: u64) -> Seq<u64> {
    s.filter(|k: u64| k != key)
}

/// Takes every `key` out of `v`, keeping the order of the rest.
fn remove_all(v: &mut Vec<u64>, key: u64)
    ensures
        final(v)@ == without(old(v)@, key),
{
    let mut out: Vec<u64> = Vec::new();
    let mut k: usize = 0;
    while k < v.len()
        invariant
            k <= v@.len(),
            out@ == without(v@.subrange(0, k as int), key),
        decreases v@.len() - k,
    {
        proof {
            reveal(Seq::filter);
            let s = v@.subrange(0, k + 1);
            assert(s.drop_last() =~= v@.subrange(0, k as int));
            assert(s.last() == v@[k as int]);
        }
        if v[k] != key {
            out.push(v[k]);
        }
        k += 1;
    }
    assert(v@.subrange(0, v@.len() as int) =~= v@);
    *v = out;
}

proof fn lemma_without(s: Seq<u64>, key: u64)
    ensures
        !without(s, key).contains(key),
        forall|x: u64| x != key ==> (#[trigger] without(s, key).contains(x) == s.contains(x)),
        s.no_duplicates() ==> without(s, key).no_duplicates(),
    decreases s.len(),
{
    reveal(Seq::filter);
    if s.len() > 0 {
        let front = s.drop_last();
        lemma_without(front, key);
        let wf = without(front, key);
        let w = without(s, key);
        if s.last() != key {
            assert(w == wf.push(s.last()));
        } else {
            assert(w == wf);
        }
        assert forall|x: u64| x != key implies (#[trigger] w.contains(x) == s.contains(x)) by {
            if s.contains(x) {
                let i = choose|i: int| 0 <= i < s.len() && s[i] == x;
                if i < s.len() - 1 {
                    assert(front[i] == x);
                    assert(wf.contains(x));
                    let j = choose|j: int| 0 <= j < wf.len() && wf[j] == x;
                    assert(w[j] == x);
                } else {
                    assert(w[w.len() - 1] == x);
                }
            }
            if w.contains(x) {
                let j = choose|j: int| 0 <= j < w.len() && w[j] == x;
                if j < wf.len() {
                    assert(wf[j] == x);
                    assert(without(front, key).contains(x));
                    assert(front.contains(x));
                    let i = choose|i: int| 0 <= i < front.len() && front[i] == x;
                    assert(s[i] == x);
                } else {
                    assert(s[s.len() - 1] == x);
                }
            }
        }
        if w.contains(key) {
            let j = choose|j: int| 0 <= j < w.len() && w[j] == key;
            if j < wf.len() {
                assert(wf[j] == key);
            }
        }
        if s.no_duplicates() {
            assert(front.no_duplicates()) by {
                assert forall|i: int, j: int|
                    0 <= i < front.len() && 0 <= j < front.len() && i != j implies front[i]
                    != front[j] by {
                    assert(front[i] == s[i]);
                    assert(front[j] == s[j]);
                }
            }
            if s.last() != key {
                assert(!wf.contains(s.last())) by {
                    if wf.contains(s.last()) {
                        assert(front.contains(s.last()));
                        let i = choose|i: int| 0 <= i < front.len() && front[i] == s.last();
                        assert(s[i] == s[s.len() - 1]);
                    }
                }
                assert forall|i: int, j: int|
                    0 <= i < w.len() && 0 <= j < w.len() && i != j implies w[i] != w[j] by {
                    if i < wf.len() && j < wf.len() {
                        assert(w[i] == wf[i]);
                        assert(w[j] == wf[j]);
                    } else if i < wf.len() {
                        assert(w[i] == wf[i]);
                    } else if j < wf.len() {
                        assert(w[j] == wf[j]);
                    }
                }
            }
        }
    }
}

/// Taking out the first `key` of a list where no key occurs twice leaves no
/// `key` in it, and no key twice.
proof fn lemma_remove_value_no_duplicates(s: Seq<u64>, key: u64)
    requires
        s.no_duplicates(),
        s.contains(key),
    ensures
        s.remove_value(key).no_duplicates(),
        !s.remove_value(key).contains(key),
{
    s.index_of_first_ensures(key);
    let i = s.index_of_first(key).unwrap();
    let t = s.remove(i);
    s.remove_ensures(i);
    assert forall|a: int, b: int| 0 <= a < t.len() && 0 <= b < t.len() && a != b implies t[a]
        != t[b] by {
        let sa = if a < i { a } else { a + 1 };
        let sb = if b < i { b } else { b + 1 };
        assert(t[a] == s[sa]);
        assert(t[b] == s[sb]);
    }
    if t.contains(key) {
        let j = choose|j: int| 0 <= j < t.len() && t[j] == key;
        let sj = if j < i { j } else { j + 1 };
        assert(t[j] == s[sj]);
    }
}

/// The entity lists of a game server.
pub struct Roster {
    /// Every player that connected, in order of connection; a client's id is
    /// its place here.
    pub ids: Vec<u64>,
    /// The players of the current game.
    pub players: Vec<u64>,
    /// The entities that physics moves.
    pub dynamics: Vec<u64>,
    /// The entities that clients draw.
    pub renderables: Vec<u64>,
    /// The players that said they are ready, each once.
    pub ready_players: Vec<u64>,
    /// The players still in the game.
    pub active_players: u8,
}

impl Roster {
    /// Lists with no entity in them.
    pub fn new() -> (r: Roster)
        ensures
            r.ids@ == Seq::<u64>::empty(),
            r.players@ == Seq::<u64>::empty(),
            r.dynamics@ == Seq::<u64>::empty(),
            r.renderables@ == Seq::<u64>::empty(),
            r.ready_players@ == Seq::<u64>::empty(),
            r.active_players == 0,
            r.players@.no_duplicates(),
            r.ready_players@.no_duplicates(),
    {
        Roster {
            ids: Vec::new(),
            players: Vec::new(),
            dynamics: Vec::new(),
            renderables: Vec::new(),
            ready_players: Vec::new(),
            active_players: 0,
        }
    }

    /// The id the next client to connect gets: the number of clients so far,
    /// in one byte.
    pub fn next_client_id(&self) -> (r: u8)
        ensures
            r == self.ids@.len() as u8,
    {
        self.ids.len() as u8
    }

    /// Enters a newly connected player: it gets the next id, plays, moves,
    /// is drawn, and counts as one more player in the game.
    pub fn add_player(&mut self, key: u64)
        requires
            old(self).active_players < 255,
        ensures
            final(self).ids@ == old(self).ids@.push(key),
            final(self).players@ == old(self).players@.push(key),
            final(self).dynamics@ == old(self).dynamics@.push(key),
            final(self).renderables@ == old(self).renderables@.push(key),
            final(self).ready_players@ == old(self).ready_players@,
            final(self).active_players == old(self).active_players + 1,
            old(self).players@.no_duplicates() && !old(self).players@.contains(key) ==> final(self).players@.no_duplicates(),
    {
        self.ids.push(key);
        self.players.push(key);
        self.dynamics.push(key);
        self.renderables.push(key);
        self.active_players += 1;
    }

    /// Enters a prop of the world: it is drawn, and moved by physics when dynamic.
    pub fn add_prop(&mut self, key: u64, dynamic: bool)
        ensures
            final(self).renderables@ == old(self).renderables@.push(key),
            dynamic ==> final(self).dynamics@ == old(self).dynamics@.push(key),
            !dynamic ==> final(self).dynamics@ == old(self).dynamics@,
            final(self).ids@ == old(self).ids@,
            final(self).players@ == old(self).players@,
            final(self).ready_players@ == old(self).ready_players@,
            final(self).active_players == old(self).active_players,
    {
        self.renderables.push(key);
        if dynamic {
            self.dynamics.push(key);
        }
    }

    /// Takes a player out of the game lists (its id stays taken) and out of
    /// the ready players altogether; the count of players in the game becomes
    /// the number left, in one byte.
    pub fn remove_player(&mut self, key: u64)
        requires
            old(self).players@.contains(key),
            old(self).dynamics@.contains(key),
            old(self).renderables@.contains(key),
        ensures
            final(self).ids@ == old(self).ids@,
            final(self).players@ == old(self).players@.remove_value(key),
            final(self).dynamics@ == old(self).dynamics@.remove_value(key),
            final(self).renderables@ == old(self).renderables@.remove_value(key),
            final(self).ready_players@ == without(old(self).ready_players@, key),
            !final(self).ready_players@.contains(key),
            old(self).ready_players@.no_duplicates() ==> final(self).ready_players@.no_duplicates(),
            final(self).active_players == final(self).players@.len() as u8,
            old(self).players@.no_duplicates() ==> final(self).players@.no_duplicates()
                && !final(self).players@.contains(key),
    {
        proof {
            lemma_without(self.ready_players@, key);
            if self.players@.no_duplicates() {
                lemma_remove_value_no_duplicates(self.players@, key);
            }
        }
        remove_all(&mut self.ready_players, key);
        remove_first(&mut self.players, key);
        remove_first(&mut self.dynamics, key);
        remove_first(&mut self.renderables, key);
        self.active_players = self.players.len() as u8;
    }

    /// Whether `key` is a player of the current game.
    pub fn is_player(&self, key: u64) -> (r: bool)
        ensures
            r == self.players@.contains(key),
    {
        contains_key(&self.players, key)
    }

    /// Records that a player is ready; a player is recorded once.
    pub fn mark_ready(&mut self, key: u64)
        ensures
            old(self).ready_players@.contains(key) ==> final(self).ready_players@ == old(self).ready_players@,
            !old(self).ready_players@.contains(key) ==> final(self).ready_players@ == old(self).ready_players@.push(key),
            final(self).ready_players@.contains(key),
            old(self).ready_players@.no_duplicates() ==> final(self).ready_players@.no_duplicates(),
            final(self).ids@ == old(self).ids@,
            final(self).players@ == old(self).players@,
            final(self).dynamics@ == old(self).dynamics@,
            final(self).renderables@ == old(self).renderables@,
            final(self).active_players == old(self).active_players,
    {
        if !contains_key(&self.ready_players, key) {
            self.ready_players.push(key);
            assert(self.ready_players@[self.ready_players@.len() - 1] == key);
        }
    }

    /// Whether the lobby can start the game: enough players are ready, and
    /// every player is.
    pub fn can_start_game(&self) -> (r: bool)
        ensures
            r == (self.ready_players@.len() >= MIN_PLAYERS && self.ready_players@.len()
                == self.players@.len()),
    {
        self.ready_players.len() >= MIN_PLAYERS && self.ready_players.len() == self.players.len()
    }

    /// Forgets who was ready.
    pub fn clear_ready(&mut self)
        ensures
            final(self).ready_players@ == Seq::<u64>::empty(),
            final(self).ready_players@.no_duplicates(),
            final(self).ids@ == old(self).ids@,
            final(self).players@ == old(self).players@,
            final(self).dynamics@ == old(self).dynamics@,
            final(self).renderables@ == old(self).renderables@,
            final(self).active_players == old(self).active_players,
    {
        self.ready_players.clear();
    }

    /// Empties the world for a new game: nothing moves or is drawn and no one
    /// is ready; the players stay.
    pub fn clear_world(&mut self)
        ensures
            final(self).dynamics@ == Seq::<u64>::empty(),
            final(self).renderables@ == Seq::<u64>::empty(),
            final(self).ready_players@ == Seq::<u64>::empty(),
            final(self).ready_players@.no_duplicates(),
            final(self).ids@ == old(self).ids@,
            final(self).players@ == old(self).players@,
            final(self).active_players == old(self).active_players,
    {
        self.dynamics.clear();
        self.renderables.clear();
        self.ready_players.clear();
    }

    /// Puts every player back into a fresh world, after its props: players
    /// move and are drawn, and all of them are in the game.
    pub fn readmit_players(&mut self)
        ensures
            final(self).dynamics@ == old(self).dynamics@ + old(self).players@,
            final(self).renderables@ == old(self).renderables@ + old(self).players@,
            final(self).active_players == old(self).players@.len() as u8,
            final(self).ids@ == old(self).ids@,
            final(self).players@ == old(self).players@,
            final(self).ready_players@ == old(self).ready_players@,
    {
        let mut k: usize = 0;
        let ghost d0 = self.dynamics@;
        let ghost r0 = self.renderables@;
        let ghost p0 = self.players@;
        let ghost i0 = self.ids@;
        let ghost q0 = self.ready_players@;
        while k < self.players.len()
            invariant
                k <= self.players@.len(),
                self.players@ == p0,
                self.ids@ == i0,
                self.ready_players@ == q0,
                self.dynamics@ == d0 + self.players@.subrange(0, k as int),
                self.renderables@ == r0 + self.players@.subrange(0, k as int),
            decreases self.players@.len() - k,
        {
            let key = self.players[k];
            self.dynamics.push(key);
            self.renderables.push(key);
            k += 1;
            assert(self.dynamics@ =~= d0 + self.players@.subrange(0, k as int));
            assert(self.renderables@ =~= r0 + self.players@.subrange(0, k as int));
        }
        assert(self.players@.subrange(0, k as int) =~= self.players@);
        self.active_players = self.players.len() as u8;
    }
}

/// The players still connected, in roster order, when `connected[i]` tells
/// whether `players[i]` is.
pub open spec fn connected_of(players: Seq<u64>, connected: Seq<bool>) -> Seq<u64>
    decreases players.len(),
{
    if players.len() == 0 {
        Seq::empty()
    } else {
        let front = connected_of(players.drop_last(), connected.drop_last());
        if connected.last() {
            front.push(players.last())
        } else {
            front
        }
    }
}

/// The keys of the props of a world, each given with whether it is dynamic,
/// in order.
pub open spec fn prop_keys(props: Seq<(u64, bool)>) -> Seq<u64>
    decreases props.len(),
{
    if props.len() == 0 {
        Seq::empty()
    } else {
        prop_keys(props.drop_last()).push(props.last().0)
    }
}

/// The keys of the dynamic props of a world, in order.
pub open spec fn dynamic_keys(props: Seq<(u64, bool)>) -> Seq<u64>
    decreases props.len(),
{
    if props.len() == 0 {
        Seq::empty()
    } else if props.last().1 {
        dynamic_keys(props.drop_last()).push(props.last().0)
    } else {
        dynamic_keys(props.drop_last())
    }
}

proof fn lemma_connected_of(players: Seq<u64>, connected: Seq<bool>)
    requires
        players.len() == connected.len(),
    ensures
        forall|x: u64| #[trigger] connected_of(players, connected).contains(x) ==> players.contains(x),
        players.no_duplicates() ==> connected_of(players, connected).no_duplicates(),
    decreases players.len(),
{
    if players.len() > 0 {
        let front = players.drop_last();
        let kf = connected_of(front, connected.drop_last());
        let k = connected_of(players, connected);
        lemma_connected_of(front, connected.drop_last());
        assert forall|x: u64| #[trigger] k.contains(x) implies players.contains(x) by {
            let j = choose|j: int| 0 <= j < k.len() && k[j] == x;
            if j < kf.len() {
                assert(kf[j] == x);
                assert(kf.contains(x));
                let i = choose|i: int| 0 <= i < front.len() && front[i] == x;
                assert(players[i] == x);
            } else {
                assert(players[players.len() - 1] == x);
            }
        }
        if players.no_duplicates() {
            assert(front.no_duplicates()) by {
                assert forall|i: int, j: int|
                    0 <= i < front.len() && 0 <= j < front.len() && i != j implies front[i]
                    != front[j] by {
                    assert(front[i] == players[i]);
                    assert(front[j] == players[j]);
                }
            }
            if connected.last() {
                assert(!kf.contains(players.last())) by {
                    if kf.contains(players.last()) {
                        assert(front.contains(players.last()));
                        let i = choose|i: int| 0 <= i < front.len() && front[i] == players.last();
                        assert(players[i] == players[players.len() - 1]);
                    }
                }
                assert forall|i: int, j: int|
                    0 <= i < k.len() && 0 <= j < k.len() && i != j implies k[i] != k[j] by {
                    if i < kf.len() && j < kf.len() {
                        assert(k[i] == kf[i]);
                        assert(k[j] == kf[j]);
                    } else if i < kf.len() {
                        assert(k[i] == kf[i]);
                        assert(kf.contains(k[i]));
                    } else if j < kf.len() {
                        assert(k[j] == kf[j]);
                        assert(kf.contains(k[j]));
                    }
                }
            }
        }
    }
}

/// The players of `players` whose flag in `connected` is set, in order.
fn keep_connected(players: &Vec<u64>, connected: &Vec<bool>) -> (r: Vec<u64>)
    requires
        players@.len() == connected@.len(),
    ensures
        r@ == connected_of(players@, connected@),
{
    let mut r: Vec<u64> = Vec::new();
    let mut k: usize = 0;
    while k < players.len()
        invariant
            k <= players@.len(),
            players@.len() == connected@.len(),
            r@ == connected_of(players@.subrange(0, k as int), connected@.subrange(0, k as int)),
        decreases players@.len() - k,
    {
        proof {
            let p = players@.subrange(0, k + 1);
            let c = connected@.subrange(0, k + 1);
            assert(p.drop_last() =~= players@.subrange(0, k as int));
            assert(c.drop_last() =~= connected@.subrange(0, k as int));
            assert(p.last() == players@[k as int]);
            assert(c.last() == connected@[k as int]);
        }
        if connected[k] {
            r.push(players[k]);
        }
        k += 1;
    }
    assert(players@.subrange(0, k as int) =~= players@);
    assert(connected@.subrange(0, k as int) =~= connected@);
    r
}

impl Roster {
    /// Sets the lists up for a new game in a freshly built world: the players
    /// whose connection is lost leave (their ids stay taken), the props of the
    /// world come first, each drawn and the dynamic ones moved, then every
    /// remaining player moves and is drawn; no one is ready, and every
    /// remaining player is in the game. A player that leaves must be in the
    /// moving and drawn lists of the game that ends.
    pub fn restart(&mut self, connected: &Vec<bool>, props: &Vec<(u64, bool)>)
        requires
            connected@.len() == old(self).players@.len(),
            forall|i: int|
                0 <= i < connected@.len() && !connected@[i] ==> old(self).dynamics@.contains(
                    #[trigger] old(self).players@[i],
                ) && old(self).renderables@.contains(old(self).players@[i]),
        ensures
            final(self).ids@ == old(self).ids@,
            final(self).players@ == connected_of(old(self).players@, connected@),
            final(self).dynamics@ == dynamic_keys(props@) + final(self).players@,
            final(self).renderables@ == prop_keys(props@) + final(self).players@,
            final(self).ready_players@ == Seq::<u64>::empty(),
            final(self).active_players == final(self).players@.len() as u8,
            old(self).players@.no_duplicates() ==> final(self).players@.no_duplicates(),
            forall|x: u64| #[trigger] final(self).players@.contains(x) ==> old(self).players@.contains(x),
    {
        proof {
            lemma_connected_of(self.players@, connected@);
        }
        let kept = keep_connected(&self.players, connected);
        self.players = kept;
        self.clear_world();
        let mut k: usize = 0;
        while k < props.len()
            invariant
                k <= props@.len(),
                self.dynamics@ == dynamic_keys(props@.subrange(0, k as int)),
                self.renderables@ == prop_keys(props@.subrange(0, k as int)),
                self.ready_players@ == Seq::<u64>::empty(),
                self.players@ == kept@,
                self.ids@ == old(self).ids@,
            decreases props@.len() - k,
        {
            proof {
                let p = props@.subrange(0, k + 1);
                assert(p.drop_last() =~= props@.subrange(0, k as int));
                assert(p.last() == props@[k as int]);
            }
            let (key, dynamic) = props[k];
            self.add_prop(key, dynamic);
            k += 1;
        }
        assert(props@.subrange(0, k as int) =~= props@);
        self.readmit_players();
    }
}

/// The players whose connection is lost, in roster order, when
/// `connected[i]` tells whether `players[i]` is still connected.
pub open spec fn disconnected_of(players: Seq<u64>, connected: Seq<bool>) -> Seq<u64>
    decreases players.len(),
{
    if players.len() == 0 {
        Seq::empty()
    } else {
        let front = disconnected_of(players.drop_last(), connected.drop_last());
        if !connected.last() {
            front.push(players.last())
        } else {
            front
        }
    }
}

/// The players a restart drops: those whose connection is lost.
pub fn disconnected_players(players: &Vec<u64>, connected: &Vec<bool>) -> (r: Vec<u64>)
    requires
        players@.len() == connected@.len(),
    ensures
        r@ == disconnected_of(players@, connected@),
{
    let mut r: Vec<u64> = Vec::new();
    let mut k: usize = 0;
    while k < players.len()
        invariant
            k <= players@.len(),
            players@.len() == connected@.len(),
            r@ == disconnected_of(
                players@.subrange(0, k as int),
                connected@.subrange(0, k as int),
            ),
        decreases players@.len() - k,
    {
        proof {
            let p = players@.subrange(0, k + 1);
            let c = connected@.subrange(0, k + 1);
            assert(p.drop_last() =~= players@.subrange(0, k as int));
            assert(c.drop_last() =~= connected@.subrange(0, k as int));
            assert(p.last() == players@[k as int]);
            assert(c.last() == connected@[k as int]);
        }
        if !connected[k] {
            r.push(players[k]);
        }
        k += 1;
    }
    assert(players@.subrange(0, k as int) =~= players@);
    assert(connected@.subrange(0, k as int) =~= connected@);
    r
}

/// Taking out a player that was just entered, and had not been entered
/// before, gives back the game lists as they were (the id stays taken).
pub proof fn law_remove_undoes_add(
    players: Seq<u64>,
    dynamics: Seq<u64>,
    renderables: Seq<u64>,
    key: u64,
)
    requires
        !players.contains(key),
        !dynamics.contains(key),
        !renderables.contains(key),
    ensures
        players.push(key).remove_value(key) == players,
        dynamics.push(key).remove_value(key) == dynamics,
        renderables.push(key).remove_value(key) == renderables,
{
    lemma_remove_pushed(players, key);
    lemma_remove_pushed(dynamics, key);
    lemma_remove_pushed(renderables, key);
}

proof fn lemma_remove_pushed(s: Seq<u64>, key: u64)
    requires
        !s.contains(key),
    ensures
        s.push(key).remove_value(key) == s,
{
    let t = s.push(key);
    t.index_of_first_ensures(key);
    assert(t[s.len() as int] == key);
    let i = t.index_of_first(key).unwrap();
    if i < s.len() {
        assert(s[i] == t[i]);
    }
    assert(t.remove(i) =~= s);
}

/// A player taken out of a game where it played once plays no more, and
/// every other player keeps playing.
pub proof fn law_removed_player_is_gone(players: Seq<u64>, key: u64, other: u64)
    requires
        players.contains(key),
        forall|i: int, j: int| 0 <= i < j < players.len() ==> players[i] != players[j],
    ensures
        !players.remove_value(key).contains(key),
        other != key ==> (players.remove_value(key).contains(other) == players.contains(other)),
        players.remove_value(key).len() == players.len() - 1,
{
    players.index_of_first_ensures(key);
    let i = players.index_of_first(key).unwrap();
    let t = players.remove(i);
    players.remove_ensures(i);
    if t.contains(key) {
        let j = choose|j: int| 0 <= j < t.len() && t[j] == key;
        if j < i {
            assert(players[j] == key);
        } else {
            assert(players[j + 1] == key);
        }
    }
    if other != key {
        if players.contains(other) {
            let j = choose|j: int| 0 <= j < players.len() && players[j] == other;
            if j < i {
                assert(t[j] == other);
            } else {
                assert(j != i);
                assert(t[j - 1] == other);
            }
        }
        if t.contains(other) {
            let j = choose|j: int| 0 <= j < t.len() && t[j] == other;
            if j < i {
                assert(players[j] == other);
            } else {
                assert(players[j + 1] == other);
            }
        }
    }
}

/// A restart splits the players in two by their connection: a player whose
/// connection is lost is among those dropped and a connected one among those
/// kept, nobody else is in either, and together they are as many as the
/// players.
pub proof fn law_restart_splits_players_by_connection(players: Seq<u64>, connected: Seq<bool>)
    requires
        players.len() == connected.len(),
    ensures
        forall|i: int|
            0 <= i < players.len() && !connected[i] ==> #[trigger] disconnected_of(
                players,
                connected,
            ).contains(players[i]),
        forall|i: int|
            0 <= i < players.len() && connected[i] ==> #[trigger] connected_of(
                players,
                connected,
            ).contains(players[i]),
        forall|x: u64| #[trigger]
            disconnected_of(players, connected).contains(x) ==> exists|i: int|
                0 <= i < players.len() && !connected[i] && players[i] == x,
        forall|x: u64| #[trigger]
            connected_of(players, connected).contains(x) ==> exists|i: int|
                0 <= i < players.len() && connected[i] && players[i] == x,
        disconnected_of(players, connected).len() + connected_of(players, connected).len()
            == players.len(),
    decreases players.len(),
{
    if players.len() > 0 {
        let n = players.len() - 1;
        let pf = players.drop_last();
        let cf = connected.drop_last();
        law_restart_splits_players_by_connection(pf, cf);
        let d = disconnected_of(players, connected);
        let k = connected_of(players, connected);
        let df = disconnected_of(pf, cf);
        let kf = connected_of(pf, cf);
        assert forall|i: int| 0 <= i < players.len() && !connected[i] implies #[trigger] d.contains(
            players[i],
        ) by {
            if i < n {
                assert(pf[i] == players[i] && cf[i] == connected[i]);
                assert(df.contains(pf[i]));
                let j = choose|j: int| 0 <= j < df.len() && df[j] == pf[i];
                assert(d[j] == players[i]);
            } else {
                assert(d[d.len() - 1] == players[i]);
            }
        }
        assert forall|i: int| 0 <= i < players.len() && connected[i] implies #[trigger] k.contains(
            players[i],
        ) by {
            if i < n {
                assert(pf[i] == players[i] && cf[i] == connected[i]);
                assert(kf.contains(pf[i]));
                let j = choose|j: int| 0 <= j < kf.len() && kf[j] == pf[i];
                assert(k[j] == players[i]);
            } else {
                assert(k[k.len() - 1] == players[i]);
            }
        }
        assert forall|x: u64| #[trigger] d.contains(x) implies exists|i: int|
            0 <= i < players.len() && !connected[i] && players[i] == x by {
            let j = choose|j: int| 0 <= j < d.len() && d[j] == x;
            if j < df.len() {
                assert(df[j] == x);
                assert(df.contains(x));
                let i = choose|i: int| 0 <= i < pf.len() && !cf[i] && pf[i] == x;
                assert(players[i] == x && !connected[i]);
            } else {
                assert(players[n] == x && !connected[n]);
            }
        }
        assert forall|x: u64| #[trigger] k.contains(x) implies exists|i: int|
            0 <= i < players.len() && connected[i] && players[i] == x by {
            let j = choose|j: int| 0 <= j < k.len() && k[j] == x;
            if j < kf.len() {
                assert(kf[j] == x);
                assert(kf.contains(x));
                let i = choose|i: int| 0 <= i < pf.len() && cf[i] && pf[i] == x;
                assert(players[i] == x && connected[i]);
            } else {
                assert(players[n] == x && connected[n]);
            }
        }
    }
}

/// After a restart every prop of the new world is drawn, in the order of the
/// world, and a prop is moved by physics exactly when it is marked dynamic:
/// the moving props are the world's props with the static ones left out.
pub proof fn law_restart_moves_exactly_the_dynamic_props(props: Seq<(u64, bool)>)
    ensures
        prop_keys(props).len() == props.len(),
        forall|i: int| 0 <= i < props.len() ==> #[trigger] prop_keys(props)[i] == props[i].0,
        forall|i: int|
            0 <= i < props.len() && props[i].1 ==> #[trigger] dynamic_keys(props).contains(
                props[i].0,
            ),
        forall|x: u64| #[trigger]
            dynamic_keys(props).contains(x) ==> exists|i: int|
                0 <= i < props.len() && props[i].1 && props[i].0 == x,
        dynamic_keys(props).len() == props.filter(|p: (u64, bool)| p.1).len(),
    decreases props.len(),
{
    reveal(Seq::filter);
    if props.len() > 0 {
        let n = props.len() - 1;
        let pf = props.drop_last();
        law_restart_moves_exactly_the_dynamic_props(pf);
        let d = dynamic_keys(props);
        let df = dynamic_keys(pf);
        assert forall|i: int| 0 <= i < props.len() implies #[trigger] prop_keys(props)[i]
            == props[i].0 by {
            if i < n {
                assert(pf[i] == props[i]);
                assert(prop_keys(pf)[i] == pf[i].0);
            }
        }
        assert forall|i: int| 0 <= i < props.len() && props[i].1 implies #[trigger] d.contains(
            props[i].0,
        ) by {
            if i < n {
                assert(pf[i] == props[i]);
                assert(df.contains(pf[i].0));
                let j = choose|j: int| 0 <= j < df.len() && df[j] == pf[i].0;
                assert(d[j] == props[i].0);
            } else {
                assert(d[d.len() - 1] == props[i].0);
            }
        }
        assert forall|x: u64| #[trigger] d.contains(x) implies exists|i: int|
            0 <= i < props.len() && props[i].1 && props[i].0 == x by {
            let j = choose|j: int| 0 <= j < d.len() && d[j] == x;
            if j < df.len() {
                assert(df[j] == x);
                assert(df.contains(x));
                let i = choose|i: int| 0 <= i < pf.len() && pf[i].1 && pf[i].0 == x;
                assert(props[i] == pf[i]);
            } else {
                assert(props[n].1 && props[n].0 == x);
            }
        }
    }
}

/// Taking a player out of the ready players takes out every mention of it
/// and nothing else: every other player stays ready or not as it was, and
/// none is listed twice if none was before.
pub proof fn law_unready_removes_only_that_player(ready: Seq<u64>, key: u64)
    ensures
        !without(ready, key).contains(key),
        forall|x: u64| x != key ==> (#[trigger] without(ready, key).contains(x) == ready.contains(x)),
        ready.no_duplicates() ==> without(ready, key).no_duplicates(),
        !ready.contains(key) ==> without(ready, key) == ready,
{
    lemma_without(ready, key);
    if !ready.contains(key) {
        lemma_without_absent(ready, key);
    }
}

proof fn lemma_without_absent(s: Seq<u64>, key: u64)
    requires
        !s.contains(key),
    ensures
        without(s, key) == s,
    decreases s.len(),
{
    reveal(Seq::filter);
    if s.len() > 0 {
        let front = s.drop_last();
        assert(!front.contains(key)) by {
            if front.contains(key) {
                let i = choose|i: int| 0 <= i < front.len() && front[i] == key;
                assert(s[i] == key);
            }
        }
        lemma_without_absent(front, key);
        assert(s.last() != key) by {
            assert(s[s.len() - 1] == s.last());
        }
        assert(front.push(s.last()) =~= s);
    }
}

} // verus!
