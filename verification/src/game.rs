//! Entity model, per-level simulation state and the top-level game state
//! machine, with the per-frame update/draw cycle.

use vstd::prelude::*;
use crate::codec::{u8_bit, Walls, WallsData, mirror_v_spec, mirror_h_spec};
use crate::screen::{
    Peripherals, pixel_at, sprite_drawn, in_screen, in_screen_px, clear_screen, draw_sprite,
};

verus! {

/// A position in pixel space.
#[derive(Clone, Copy)]
pub struct Entity {
    pub pos: (u8, u8),
}

/// A bullet slot is drawable: its 4-column, 8-row sprite fits on the screen.
pub open spec fn wf_bullet(b: Option<Entity>) -> bool {
    match b {
        Some(e) => e.pos.0 + 4 <= 128 && e.pos.1 + 8 <= 64,
        None => true,
    }
}

/// Columns of the player-bullet sprite.
pub open spec fn player_bullet_spec() -> Seq<u8> {
    seq![0x55u8, 0xaau8, 0x55u8, 0xaau8]
}

/// Columns of the monster-bullet sprite.
pub open spec fn monster_bullet_spec() -> Seq<u8> {
    seq![0xaau8, 0x55u8, 0xaau8, 0x55u8]
}

/// The player-bullet sprite, copied out of constant data into working
/// memory for drawing.
pub fn player_bullet_sprite() -> (r: Vec<u8>)
    ensures
        r@ == player_bullet_spec(),
{
    let mut v: Vec<u8> = Vec::new();
    v.push(0x55);
    v.push(0xaa);
    v.push(0x55);
    v.push(0xaa);
    proof {
        assert(v@ =~= player_bullet_spec());
    }
    v
}

/// The monster-bullet sprite, copied out of constant data into working
/// memory for drawing.
pub fn monster_bullet_sprite() -> (r: Vec<u8>)
    ensures
        r@ == monster_bullet_spec(),
{
    let mut v: Vec<u8> = Vec::new();
    v.push(0xaa);
    v.push(0x55);
    v.push(0xaa);
    v.push(0x55);
    proof {
        assert(v@ =~= monster_bullet_spec());
    }
    v
}

/// Vertical-wall half-rows of the base level, as stored in constant data.
pub open spec fn level_vertical_spec() -> Seq<u8> {
    seq![0u8, 0u8, 0u8, 0u8, 0u8, 0u8]
}

/// Horizontal-wall half-columns of the base level, as stored in constant
/// data.
pub open spec fn level_horizontal_spec() -> Seq<u8> {
    seq![0u8, 0u8, 0u8, 0u8, 0u8, 0u8]
}

/// `d` holds the base level's compact layout.
pub open spec fn is_level_data(d: WallsData) -> bool {
    &&& d.vertical_walls@ == level_vertical_spec()
    &&& d.horizontal_walls@ == level_horizontal_spec()
}

/// `w` is the fully expanded layout of the base level.
pub open spec fn fresh_walls(w: Walls) -> bool {
    &&& w.vertical_walls@ == mirror_v_spec(level_vertical_spec())
    &&& w.horizontal_walls@ == mirror_h_spec(level_horizontal_spec())
}

/// Loads the base level's compact layout out of constant data into working
/// memory; expansion happens per level, never in place.
pub fn level_data() -> (r: WallsData)
    ensures
        is_level_data(r),
{
    let r = WallsData {
        vertical_walls: [0, 0, 0, 0, 0, 0],
        horizontal_walls: [0, 0, 0, 0, 0, 0],
    };
    proof {
        assert(r.vertical_walls@ =~= level_vertical_spec());
        assert(r.horizontal_walls@ =~= level_horizontal_spec());
    }
    r
}

/// The pixel at `(x, y)` after blitting the bullet in slot `b` with sprite
/// `sprite` over a screen whose pixel there was `under`.
pub open spec fn over_bullet(b: Option<Entity>, sprite: Seq<u8>, under: bool, x: int, y: int) -> bool {
    match b {
        Some(e) => if e.pos.0 <= x < e.pos.0 + sprite.len() && e.pos.1 <= y < e.pos.1 + 8 {
            u8_bit(sprite[x - e.pos.0], (y - e.pos.1) as u8)
        } else {
            under
        },
        None => under,
    }
}

/// `post` is `pre` with the bullet in slot `b` blitted, or untouched when
/// the slot is empty.
pub open spec fn bullet_drawn<P: Peripherals>(pre: P, post: P, b: Option<Entity>, sprite: Seq<u8>) -> bool {
    match b {
        Some(e) => sprite_drawn(pre, post, sprite, e.pos.0 as int, e.pos.1 as int),
        None => post == pre,
    }
}

/// Pixel-level reading of `bullet_drawn`: every screen pixel of `post` is
/// the bullet sprite layered over the same pixel of `pre`, and stripes off
/// the screen are untouched.
pub proof fn lemma_bullet_drawn_pixels<P: Peripherals>(pre: P, post: P, b: Option<Entity>, sprite: Seq<u8>)
    requires
        bullet_drawn(pre, post, b, sprite),
        wf_bullet(b),
        sprite.len() == 4,
    ensures
        forall|x: int, y: int| in_screen_px(x, y)
            ==> #[trigger] pixel_at(post, x, y) == over_bullet(b, sprite, pixel_at(pre, x, y), x, y),
        forall|i: int, s: int| !in_screen(i, s)
            ==> #[trigger] post.stripe_at(i, s) == pre.stripe_at(i, s),
{
    match b {
        Some(e) => {
            let x0 = e.pos.0 as int;
            let y0 = e.pos.1 as int;
            assert forall|x: int, y: int| in_screen_px(x, y)
                implies #[trigger] pixel_at(post, x, y)
                    == over_bullet(b, sprite, pixel_at(pre, x, y), x, y) by {
                if x0 <= x < x0 + 4 && y0 <= y < y0 + 8 {
                } else if x0 <= x < x0 + 4 {
                    assert(pixel_at(post, x, y) == pixel_at(pre, x, y));
                } else {
                    assert(post.stripe_at(x, y / 8) == pre.stripe_at(x, y / 8));
                }
            }
            assert forall|i: int, s: int| !in_screen(i, s)
                implies #[trigger] post.stripe_at(i, s) == pre.stripe_at(i, s) by {
                if 0 <= s < 8 {
                    assert(!(x0 <= i < x0 + sprite.len()));
                }
            }
        },
        None => {},
    }
}

/// At most one in-flight bullet; the monster's own position and behavior
/// are carried by the host, not by this core.
#[derive(Clone, Copy)]
pub struct BasicMonster {
    pub bullet: Option<Entity>,
}

impl BasicMonster {
    /// Blits the monster's bullet, if one is in flight; otherwise draws
    /// nothing.
    pub fn draw<P: Peripherals>(&self, p: &mut P)
        requires
            wf_bullet(self.bullet),
        ensures
            bullet_drawn(*old(p), *final(p), self.bullet, monster_bullet_spec()),
    {
        match &self.bullet {
            Some(e) => {
                let sprite = monster_bullet_sprite();
                draw_sprite(p, &sprite, e.pos);
            },
            None => {},
        }
    }
}

/// The player: position, remaining lives (saturating; the maximum value is
/// the "dead" sentinel), score, and at most one in-flight bullet.
#[derive(Clone, Copy)]
pub struct Player {
    pub e: Entity,
    pub lives: u8,
    pub score: u16,
    pub bullet: Option<Entity>,
}

/// The player a new game starts with.
pub open spec fn initial_player() -> Player {
    Player { e: Entity { pos: (40u8, 40u8) }, lives: 2u8, score: 0u16, bullet: None }
}

impl Player {
    /// The fixed position every game starts at.
    pub fn start_pos() -> (r: Entity)
        ensures
            r == (Entity { pos: (40u8, 40u8) }),
    {
        Entity { pos: (40, 40) }
    }

    /// A fresh player at the start position with the starting lives count.
    pub fn new() -> (r: Player)
        ensures
            r == initial_player(),
    {
        Player { e: Self::start_pos(), lives: 2, score: 0, bullet: None }
    }

    /// Blits the player's bullet, if one is in flight; otherwise draws
    /// nothing.
    pub fn draw<P: Peripherals>(&self, p: &mut P)
        requires
            wf_bullet(self.bullet),
        ensures
            bullet_drawn(*old(p), *final(p), self.bullet, player_bullet_spec()),
    {
        match &self.bullet {
            Some(e) => {
                let sprite = player_bullet_sprite();
                draw_sprite(p, &sprite, e.pos);
            },
            None => {},
        }
    }

    /// Per-frame player hook. Movement, shooting and collision are an open
    /// extension point; the hook deliberately changes nothing.
    pub fn action(&mut self)
        ensures
            *final(self) == *old(self),
    {
    }
}

/// A monster slot is empty or holds a drawable monster.
pub open spec fn wf_slot(s: Option<BasicMonster>) -> bool {
    match s {
        Some(m) => wf_bullet(m.bullet),
        None => true,
    }
}

/// Number of occupied slots in a monster roster.
pub open spec fn count_occupied(ms: Seq<Option<BasicMonster>>) -> nat
    decreases ms.len(),
{
    if ms.len() == 0 {
        0
    } else {
        count_occupied(ms.drop_last()) + (if ms.last() is Some { 1nat } else { 0nat })
    }
}

/// The pixel at `(x, y)` after drawing roster `ms` in slot order over a
/// screen whose pixel there was `under`; a later slot draws over an earlier
/// one.
pub open spec fn monsters_pix(ms: Seq<Option<BasicMonster>>, under: bool, x: int, y: int) -> bool
    decreases ms.len(),
{
    if ms.len() == 0 {
        under
    } else {
        match ms.last() {
            Some(m) => over_bullet(m.bullet, monster_bullet_spec(), monsters_pix(ms.drop_last(), under, x, y), x, y),
            None => monsters_pix(ms.drop_last(), under, x, y),
        }
    }
}

/// Extending the drawn prefix of a roster by one slot layers that slot's
/// bullet over the picture so far.
pub proof fn lemma_monsters_pix_step(ms: Seq<Option<BasicMonster>>, i: int, under: bool, x: int, y: int)
    requires
        0 <= i < ms.len(),
    ensures
        monsters_pix(ms.take(i + 1), under, x, y) == match ms[i] {
            Some(m) => over_bullet(m.bullet, monster_bullet_spec(), monsters_pix(ms.take(i), under, x, y), x, y),
            None => monsters_pix(ms.take(i), under, x, y),
        },
{
    assert(ms.take(i + 1).drop_last() =~= ms.take(i));
    assert(ms.take(i + 1).last() == ms[i]);
}

/// The pixel at `(x, y)` after one full draw pass of a level — the player's
/// bullet first, then every occupied monster slot in roster order — over a
/// screen whose pixel there was `under`.
pub open spec fn level_pix(ls: LevelState, under: bool, x: int, y: int) -> bool {
    monsters_pix(
        ls.monsters@,
        over_bullet(ls.player.bullet, player_bullet_spec(), under, x, y),
        x,
        y,
    )
}

/// `post` is `pre` with one full draw pass of `ls` applied.
pub open spec fn level_drawn<P: Peripherals>(pre: P, post: P, ls: LevelState) -> bool {
    &&& forall|x: int, y: int| in_screen_px(x, y)
        ==> #[trigger] pixel_at(post, x, y) == level_pix(ls, pixel_at(pre, x, y), x, y)
    &&& forall|i: int, s: int| !in_screen(i, s)
        ==> #[trigger] post.stripe_at(i, s) == pre.stripe_at(i, s)
}

/// `ls` is a freshly started level wrapping `player`: the base level's
/// walls, newly expanded, and an empty monster roster.
pub open spec fn fresh_level(ls: LevelState, player: Player) -> bool {
    &&& ls.player == player
    &&& forall|i: int| 0 <= i < 8 ==> #[trigger] ls.monsters@[i] is None
    &&& fresh_walls(ls.walls)
}

/// One playthrough of a level: the walls snapshot, the player carried
/// across levels, and a fixed roster of up to 8 monster slots.
#[derive(Clone, Copy)]
pub struct LevelState {
    pub walls: Walls,
    pub player: Player,
    pub monsters: [Option<BasicMonster>; 8],
}

/// Top-level states of the game.
#[derive(Clone, Copy)]
pub enum State {
    Playing { level_state: LevelState },
    GameOver { score: u16 },
}

/// The playing state is well formed: everything it may draw fits on the
/// screen.
pub open spec fn state_wf(st: State) -> bool {
    match st {
        State::Playing { level_state } => level_state.wf(),
        State::GameOver { .. } => true,
    }
}

impl LevelState {
    /// Every bullet the level may draw fits on the screen.
    pub open spec fn wf(self) -> bool {
        &&& wf_bullet(self.player.bullet)
        &&& forall|i: int| 0 <= i < 8 ==> wf_slot(#[trigger] self.monsters@[i])
    }

    /// Starts a level: expands the base level's walls, empties the roster,
    /// and carries the player over by value.
    pub fn new(player: &mut Player) -> (r: LevelState)
        ensures
            *final(player) == *old(player),
            fresh_level(r, *old(player)),
    {
        let layout = level_data();
        let r = LevelState {
            walls: Walls::from_data(&layout),
            player: *player,
            monsters: [None, None, None, None, None, None, None, None],
        };
        r
    }

    /// Draws the player, then every occupied monster slot in roster order.
    pub fn draw<P: Peripherals>(&self, p: &mut P)
        requires
            self.wf(),
        ensures
            level_drawn(*old(p), *final(p), *self),
    {
        let ghost p_pre = *p;
        self.player.draw(p);
        proof {
            lemma_bullet_drawn_pixels(p_pre, *p, self.player.bullet, player_bullet_spec());
        }
        let ghost p_base = *p;
        let mut i: usize = 0;
        while i < 8
            invariant
                i <= 8,
                self.wf(),
                forall|x: int, y: int| in_screen_px(x, y)
                    ==> #[trigger] pixel_at(*p, x, y)
                        == monsters_pix(self.monsters@.take(i as int), pixel_at(p_base, x, y), x, y),
                forall|a: int, s: int| !in_screen(a, s)
                    ==> #[trigger] p.stripe_at(a, s) == p_base.stripe_at(a, s),
            decreases 8 - i,
        {
            let ghost p_cur = *p;
            match &self.monsters[i] {
                Some(monster) => {
                    monster.draw(p);
                    proof {
                        lemma_bullet_drawn_pixels(p_cur, *p, monster.bullet, monster_bullet_spec());
                    }
                },
                None => {},
            }
            proof {
                assert forall|x: int, y: int| in_screen_px(x, y)
                    implies #[trigger] pixel_at(*p, x, y)
                        == monsters_pix(self.monsters@.take(i + 1), pixel_at(p_base, x, y), x, y) by {
                    lemma_monsters_pix_step(self.monsters@, i as int, pixel_at(p_base, x, y), x, y);
                }
            }
            i += 1;
        }
        proof {
            assert(self.monsters@.take(8) =~= self.monsters@);
            assert forall|x: int, y: int| in_screen_px(x, y)
                implies #[trigger] pixel_at(*p, x, y)
                    == level_pix(*self, pixel_at(p_pre, x, y), x, y) by {
                assert(pixel_at(*p, x, y)
                    == monsters_pix(self.monsters@, pixel_at(p_base, x, y), x, y));
            }
        }
    }

    /// One frame of the level: draw everything, run the player hook, count
    /// the occupied monster slots, and pick the next top-level state —
    /// game over when the lives counter sits at its sentinel, a freshly
    /// regenerated level around the same player when the roster is clear,
    /// and the running level otherwise. Game over reports a score of zero,
    /// not the player's accumulated score; carrying the score over is an
    /// open extension point, kept as is here.
    pub fn step<P: Peripherals>(&mut self, p: &mut P) -> (next: State)
        requires
            old(self).wf(),
        ensures
            *final(self) == *old(self),
            level_drawn(*old(p), *final(p), *old(self)),
            old(self).player.lives == u8::MAX ==> next == (State::GameOver { score: 0u16 }),
            old(self).player.lives != u8::MAX && count_occupied(old(self).monsters@) != 0
                ==> next == (State::Playing { level_state: *old(self) }),
            old(self).player.lives != u8::MAX && count_occupied(old(self).monsters@) == 0
                ==> (next matches State::Playing { level_state }
                    && fresh_level(level_state, old(self).player)),
            state_wf(next),
    {
        self.draw(p);

        let mut player = self.player;
        player.action();

        let ghost ls0 = *self;
        let mut monster_count: u8 = 0;
        let mut i: usize = 0;
        while i < 8
            invariant
                i <= 8,
                *self == ls0,
                monster_count as int <= i as int,
                monster_count as nat == count_occupied(self.monsters@.take(i as int)),
            decreases 8 - i,
        {
            if self.monsters[i].is_some() {
                monster_count += 1;
            }
            proof {
                assert(self.monsters@.take(i + 1).drop_last() =~= self.monsters@.take(i as int));
                assert(self.monsters@.take(i + 1).last() == self.monsters@[i as int]);
            }
            i += 1;
        }
        proof {
            assert(self.monsters@.take(8) =~= self.monsters@);
        }

        self.player = player;

        if self.player.lives == u8::MAX {
            return State::GameOver { score: 0 };
        }

        if monster_count == 0 {
            State::Playing { level_state: Self::new(&mut self.player) }
        } else {
            State::Playing { level_state: *self }
        }
    }
}

/// The engine: the host's peripherals and the current top-level state,
/// advanced one frame per call.
pub struct Engine<P: Peripherals> {
    pub peripherals: P,
    state: State,
}

impl<P: Peripherals> Engine<P> {
    /// Abstract view of the engine's current top-level state.
    pub closed spec fn state_view(&self) -> State {
        self.state
    }

    /// Abstract view of the peripherals the engine owns.
    pub closed spec fn peripherals_view(&self) -> P {
        self.peripherals
    }

    /// A new game around the given peripherals: a fresh player inside a
    /// fresh level, in the playing state.
    pub fn new(peripherals: P) -> (r: Engine<P>)
        ensures
            r.peripherals_view() == peripherals,
            r.state_view() matches State::Playing { level_state }
                && fresh_level(level_state, initial_player()),
            state_wf(r.state_view()),
    {
        let mut player = Player::new();
        Engine {
            peripherals,
            state: State::Playing { level_state: LevelState::new(&mut player) },
        }
    }

    /// One display frame: clear every stripe of the screen, then let the
    /// current state act. Game over draws nothing further and stays put;
    /// playing runs the level's step and adopts the state it returns.
    pub fn step(&mut self)
        requires
            state_wf(old(self).state_view()),
        ensures
            state_wf(final(self).state_view()),
            forall|i: int, s: int| !in_screen(i, s)
                ==> #[trigger] final(self).peripherals_view().stripe_at(i, s)
                    == old(self).peripherals_view().stripe_at(i, s),
            old(self).state_view() is GameOver ==> final(self).state_view() == old(self).state_view()
                && forall|i: int, s: int| in_screen(i, s)
                    ==> #[trigger] final(self).peripherals_view().stripe_at(i, s) == 0,
            old(self).state_view() matches State::Playing { level_state } ==> {
                &&& forall|x: int, y: int| in_screen_px(x, y)
                    ==> #[trigger] pixel_at(final(self).peripherals_view(), x, y)
                        == level_pix(level_state, false, x, y)
                &&& level_state.player.lives == u8::MAX
                    ==> final(self).state_view() == (State::GameOver { score: 0u16 })
                &&& level_state.player.lives != u8::MAX && count_occupied(level_state.monsters@) != 0
                    ==> final(self).state_view() == (State::Playing { level_state })
                &&& level_state.player.lives != u8::MAX && count_occupied(level_state.monsters@) == 0
                    ==> (final(self).state_view() matches State::Playing { level_state: fresh }
                        && fresh_level(fresh, level_state.player))
            },
    {
        clear_screen(&mut self.peripherals);
        let ghost p_mid = self.peripherals;
        proof {
            assert(forall|j: u8| j < 8 ==> (0u8 >> j) & 1 != 1) by (bit_vector);
            assert forall|x: int, y: int| in_screen_px(x, y)
                implies !pixel_at(p_mid, x, y) by {
                assert(0 <= y % 8 < 8);
            }
        }
        match self.state {
            State::GameOver { score: _ } => {},
            State::Playing { level_state } => {
                let mut ls = level_state;
                let next = ls.step(&mut self.peripherals);
                self.state = next;
            },
        }
    }
}

} // verus!
