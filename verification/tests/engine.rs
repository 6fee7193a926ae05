//! Behavioral checks of the rendering adapter, the blitter, and the game
//! state machine, run against the in-memory peripheral.

use worduino_engine::{
    draw_sprite, BasicMonster, Engine, Entity, LevelState, Peripherals, Player, ScreenBuffer,
    State,
};

#[test]
fn set_pixel_reaches_the_right_stripe_bit() {
    let mut sb = ScreenBuffer::new();
    for x in 0..128u8 {
        for y in 0..64u8 {
            let before = sb.get_stripe(x, y / 8);
            sb.set_pixel(x, y, true);
            let after = sb.get_stripe(x, y / 8);
            assert_eq!(after, before | (1 << (y % 8)));
            sb.set_pixel(x, y, false);
            assert_eq!(sb.get_stripe(x, y / 8), after & !(1 << (y % 8)));
        }
    }
}

#[test]
fn set_pixel_leaves_other_bits_alone() {
    let mut sb = ScreenBuffer::new();
    sb.set_stripe(17, 3, 0b0100_1001);
    sb.set_pixel(17, 3 * 8 + 2, true);
    assert_eq!(sb.get_stripe(17, 3), 0b0100_1101);
    sb.set_pixel(17, 3 * 8 + 0, false);
    assert_eq!(sb.get_stripe(17, 3), 0b0100_1100);
    // No other stripe was touched.
    for x in 0..128u8 {
        for s in 0..8u8 {
            if !(x == 17 && s == 3) {
                assert_eq!(sb.get_stripe(x, s), 0);
            }
        }
    }
}

#[test]
fn sprite_blit_at_origin() {
    let mut sb = ScreenBuffer::new();
    let sprite: Vec<u8> = vec![0x55, 0xaa, 0x55, 0xaa];
    draw_sprite(&mut sb, &sprite, (0, 0));
    // Stripe-aligned blit: each covered stripe holds its column byte.
    for i in 0..4u8 {
        assert_eq!(sb.get_stripe(i, 0), sprite[i as usize]);
        for j in 0..8u8 {
            let pixel = (sb.get_stripe(i, 0) >> j) & 1 == 1;
            assert_eq!(pixel, (sprite[i as usize] >> j) & 1 == 1);
        }
    }
    // Nothing outside the 4-by-8 region was touched.
    for x in 0..128u8 {
        for s in 0..8u8 {
            if !(x < 4 && s == 0) {
                assert_eq!(sb.get_stripe(x, s), 0);
            }
        }
    }
}

#[test]
fn sprite_blit_unaligned_rows() {
    let mut sb = ScreenBuffer::new();
    let sprite: Vec<u8> = vec![0xff, 0x01, 0x80, 0x00];
    draw_sprite(&mut sb, &sprite, (10, 13));
    for i in 0..4u8 {
        for j in 0..8u8 {
            let x = 10 + i;
            let y = 13 + j;
            let pixel = (sb.get_stripe(x, y / 8) >> (y % 8)) & 1 == 1;
            assert_eq!(pixel, (sprite[i as usize] >> j) & 1 == 1);
        }
    }
    // Rows above and below the sprite stay clear.
    for i in 0..4u8 {
        for y in 0..13u8 {
            assert_eq!((sb.get_stripe(10 + i, y / 8) >> (y % 8)) & 1, 0);
        }
        for y in 21..64u8 {
            assert_eq!((sb.get_stripe(10 + i, y / 8) >> (y % 8)) & 1, 0);
        }
    }
}

#[test]
fn player_starts_at_fixed_position() {
    let player = Player::new();
    assert_eq!(player.e.pos, (40, 40));
    assert_eq!(Player::start_pos().pos, (40, 40));
    assert_eq!(player.lives, 2);
    assert_eq!(player.score, 0);
    assert!(player.bullet.is_none());
}

#[test]
fn player_action_changes_nothing() {
    let mut player = Player::new();
    player.score = 123;
    player.action();
    assert_eq!(player.score, 123);
    assert_eq!(player.lives, 2);
    assert_eq!(player.e.pos, (40, 40));
}

#[test]
fn cleared_roster_regenerates_level_and_keeps_player() {
    let mut sb = ScreenBuffer::new();
    let mut player = Player::new();
    let mut ls = LevelState::new(&mut player);
    ls.player.score = 777;
    ls.player.lives = 1;
    match ls.step(&mut sb) {
        State::Playing { level_state } => {
            assert_eq!(level_state.player.score, 777);
            assert_eq!(level_state.player.lives, 1);
            assert!(level_state.player.bullet.is_none());
            for slot in level_state.monsters.iter() {
                assert!(slot.is_none());
            }
            assert_eq!(level_state.walls.vertical_walls, [0u16; 6]);
            assert_eq!(level_state.walls.horizontal_walls, [0u8; 11]);
        }
        State::GameOver { .. } => panic!("expected the playing state"),
    }
}

#[test]
fn occupied_roster_keeps_the_running_level() {
    let mut sb = ScreenBuffer::new();
    let mut player = Player::new();
    let mut ls = LevelState::new(&mut player);
    ls.monsters[3] = Some(BasicMonster { bullet: None });
    match ls.step(&mut sb) {
        State::Playing { level_state } => {
            assert!(level_state.monsters[3].is_some());
            assert_eq!(level_state.player.lives, 2);
        }
        State::GameOver { .. } => panic!("expected the playing state"),
    }
}

#[test]
fn lives_sentinel_forces_game_over() {
    let mut sb = ScreenBuffer::new();
    let mut player = Player::new();
    let mut ls = LevelState::new(&mut player);
    ls.player.lives = u8::MAX;
    // A populated roster does not matter once the sentinel is reached.
    ls.monsters[0] = Some(BasicMonster { bullet: None });
    match ls.step(&mut sb) {
        State::GameOver { score } => assert_eq!(score, 0),
        State::Playing { .. } => panic!("expected game over"),
    }
}

#[test]
fn level_step_draws_bullets_in_flight() {
    let mut sb = ScreenBuffer::new();
    let mut player = Player::new();
    let mut ls = LevelState::new(&mut player);
    ls.player.bullet = Some(Entity { pos: (10, 16) });
    ls.monsters[0] = Some(BasicMonster { bullet: Some(Entity { pos: (60, 24) }) });
    ls.step(&mut sb);
    // Player bullet sprite at a stripe-aligned position.
    let player_sprite = [0x55u8, 0xaa, 0x55, 0xaa];
    for i in 0..4u8 {
        assert_eq!(sb.get_stripe(10 + i, 2), player_sprite[i as usize]);
    }
    // Monster bullet sprite likewise.
    let monster_sprite = [0xaau8, 0x55, 0xaa, 0x55];
    for i in 0..4u8 {
        assert_eq!(sb.get_stripe(60 + i, 3), monster_sprite[i as usize]);
    }
}

#[test]
fn later_roster_slots_draw_over_earlier_ones() {
    let mut sb = ScreenBuffer::new();
    let mut player = Player::new();
    let mut ls = LevelState::new(&mut player);
    // Two monster bullets at the same position: the later slot wins, and
    // since both use the same sprite the overlap is that sprite.
    ls.monsters[1] = Some(BasicMonster { bullet: Some(Entity { pos: (20, 8) }) });
    ls.monsters[5] = Some(BasicMonster { bullet: Some(Entity { pos: (22, 8) }) });
    ls.step(&mut sb);
    let monster_sprite = [0xaau8, 0x55, 0xaa, 0x55];
    // Columns 22..26 hold the later bullet's sprite.
    for i in 0..4u8 {
        assert_eq!(sb.get_stripe(22 + i, 1), monster_sprite[i as usize]);
    }
    // Columns 20 and 21 keep the earlier bullet's first two columns.
    assert_eq!(sb.get_stripe(20, 1), 0xaa);
    assert_eq!(sb.get_stripe(21, 1), 0x55);
}

#[test]
fn engine_clears_the_screen_every_frame() {
    let mut sb = ScreenBuffer::new();
    sb.set_stripe(3, 4, 0xff);
    sb.set_stripe(127, 7, 0x81);
    let mut engine = Engine::new(sb);
    engine.step();
    // A fresh game has nothing in flight, so after one frame the whole
    // screen is clear again.
    for x in 0..128u8 {
        for s in 0..8u8 {
            assert_eq!(engine.peripherals.get_stripe(x, s), 0);
        }
    }
    // Stepping again keeps running (the empty roster regenerates the level).
    engine.step();
    for x in 0..128u8 {
        for s in 0..8u8 {
            assert_eq!(engine.peripherals.get_stripe(x, s), 0);
        }
    }
}
