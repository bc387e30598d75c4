use dicespell::Die;
use dicespell::actions::{Action, RuleError, all_actions, apply_action};
use dicespell::spells::{BaseSpell, Chisel, DoppelTwice, HarvestScythe, Spell1, Spell2, SpellRef, ViseGrip};
use dicespell::state::{GameState, SpellSlot, Spellbook, bump, initial_state};

#[test]
fn die_round_trip_pips() {
    for v in 1u8..=6u8 {
        let d = Die::from_pips(v).unwrap();
        assert_eq!(d.pips(), v);
        assert_eq!(d.as_index(), (v - 1) as usize);
    }
}

#[test]
fn die_rejects_out_of_range() {
    assert!(Die::from_pips(0).is_none());
    assert!(Die::from_pips(7).is_none());
    assert!(Die::from_pips(255).is_none());
    assert!(Die::from_index(6).is_none());
    assert!(Die::from_index(usize::MAX).is_none());
}

#[test]
fn die_round_trip_index() {
    for i in 0usize..6 {
        let d = Die::from_index(i).unwrap();
        assert_eq!(d.as_index(), i);
        assert_eq!(d.pips(), (i + 1) as u8);
    }
}

#[test]
fn generator_actions_all_apply() {
    let st = initial_state();
    for act in all_actions(&st) {
        assert!(apply_action(&st, act).is_ok());
    }
}

#[test]
fn generator_actions_apply_two_plies_deep() {
    let st = initial_state();
    for act in all_actions(&st) {
        let child = apply_action(&st, act).unwrap();
        for act2 in all_actions(&child) {
            assert!(apply_action(&child, act2).is_ok());
        }
    }
}

#[test]
fn vise_grip_equal_dice_is_a_no_op() {
    let st = initial_state();
    let d = Die::from_pips(3).unwrap();
    let r = ViseGrip.cast_spell(&st, d, d);
    assert_eq!(r.dice, st.dice);
    assert_eq!(r.enemy_hp, st.enemy_hp);
    for i in 0..4 {
        assert_eq!(r.board[i].uses, st.board[i].uses);
    }
}

#[test]
fn vise_grip_distinct_dice_adds_three_of_the_difference() {
    let st = initial_state();
    let d1 = Die::from_pips(2).unwrap();
    let d2 = Die::from_pips(5).unwrap();
    let r = ViseGrip.cast_spell(&st, d1, d2);
    // The difference is 3, so face 3 (index 2) gains three dice.
    assert_eq!(r.dice[2], st.dice[2] + 3);
    for i in [0usize, 1, 3, 4, 5] {
        assert_eq!(r.dice[i], st.dice[i]);
    }
    assert_eq!(r.enemy_hp, st.enemy_hp);
}

#[test]
fn doppel_twice_wraps_above_six() {
    let st = initial_state();
    let d = Die::from_pips(4).unwrap();
    let r = DoppelTwice.cast_spell(&st, d);
    // 4 doubled is 8, which wraps to 2; the wrapped face is credited twice.
    assert_eq!(r.dice[1], st.dice[1] + 2);
    for i in [0usize, 2, 3, 4, 5] {
        assert_eq!(r.dice[i], st.dice[i]);
    }
}

#[test]
fn doppel_twice_without_wrap() {
    let st = initial_state();
    let d = Die::from_pips(3).unwrap();
    let r = DoppelTwice.cast_spell(&st, d);
    // 3 doubled is 6: one die at face 6, nothing wrapped.
    assert_eq!(r.dice[5], st.dice[5] + 1);
    for i in 0usize..5 {
        assert_eq!(r.dice[i], st.dice[i]);
    }
}

#[test]
fn chisel_splits_a_die() {
    let st = initial_state();
    let d = Die::from_pips(5).unwrap();
    let r = Chisel.cast_spell(&st, d);
    // One die at face 4 and one at face 1.
    assert_eq!(r.dice[3], st.dice[3] + 1);
    assert_eq!(r.dice[0], st.dice[0] + 1);
    for i in [1usize, 2, 4, 5] {
        assert_eq!(r.dice[i], st.dice[i]);
    }
}

#[test]
fn chisel_on_a_two_credits_face_one_twice() {
    let st = initial_state();
    let d = Die::from_pips(2).unwrap();
    let r = Chisel.cast_spell(&st, d);
    assert_eq!(r.dice[0], st.dice[0] + 2);
}

#[test]
fn chisel_with_one_pip_is_never_generated() {
    let st = initial_state();
    // Chisel sits at face 4 (index 3).
    let prep = Action::Prep { spell: Die::from_pips(4).unwrap(), slot: 0 };
    let st = apply_action(&st, prep).unwrap();
    let one = Die::from_pips(1).unwrap();
    for act in all_actions(&st) {
        if let Action::Cast1 { slot, die } = act {
            assert!(!(slot == 0 && die.pips() == 1));
        }
    }
    let bad = Action::Cast1 { slot: 0, die: one };
    assert!(matches!(apply_action(&st, bad), Err(RuleError::NotUsable)));
}

#[test]
fn scythe_scenario_deals_ten_damage_once() {
    let st = initial_state();
    assert_eq!(st.enemy_hp, 105);
    let prep = Action::Prep { spell: Die::from_pips(1).unwrap(), slot: 0 };
    let st = apply_action(&st, prep).unwrap();
    let cast = Action::Cast1 { slot: 0, die: Die::from_pips(2).unwrap() };
    let st = apply_action(&st, cast).unwrap();
    assert_eq!(st.enemy_hp, 95);
    // The slot's single use is spent.
    assert!(matches!(apply_action(&st, cast), Err(RuleError::NoUses)));
    // The cast die's face is consumed in the spellbook: preparing it fails.
    let prep2 = Action::Prep { spell: Die::from_pips(2).unwrap(), slot: 1 };
    assert!(matches!(apply_action(&st, prep2), Err(RuleError::FaceConsumed)));
}

#[test]
fn scythe_consumed_face_is_not_usable_again() {
    let st = initial_state();
    let st = apply_action(&st, Action::Prep { spell: Die::from_pips(1).unwrap(), slot: 0 })
        .unwrap();
    let st = apply_action(&st, Action::Cast1 { slot: 0, die: Die::from_pips(2).unwrap() })
        .unwrap();
    // Prepare another scythe (face 3) and try to cast it with the consumed
    // face's die: the scythe's usability test must refuse.
    let mut st2 = st;
    st2.dice[1] = 1;
    st2.dice[2] = 1;
    let st2 = apply_action(&st2, Action::Prep { spell: Die::from_pips(3).unwrap(), slot: 1 })
        .unwrap();
    let again = Action::Cast1 { slot: 1, die: Die::from_pips(2).unwrap() };
    assert!(matches!(apply_action(&st2, again), Err(RuleError::NotUsable)));
}

#[test]
fn scythe_health_saturates_at_zero() {
    let mut st = initial_state();
    st.enemy_hp = 10;
    let two = Die::from_pips(2).unwrap();
    let r = HarvestScythe.cast_spell(&st, two);
    assert_eq!(r.enemy_hp, 0);
    let mut st = initial_state();
    st.enemy_hp = 5;
    let r = HarvestScythe.cast_spell(&st, two);
    assert_eq!(r.enemy_hp, 0);
}

#[test]
fn spellbook_consume_sets_one_bit_only_once() {
    let st = initial_state();
    let five = Die::from_pips(5).unwrap();
    let book = st.spellbook.consume(five).unwrap();
    assert!(book.consumed.contains(4));
    assert!(!book.consumed.contains(0));
    assert!(book.consume(five).is_none());
}

#[test]
fn spell_names_and_uses() {
    let st = initial_state();
    assert_eq!(st.spellbook.spells[0].spell_name(), "Harvest Scythe");
    assert_eq!(st.spellbook.spells[1].spell_name(), "Vise Grip");
    assert_eq!(st.spellbook.spells[3].spell_name(), "Chisel");
    assert_eq!(st.spellbook.spells[5].spell_name(), "DoppelTwice");
    assert_eq!(st.spellbook.spells[0].initial_uses(), 1);
    assert_eq!(st.spellbook.spells[1].initial_uses(), 1);
    assert_eq!(st.spellbook.spells[3].initial_uses(), 2);
    assert_eq!(st.spellbook.spells[5].initial_uses(), 2);
    assert_eq!(HarvestScythe.name(), "Harvest Scythe");
    assert_eq!(ViseGrip.name(), "Vise Grip");
    assert_eq!(Chisel.name(), "Chisel");
    assert_eq!(DoppelTwice.name(), "DoppelTwice");
}

#[test]
fn prep_spends_a_die_and_fills_the_slot() {
    let st = initial_state();
    let r = apply_action(&st, Action::Prep { spell: Die::from_pips(6).unwrap(), slot: 0 })
        .unwrap();
    assert_eq!(r.dice[5], 0);
    assert_eq!(r.board[0].uses, 2); // DoppelTwice starts with two uses.
    assert_eq!(r.board[0].spell.unwrap().pips(), 6);
}

#[test]
fn error_bad_slot() {
    let st = initial_state();
    let act = Action::Prep { spell: Die::from_pips(1).unwrap(), slot: 9 };
    assert!(matches!(apply_action(&st, act), Err(RuleError::BadSlot)));
    let act = Action::Cast1 { slot: 4, die: Die::from_pips(1).unwrap() };
    assert!(matches!(apply_action(&st, act), Err(RuleError::BadSlot)));
}

#[test]
fn error_no_uses_on_idle_slot() {
    let st = initial_state();
    let act = Action::Cast1 { slot: 0, die: Die::from_pips(1).unwrap() };
    assert!(matches!(apply_action(&st, act), Err(RuleError::NoUses)));
}

#[test]
fn error_empty_slot() {
    let mut st = initial_state();
    st.board[2] = SpellSlot { spell: None, uses: 1 };
    let act = Action::Cast1 { slot: 2, die: Die::from_pips(1).unwrap() };
    assert!(matches!(apply_action(&st, act), Err(RuleError::EmptySlot)));
}

#[test]
fn error_arity_mismatch_both_ways() {
    let st = initial_state();
    // Face 1 is a scythe (single-die), face 2 the vise grip (double-die).
    let st = apply_action(&st, Action::Prep { spell: Die::from_pips(1).unwrap(), slot: 0 })
        .unwrap();
    let st = apply_action(&st, Action::Prep { spell: Die::from_pips(2).unwrap(), slot: 1 })
        .unwrap();
    let three = Die::from_pips(3).unwrap();
    let four = Die::from_pips(4).unwrap();
    let c2 = Action::Cast2 { slot: 0, d1: three, d2: four };
    assert!(matches!(apply_action(&st, c2), Err(RuleError::ArityMismatch)));
    let c1 = Action::Cast1 { slot: 1, die: three };
    assert!(matches!(apply_action(&st, c1), Err(RuleError::ArityMismatch)));
}

#[test]
fn error_missing_die() {
    let st = initial_state();
    let st = apply_action(&st, Action::Prep { spell: Die::from_pips(1).unwrap(), slot: 0 })
        .unwrap();
    // The face-1 die went into the prep, so casting with it lacks a die.
    let act = Action::Cast1 { slot: 0, die: Die::from_pips(1).unwrap() };
    assert!(matches!(apply_action(&st, act), Err(RuleError::MissingDie)));
}

#[test]
fn error_missing_die_for_a_pair() {
    let st = initial_state();
    let st = apply_action(&st, Action::Prep { spell: Die::from_pips(2).unwrap(), slot: 0 })
        .unwrap();
    // Only one die of face 3 exists, so a double-three cannot be paid.
    let three = Die::from_pips(3).unwrap();
    let act = Action::Cast2 { slot: 0, d1: three, d2: three };
    assert!(matches!(apply_action(&st, act), Err(RuleError::MissingDie)));
}

#[test]
fn pass_changes_nothing() {
    let st = initial_state();
    let r = apply_action(&st, Action::Pass).unwrap();
    assert_eq!(r.dice, st.dice);
    assert_eq!(r.enemy_hp, st.enemy_hp);
}

#[test]
fn generator_preps_only_the_first_idle_slot() {
    let st = initial_state();
    for act in all_actions(&st) {
        if let Action::Prep { slot, .. } = act {
            assert_eq!(slot, 0);
        }
    }
}

#[test]
fn generator_pass_is_always_offered() {
    let st = initial_state();
    assert!(all_actions(&st).iter().any(|a| matches!(a, Action::Pass)));
}

#[test]
fn dice_counts_saturate_at_the_ceiling() {
    assert_eq!(bump(7, 3), 10);
    assert_eq!(bump(u64::MAX - 3, 3), u64::MAX);
    assert_eq!(bump(u64::MAX - 1, 3), u64::MAX);
    assert_eq!(bump(u64::MAX, 3), u64::MAX);
}

#[test]
fn spellbook_layout_matches_the_game() {
    let st = initial_state();
    assert_eq!(st.dice, [1, 1, 1, 1, 1, 1]);
    assert_eq!(st.enemy_hp, 105);
    for i in 0..4 {
        assert!(st.board[i].spell.is_none());
        assert_eq!(st.board[i].uses, 0);
    }
    for i in 0..6 {
        assert!(!st.spellbook.consumed.contains(i));
    }
    assert!(matches!(st.spellbook.spells[0], SpellRef::Spell1(_)));
    assert!(matches!(st.spellbook.spells[1], SpellRef::Spell2(_)));
}
