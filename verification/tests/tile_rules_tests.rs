use toki_core::rules::{ProgressCommand, RuleAction, RuleCommand, RuleEngine, RuleTarget};
use std::collections::HashMap;
use toki_core::tile_rules::{
    entity_tile, Rule, RuleTrigger, TileEntity, TileRuleRuntime,
    TileTransitionEvent,
};

fn rule(id: &str, priority: i32, once: bool, trigger: RuleTrigger, slot: u8) -> Rule {
    Rule {
        id: id.to_string(),
        enabled: true,
        once,
        priority,
        trigger,
        actions: vec![RuleAction::SaveGame { slot }],
    }
}

fn enter(entity_id: u32, tile_x: u32, tile_y: u32) -> TileTransitionEvent {
    TileTransitionEvent { entity_id, tile_x, tile_y, is_enter: true }
}

fn slots(commands: &[RuleCommand]) -> Vec<u8> {
    commands
        .iter()
        .map(|c| match c {
            RuleCommand::Progress(ProgressCommand::SaveGame { slot }) => *slot,
            other => panic!("unexpected command {other:?}"),
        })
        .collect()
}

fn run(
    runtime: &mut TileRuleRuntime,
    rules: &Vec<Rule>,
    map_size: [u32; 2],
    passes: Vec<Vec<bool>>,
) -> Vec<RuleCommand> {
    let engine = RuleEngine { player_id: Some(1) };
    let mut commands = Vec::new();
    runtime.collect_rule_commands_for_tile_transitions(&engine, rules, map_size, &passes, &mut commands);
    commands
}

#[test]
fn rules_run_by_priority_then_id() {
    let tile = RuleTrigger::OnTileEnter { x: 3, y: 4 };
    let mut disabled = rule("disabled", 100, false, tile, 9);
    disabled.enabled = false;
    let rules = vec![
        rule("b", 1, false, tile, 2),
        rule("z", 5, false, tile, 1),
        rule("a", 1, false, tile, 3),
        disabled,
        rule("exit", 50, false, RuleTrigger::OnTileExit { x: 3, y: 4 }, 8),
        rule("elsewhere", 50, false, RuleTrigger::OnTileEnter { x: 4, y: 3 }, 7),
    ];
    let mut runtime = TileRuleRuntime {
        fired_once_rules: Vec::new(),
        entity_tile_positions: HashMap::new(),
        frame_tile_transitions: vec![enter(9, 3, 4)],
    };
    let commands = run(&mut runtime, &rules, [10, 10], vec![vec![true; 6]]);
    assert_eq!(slots(&commands), vec![1, 3, 2]);
    assert!(runtime.frame_tile_transitions.is_empty());
}

#[test]
fn equal_priorities_run_in_id_order_with_capitals_first() {
    let tile = RuleTrigger::OnTileEnter { x: 0, y: 0 };
    let rules = vec![
        rule("ab", 0, false, tile, 1),
        rule("a", 0, false, tile, 2),
        rule("B", 0, false, tile, 3),
        rule("a", 0, false, tile, 4),
    ];
    let mut runtime = TileRuleRuntime {
        fired_once_rules: Vec::new(),
        entity_tile_positions: HashMap::new(),
        frame_tile_transitions: vec![enter(1, 0, 0)],
    };
    assert_eq!(slots(&run(&mut runtime, &rules, [1, 1], vec![vec![true; 4]])), vec![3, 2, 4, 1]);
}

#[test]
fn exit_transitions_fire_exit_rules() {
    let rules = vec![
        rule("enter", 0, false, RuleTrigger::OnTileEnter { x: 1, y: 1 }, 1),
        rule("exit", 0, false, RuleTrigger::OnTileExit { x: 1, y: 1 }, 2),
    ];
    let mut runtime = TileRuleRuntime {
        fired_once_rules: Vec::new(),
        entity_tile_positions: HashMap::new(),
        frame_tile_transitions: vec![TileTransitionEvent { entity_id: 4, tile_x: 1, tile_y: 1, is_enter: false }],
    };
    assert_eq!(slots(&run(&mut runtime, &rules, [5, 5], vec![vec![true, true]])), vec![2]);
}

#[test]
fn once_rules_fire_once_and_are_recorded() {
    let tile = RuleTrigger::OnTileEnter { x: 0, y: 0 };
    let rules = vec![rule("welcome", 0, true, tile, 1), rule("step", 0, false, tile, 2)];
    let mut runtime = TileRuleRuntime {
        fired_once_rules: Vec::new(),
        entity_tile_positions: HashMap::new(),
        frame_tile_transitions: vec![enter(1, 0, 0), enter(2, 0, 0)],
    };
    let commands = run(&mut runtime, &rules, [4, 4], vec![vec![true, true], vec![true, true]]);
    assert_eq!(slots(&commands), vec![2, 1, 2]);
    assert_eq!(runtime.fired_once_rules, vec!["welcome".to_string()]);

    runtime.frame_tile_transitions = vec![enter(3, 0, 0)];
    let commands = run(&mut runtime, &rules, [4, 4], vec![vec![true, true]]);
    assert_eq!(slots(&commands), vec![2]);
}

#[test]
fn rules_outside_the_map_or_failing_conditions_are_skipped() {
    let rules = vec![
        rule("outside", 0, true, RuleTrigger::OnTileEnter { x: 8, y: 0 }, 1),
        rule("guarded", 0, true, RuleTrigger::OnTileEnter { x: 1, y: 1 }, 2),
    ];
    let mut runtime = TileRuleRuntime {
        fired_once_rules: Vec::new(),
        entity_tile_positions: HashMap::new(),
        frame_tile_transitions: vec![enter(1, 8, 0), enter(1, 1, 1)],
    };
    let commands = run(&mut runtime, &rules, [8, 8], vec![vec![true, true], vec![true, false]]);
    assert!(commands.is_empty());
    assert!(runtime.fired_once_rules.is_empty());
}

#[test]
fn actions_see_the_transitioning_entity_as_trigger_self() {
    let tile = RuleTrigger::OnTileEnter { x: 2, y: 2 };
    let rules = vec![Rule {
        id: "trap".to_string(),
        enabled: true,
        once: false,
        priority: 0,
        trigger: tile,
        actions: vec![RuleAction::DestroySelf { target: RuleTarget::TriggerSelf }],
    }];
    let mut runtime = TileRuleRuntime {
        fired_once_rules: Vec::new(),
        entity_tile_positions: HashMap::new(),
        frame_tile_transitions: vec![enter(42, 2, 2)],
    };
    let commands = run(&mut runtime, &rules, [4, 4], vec![vec![true]]);
    assert_eq!(commands.len(), 1);
    assert!(matches!(
        commands[0],
        RuleCommand::Entity(toki_core::rules::EntityCommand::DestroySelf { entity_id: 42 })
    ));
}

fn placed(entity_id: u32, x: i32, y: i32) -> TileEntity {
    TileEntity { entity_id, position: [x, y], size: [16, 16] }
}

fn empty_runtime() -> TileRuleRuntime {
    TileRuleRuntime {
        fired_once_rules: Vec::new(),
        frame_tile_transitions: Vec::new(),
        entity_tile_positions: HashMap::new(),
    }
}

#[test]
fn entity_tile_is_the_tile_under_its_centre_clamped_to_the_map() {
    assert_eq!(entity_tile(&placed(1, 0, 0), [16, 16], [10, 10]), (0, 0));
    assert_eq!(entity_tile(&placed(1, 8, 24), [16, 16], [10, 10]), (1, 2));
    assert_eq!(entity_tile(&placed(1, -40, -40), [16, 16], [10, 10]), (0, 0));
    assert_eq!(entity_tile(&placed(1, 1000, 40), [16, 16], [10, 10]), (9, 3));
    assert_eq!(entity_tile(&placed(1, 1000, 40), [16, 16], [0, 0]), (0, 0));
    let huge = TileEntity { entity_id: 1, position: [100, 100], size: [u32::MAX, 2] };
    assert_eq!(entity_tile(&huge, [16, 16], [100, 100]), (6, 6));
}

#[test]
fn first_sighting_records_the_tile_without_transitions() {
    let mut runtime = empty_runtime();
    runtime.detect_tile_transitions(&vec![placed(1, 0, 0)], [16, 16], [10, 10]);
    assert!(runtime.frame_tile_transitions.is_empty());
    assert_eq!(runtime.entity_tile_positions.get(&1), Some(&(0, 0)));
}

#[test]
fn moving_to_another_tile_exits_then_enters() {
    let mut runtime = empty_runtime();
    runtime.detect_tile_transitions(&vec![placed(1, 0, 0), placed(2, 40, 40)], [16, 16], [10, 10]);
    runtime.detect_tile_transitions(&vec![placed(1, 20, 0), placed(2, 41, 40)], [16, 16], [10, 10]);
    assert_eq!(
        runtime.frame_tile_transitions,
        vec![
            TileTransitionEvent { entity_id: 1, tile_x: 0, tile_y: 0, is_enter: false },
            TileTransitionEvent { entity_id: 1, tile_x: 1, tile_y: 0, is_enter: true },
        ]
    );
    assert_eq!(runtime.entity_tile_positions.get(&1), Some(&(1, 0)));
    assert_eq!(runtime.entity_tile_positions.get(&2), Some(&(3, 3)));
}

#[test]
fn tiles_without_area_detect_nothing() {
    let mut runtime = empty_runtime();
    runtime.detect_tile_transitions(&vec![placed(1, 0, 0)], [0, 16], [10, 10]);
    assert!(runtime.entity_tile_positions.is_empty());
    assert!(runtime.frame_tile_transitions.is_empty());
}

#[test]
fn detected_transitions_fire_tile_rules() {
    let rules = vec![rule("door", 0, false, RuleTrigger::OnTileEnter { x: 1, y: 0 }, 5)];
    let mut runtime = empty_runtime();
    runtime.detect_tile_transitions(&vec![placed(1, 0, 0)], [16, 16], [10, 10]);
    runtime.detect_tile_transitions(&vec![placed(1, 20, 0)], [16, 16], [10, 10]);
    let commands = run(&mut runtime, &rules, [10, 10], vec![vec![true], vec![true]]);
    assert_eq!(slots(&commands), vec![5]);
    assert!(runtime.frame_tile_transitions.is_empty());
}
