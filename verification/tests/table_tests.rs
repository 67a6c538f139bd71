use tf_remap::{FramePair, RemapRule, RemapTable};

fn rule(old_parent: &str, old_child: &str, new_parent: &str, new_child: &str) -> RemapRule {
    RemapRule {
        old_parent: old_parent.to_string(),
        old_child: old_child.to_string(),
        new_parent: new_parent.to_string(),
        new_child: new_child.to_string(),
    }
}

fn pair(parent: &str, child: &str) -> FramePair {
    FramePair { parent: parent.to_string(), child: child.to_string() }
}

#[test]
fn lookup_returns_each_configured_pair() {
    let rules = vec![
        rule("base", "laser", "robot_base", "lidar"),
        rule("base", "camera", "robot_base", "rgb"),
        rule("map", "odom", "world", "odometry"),
    ];
    let table = RemapTable::build(&rules);
    assert_eq!(table.lookup("base", "laser"), Some(&pair("robot_base", "lidar")));
    assert_eq!(table.lookup("base", "camera"), Some(&pair("robot_base", "rgb")));
    assert_eq!(table.lookup("map", "odom"), Some(&pair("world", "odometry")));
}

#[test]
fn lookup_returns_nothing_for_a_pair_that_is_not_configured() {
    let rules = vec![
        rule("base", "laser", "robot_base", "lidar"),
        rule("map", "odom", "world", "odometry"),
    ];
    let table = RemapTable::build(&rules);
    assert_eq!(table.lookup("base", "camera"), None);
    assert_eq!(table.lookup("odom", "base"), None);
    assert_eq!(table.lookup("map", "laser"), None);
    assert_eq!(table.lookup("base", "odom"), None);
}

#[test]
fn later_rule_wins_for_a_duplicate_pair() {
    let rules = vec![
        rule("base", "laser", "first_parent", "first_child"),
        rule("map", "odom", "world", "odometry"),
        rule("base", "laser", "second_parent", "second_child"),
    ];
    let table = RemapTable::build(&rules);
    assert_eq!(table.lookup("base", "laser"), Some(&pair("second_parent", "second_child")));
    assert_eq!(table.lookup("map", "odom"), Some(&pair("world", "odometry")));
}

#[test]
fn later_rule_wins_when_duplicates_are_adjacent() {
    let rules = vec![
        rule("a", "b", "x1", "y1"),
        rule("a", "b", "x2", "y2"),
        rule("a", "b", "x3", "y3"),
    ];
    let table = RemapTable::build(&rules);
    assert_eq!(table.lookup("a", "b"), Some(&pair("x3", "y3")));
}

#[test]
fn empty_rule_list_gives_a_table_that_knows_nothing() {
    let table = RemapTable::build(&Vec::new());
    assert_eq!(table.lookup("base", "laser"), None);
    assert_eq!(table.lookup("", ""), None);
}

#[test]
fn lookup_matches_exactly() {
    let rules = vec![rule("base", "laser", "robot_base", "lidar")];
    let table = RemapTable::build(&rules);
    assert_eq!(table.lookup("base_link", "laser"), None);
    assert_eq!(table.lookup("bas", "laser"), None);
    assert_eq!(table.lookup("base", "laser_front"), None);
    assert_eq!(table.lookup("Base", "laser"), None);
    assert_eq!(table.lookup("base", "LASER"), None);
    assert_eq!(table.lookup("base ", "laser"), None);
    assert_eq!(table.lookup("/base", "laser"), None);
    assert_eq!(table.lookup("base", "laser"), Some(&pair("robot_base", "lidar")));
}

#[test]
fn lookup_tells_parent_from_child() {
    let rules = vec![rule("base", "laser", "robot_base", "lidar")];
    let table = RemapTable::build(&rules);
    assert_eq!(table.lookup("laser", "base"), None);
}

#[test]
fn lookup_does_not_mix_children_of_different_parents() {
    let rules = vec![
        rule("left", "tip", "arm_l", "tool_l"),
        rule("right", "tip", "arm_r", "tool_r"),
        rule("left", "elbow", "arm_l", "joint_l"),
    ];
    let table = RemapTable::build(&rules);
    assert_eq!(table.lookup("left", "tip"), Some(&pair("arm_l", "tool_l")));
    assert_eq!(table.lookup("right", "tip"), Some(&pair("arm_r", "tool_r")));
    assert_eq!(table.lookup("left", "elbow"), Some(&pair("arm_l", "joint_l")));
    assert_eq!(table.lookup("right", "elbow"), None);
}

#[test]
fn lookup_does_not_split_a_pair_at_another_place() {
    let rules = vec![rule("ab", "c", "x", "y")];
    let table = RemapTable::build(&rules);
    assert_eq!(table.lookup("a", "bc"), None);
    assert_eq!(table.lookup("abc", ""), None);
    assert_eq!(table.lookup("", "abc"), None);
    assert_eq!(table.lookup("ab", "c"), Some(&pair("x", "y")));
}

#[test]
fn lookup_is_not_chained_through_targets() {
    let rules = vec![rule("a", "b", "c", "d"), rule("c", "d", "e", "f")];
    let table = RemapTable::build(&rules);
    assert_eq!(table.lookup("a", "b"), Some(&pair("c", "d")));
    assert_eq!(table.lookup("c", "d"), Some(&pair("e", "f")));
    assert_eq!(table.lookup("e", "f"), None);
}

#[test]
fn lookup_handles_names_outside_ascii() {
    let rules = vec![rule("基座", "激光", "ロボット", "ライダー")];
    let table = RemapTable::build(&rules);
    assert_eq!(table.lookup("基座", "激光"), Some(&pair("ロボット", "ライダー")));
    assert_eq!(table.lookup("基座", "激"), None);
}

#[test]
fn two_rules_may_share_a_target() {
    let rules = vec![rule("a", "b", "x", "y"), rule("c", "d", "x", "y")];
    let table = RemapTable::build(&rules);
    assert_eq!(table.lookup("a", "b"), Some(&pair("x", "y")));
    assert_eq!(table.lookup("c", "d"), Some(&pair("x", "y")));
}

#[test]
fn many_rules_are_all_found() {
    let mut rules = Vec::new();
    for i in 0..200 {
        rules.push(rule(
            &format!("parent_{}", i % 10),
            &format!("child_{}", i),
            &format!("new_parent_{}", i),
            &format!("new_child_{}", i),
        ));
    }
    let table = RemapTable::build(&rules);
    for i in 0..200 {
        assert_eq!(
            table.lookup(&format!("parent_{}", i % 10), &format!("child_{}", i)),
            Some(&pair(&format!("new_parent_{}", i), &format!("new_child_{}", i)))
        );
    }
    assert_eq!(table.lookup("parent_0", "child_1"), None);
    assert_eq!(table.lookup("parent_3", "child_200"), None);
}

#[test]
fn building_leaves_the_rules_as_they_were() {
    let rules = vec![rule("base", "laser", "robot_base", "lidar")];
    let copy = rules.clone();
    let _table = RemapTable::build(&rules);
    assert_eq!(rules, copy);
}
