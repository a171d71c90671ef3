use adventurers_quest::{Block, OrderedQuest, QuestSystem, SubMemQuest, SubQuest};

#[test]
fn sub_quest1() {
    let test_quest = SubQuest::new(Block::Grass, 5, "Walk on Grass 5 times".to_string());
    assert_eq!(
        String::from("[ ] Walk on Grass 5 times...\n ^ (Complete 5 more times)"),
        test_quest.render()
    );
}

#[test]
fn sub_quest2() {
    let mut test_quest = SubQuest::new(Block::Grass, 5, "Walk on Grass 5 times".to_string());
    test_quest.register_event(&Block::Grass);
    assert_eq!(
        String::from("[ ] Walk on Grass 5 times...\n ^ (Complete 4 more times)"),
        test_quest.render()
    );
}

#[test]
fn sub_quest3() {
    let mut test_quest = SubQuest::new(Block::Grass, 5, "Walk on Grass 5 times".to_string());
    test_quest.register_event(&Block::Grass);
    test_quest.register_event(&Block::Grass);
    test_quest.register_event(&Block::Grass);
    test_quest.register_event(&Block::Grass);
    test_quest.register_event(&Block::Grass);
    assert_eq!(
        String::from("[✅] Walk on Grass 5 times...\n ^ (Complete 0 more times)"),
        test_quest.render()
    );
}

#[test]
fn sub_quest4() {
    let mut test_quest = SubQuest::new(Block::Grass, 5, "Walk on Grass 5 times".to_string());
    test_quest.register_event(&Block::Water);
    assert_eq!(
        String::from("[ ] Walk on Grass 5 times...\n ^ (Complete 5 more times)"),
        test_quest.render()
    );
}

#[test]
fn ordered1() {
    let test_quest1 = SubQuest::new(Block::Grass, 5, "Walk on Grass 5 times".to_string());
    let test_quest2 = SubQuest::new(Block::Sand, 1, "Walk on Sand".to_string());
    let mut ordered = OrderedQuest::new(vec![test_quest1, test_quest2]);
    ordered.register_event(&Block::Sand);
    assert_eq!(
        "[ ] You must, in order, complete each of these quests:...\n  [ ] Walk on Grass 5 times...\n   ^ (Complete 5 more times)\n  [ ] Walk on Sand...\n",
        ordered.render()
    );
}

#[test]
fn ordered2() {
    let test_quest1 = SubQuest::new(Block::Grass, 5, "Walk on Grass 5 times".to_string());
    let test_quest2 = SubQuest::new(Block::Sand, 1, "Walk on Sand".to_string());
    let mut ordered = OrderedQuest::new(vec![test_quest1, test_quest2]);
    for _ in 0..5 {
        ordered.register_event(&Block::Grass);
    }
    assert_eq!(
        "[ ] You must, in order, complete each of these quests:...\n  [✅] Walk on Grass 5 times...\n   ^ (Complete 0 more times)\n  [ ] Walk on Sand...\n",
        ordered.render()
    );
}

#[test]
fn ordered3() {
    let test_quest1 = SubQuest::new(Block::Grass, 5, "Walk on Grass 5 times".to_string());
    let test_quest2 = SubQuest::new(Block::Sand, 1, "Walk on Sand".to_string());
    let mut ordered = OrderedQuest::new(vec![test_quest1, test_quest2]);
    for _ in 0..5 {
        ordered.register_event(&Block::Grass);
    }
    ordered.register_event(&Block::Sand);
    assert_eq!(
        "[✅] You must, in order, complete each of these quests:...\n  [✅] Walk on Grass 5 times...\n   ^ (Complete 0 more times)\n  [✅] Walk on Sand...\n",
        ordered.render()
    );
}

#[test]
fn sub_mem_quest1() {
    let mut test_quest = SubMemQuest::new(
        Block::Water,
        5,
        3,
        "Walk over exactly 5 blocks of water".to_string(),
    );

    for _ in 0..4 {
        test_quest.register_event(&Block::Water);
    }
    test_quest.register_event(&Block::Sand);
    test_quest.register_event(&Block::Water);
    assert_eq!(
        "[ ] Walk over exactly 5 blocks of water...\n ^ (Complete 3 more times)",
        test_quest.render()
    );
}

#[test]
fn sub_mem_quest2() {
    let mut test_quest = SubMemQuest::new(
        Block::Water,
        5,
        3,
        "Walk over exactly 5 blocks of water".to_string(),
    );
    for _ in 0..5 {
        test_quest.register_event(&Block::Water);
    }
    assert_eq!(
        "[ ] Walk over exactly 5 blocks of water...\n ^ (Complete 2 more times)",
        test_quest.render()
    );
}

#[test]
fn sub_mem_quest3() {
    let mut test_quest = SubMemQuest::new(
        Block::Water,
        5,
        3,
        "Walk over exactly 5 blocks of water".to_string(),
    );
    for _ in 0..15 {
        test_quest.register_event(&Block::Water);
    }
    assert_eq!(
        "[✅] Walk over exactly 5 blocks of water...\n ^ (Complete 0 more times)",
        test_quest.render()
    );
}

#[test]
fn quest_sys() {
    let test_quest1 = SubQuest::new(Block::Grass, 5, "Walk on Grass 5 times".to_string());
    let test_quest2 = SubQuest::new(Block::Sand, 1, "Walk on Sand".to_string());
    let ordered1 = OrderedQuest::new(vec![test_quest1, test_quest2]);
    let test_quest3 = SubQuest::new(Block::Grass, 6, "Walk on Grass 6 times".to_string());
    let test_quest4 = SubQuest::new(Block::Sand, 1, "Walk on Sand".to_string());
    let ordered2 = OrderedQuest::new(vec![test_quest3, test_quest4]);
    let mem_quest = SubMemQuest::new(
        Block::Water,
        5,
        3,
        "Walk over exactly 5 blocks of water".to_string(),
    );
    let mut quest_sys = QuestSystem::new(vec![ordered1, ordered2], vec![], vec![mem_quest], 2);
    quest_sys.register_event(&Block::Sand);
    quest_sys.register_event(&Block::Grass);
    quest_sys.register_event(&Block::Grass);
    quest_sys.register_event(&Block::Grass);
    quest_sys.register_event(&Block::Grass);
    quest_sys.register_event(&Block::Grass);
    quest_sys.register_event(&Block::Sand);
    quest_sys.register_event(&Block::Barrier);
    quest_sys.register_event(&Block::Barrier);
    quest_sys.register_event(&Block::Water);
    quest_sys.register_event(&Block::Water);
    quest_sys.register_event(&Block::Water);
    quest_sys.register_event(&Block::Water);
    quest_sys.register_event(&Block::Water);
    quest_sys.register_event(&Block::Sand);
    quest_sys.register_event(&Block::Water);
    quest_sys.register_event(&Block::Water);
    quest_sys.register_event(&Block::Water);
    quest_sys.register_event(&Block::Water);
    quest_sys.register_event(&Block::Water);
    quest_sys.register_event(&Block::Water);
    quest_sys.register_event(&Block::Water);
    quest_sys.register_event(&Block::Water);
    quest_sys.register_event(&Block::Water);
    quest_sys.register_event(&Block::Water);
    assert_eq!("[✅] You must complete at least 2 of these quests...\n  [✅] You must, in order, complete each of these quests:...\n    [✅] Walk on Grass 5 times...\n     ^ (Complete 0 more times)\n    [✅] Walk on Sand...\n  \n  [ ] You must, in order, complete each of these quests:...\n    [ ] Walk on Grass 6 times...\n     ^ (Complete 1 more times)\n    [ ] Walk on Sand...\n  \n  [✅] Walk over exactly 5 blocks of water...\n   ^ (Complete 0 more times)\n", quest_sys.render());
}
