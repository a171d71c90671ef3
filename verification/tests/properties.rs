use adventurers_quest::{
    Block, OrderedQuest, Quest, QuestExt, QuestStatus, QuestSystem, SubMemQuest, SubQuest,
};

#[test]
fn counter_complete_is_monotonic() {
    let mut quest = SubQuest::new(Block::Sand, 2, "Walk on Sand twice".to_string());
    assert_eq!(quest.register_event(&Block::Sand), QuestStatus::Ongoing);
    assert_eq!(quest.register_event(&Block::Sand), QuestStatus::Complete);
    let done = quest.render();
    assert_eq!(quest.register_event(&Block::Sand), QuestStatus::Complete);
    assert_eq!(quest.register_event(&Block::Grass), QuestStatus::Complete);
    assert_eq!(quest.get_status(), QuestStatus::Complete);
    assert_eq!(quest.render(), done);
}

#[test]
fn counter_never_overshoots() {
    let mut quest = SubQuest::new(Block::Sand, 3, "Walk on Sand".to_string());
    for _ in 0..10 {
        quest.register_event(&Block::Sand);
    }
    assert_eq!(
        "[✅] Walk on Sand...\n ^ (Complete 0 more times)",
        quest.render()
    );
}

#[test]
fn run_interruption_discards_partial_progress() {
    let mut quest = SubMemQuest::new(Block::Water, 5, 3, "Stay underwater".to_string());
    for _ in 0..4 {
        quest.register_event(&Block::Water);
    }
    quest.register_event(&Block::Sand);
    quest.register_event(&Block::Water);
    assert_eq!(
        "[ ] Stay underwater...\n ^ (Complete 3 more times)",
        quest.render()
    );
    assert_eq!(quest.get_status(), QuestStatus::Ongoing);
}

#[test]
fn run_exact_completion() {
    let mut quest = SubMemQuest::new(Block::Water, 4, 2, "Stay underwater".to_string());
    for _ in 0..4 {
        quest.register_event(&Block::Water);
    }
    assert_eq!(
        "[ ] Stay underwater...\n ^ (Complete 1 more times)",
        quest.render()
    );
    for _ in 0..4 {
        quest.register_event(&Block::Water);
    }
    assert_eq!(quest.get_status(), QuestStatus::Complete);
    for _ in 0..4 {
        quest.register_event(&Block::Water);
    }
    assert_eq!(
        "[✅] Stay underwater...\n ^ (Complete 0 more times)",
        quest.render()
    );
}

#[test]
fn sequence_gates_later_children() {
    let first = SubQuest::new(Block::Grass, 5, "Walk on Grass 5 times".to_string());
    let second = SubQuest::new(Block::Sand, 1, "Walk on Sand".to_string());
    let mut ordered = OrderedQuest::new(vec![first, second]);
    for _ in 0..3 {
        ordered.register_event(&Block::Sand);
    }
    assert_eq!(
        "[ ] You must, in order, complete each of these quests:...\n  [ ] Walk on Grass 5 times...\n   ^ (Complete 5 more times)\n  [ ] Walk on Sand...\n",
        ordered.render()
    );
    for _ in 0..5 {
        ordered.register_event(&Block::Grass);
    }
    assert_eq!(ordered.get_status(), QuestStatus::Ongoing);
    assert_eq!(ordered.register_event(&Block::Sand), QuestStatus::Complete);
}

#[test]
fn threshold_two_of_three_any_order() {
    let a = SubQuest::new(Block::Grass, 1, "Walk on Grass".to_string());
    let b = SubQuest::new(Block::Sand, 1, "Walk on Sand".to_string());
    let c = SubQuest::new(Block::Water, 1, "Walk on Water".to_string());
    let mut system = QuestSystem::new(vec![], vec![a, b, c], vec![], 2);
    assert_eq!(system.register_event(&Block::Water), QuestStatus::Ongoing);
    assert_eq!(system.register_event(&Block::Grass), QuestStatus::Complete);
    assert_eq!(system.get_status(), QuestStatus::Complete);
    assert_eq!(system.register_event(&Block::Rock), QuestStatus::Complete);
}

#[test]
fn render_shape_depends_on_target_count() {
    let single = SubQuest::new(Block::Sand, 1, "Walk on Sand".to_string());
    assert_eq!("[ ] Walk on Sand...", single.render());
    assert!(!single.render().contains('\n'));
    let double = SubQuest::new(Block::Sand, 2, "Walk on Sand".to_string());
    assert_eq!(
        "[ ] Walk on Sand...\n ^ (Complete 2 more times)",
        double.render()
    );
    assert_eq!(double.render().matches('\n').count(), 1);
}

#[test]
fn reset_twice_is_reset_once() {
    let first = SubQuest::new(Block::Grass, 2, "Walk on Grass twice".to_string());
    let second = SubQuest::new(Block::Sand, 1, "Walk on Sand".to_string());
    let ordered = OrderedQuest::new(vec![first, second]);
    let run = SubMemQuest::new(Block::Water, 3, 2, "Stay underwater".to_string());
    let mut system = QuestSystem::new(vec![ordered], vec![], vec![run], 2);
    let fresh = system.render();
    for event in [Block::Grass, Block::Grass, Block::Sand, Block::Water, Block::Water] {
        system.register_event(&event);
    }
    assert_ne!(system.render(), fresh);
    system.reset();
    let once = system.render();
    assert_eq!(once, fresh);
    system.reset();
    assert_eq!(system.render(), once);
    assert_eq!(system.get_status(), QuestStatus::Ongoing);
}

#[test]
fn reset_cascades_into_every_collection() {
    let counter = SubQuest::new(Block::Grass, 2, "Walk on Grass twice".to_string());
    let run = SubMemQuest::new(Block::Water, 2, 2, "Stay underwater".to_string());
    let mut system = QuestSystem::new(vec![], vec![counter], vec![run], 2);
    for event in [Block::Grass, Block::Water, Block::Water] {
        system.register_event(&event);
    }
    system.reset();
    assert_eq!(
        "[ ] You must complete at least 2 of these quests...\n  [ ] Walk on Grass twice...\n   ^ (Complete 2 more times)\n  [ ] Stay underwater...\n   ^ (Complete 2 more times)\n",
        system.render()
    );
}

#[test]
fn zero_target_counter_is_immediately_complete() {
    let mut quest = SubQuest::new(Block::Sand, 0, "Do nothing".to_string());
    assert_eq!(quest.get_status(), QuestStatus::Complete);
    assert_eq!(quest.register_event(&Block::Sand), QuestStatus::Complete);
}

#[test]
fn empty_sequence_is_immediately_complete() {
    let mut ordered: OrderedQuest<Block> = OrderedQuest::new(vec![]);
    assert_eq!(ordered.get_status(), QuestStatus::Complete);
    assert_eq!(ordered.register_event(&Block::Sand), QuestStatus::Complete);
}

#[test]
fn threshold_prompt_renders_multi_digit_targets() {
    let system: QuestSystem<Block> = QuestSystem::new(vec![], vec![], vec![], 12);
    assert_eq!(
        "[ ] You must complete at least 12 of these quests...\n",
        system.render()
    );
}

#[test]
fn sign_events_compare_by_text() {
    let mut quest = SubQuest::new(
        Block::Sign("hello".to_string()),
        2,
        "Read the hello sign twice".to_string(),
    );
    assert_eq!(
        quest.register_event(&Block::Sign("goodbye".to_string())),
        QuestStatus::Ongoing
    );
    assert_eq!(
        quest.register_event(&Block::Sign("hello".to_string())),
        QuestStatus::Ongoing
    );
    assert_eq!(
        quest.register_event(&Block::Sign("hello".to_string())),
        QuestStatus::Complete
    );
}

#[test]
fn object_events_compare_by_character() {
    let mut quest = SubQuest::new(Block::Object('x'), 1, "Collect a 'x'".to_string());
    assert_eq!(quest.register_event(&Block::Object('y')), QuestStatus::Ongoing);
    assert_eq!(quest.register_event(&Block::Object('x')), QuestStatus::Complete);
}

#[test]
fn quests_work_through_trait_objects() {
    let mut quest: Box<dyn QuestExt<Block>> =
        Box::new(SubQuest::new(Block::Sand, 2, "Walk on Sand twice".to_string()));
    assert_eq!(quest.register_event(&Block::Sand), QuestStatus::Ongoing);
    assert_eq!(quest.get_status(), QuestStatus::Ongoing);
    assert_eq!(quest.register_event(&Block::Sand), QuestStatus::Complete);
    assert_eq!(
        "[✅] Walk on Sand twice...\n ^ (Complete 0 more times)",
        quest.render()
    );
    quest.reset();
    assert_eq!(quest.get_status(), QuestStatus::Ongoing);
    assert_eq!(
        "[ ] Walk on Sand twice...\n ^ (Complete 2 more times)",
        quest.render()
    );
}
