use reratui::component::{generate_stable_component_id, reset_component_position_counter, PositionCounter};
use std::any::TypeId;
use std::collections::hash_map::DefaultHasher;
use std::hash::{Hash, Hasher};

struct TestComponent;
struct AnotherComponent;

fn type_key<C: 'static>() -> u64 {
    let mut hasher = DefaultHasher::new();
    TypeId::of::<C>().hash(&mut hasher);
    hasher.finish()
}

#[test]
fn test_position_counter_reset() {
    let mut counter = PositionCounter::new();
    reset_component_position_counter(&mut counter);

    let id1 = generate_stable_component_id(&mut counter, type_key::<TestComponent>());
    let id2 = generate_stable_component_id(&mut counter, type_key::<TestComponent>());

    assert_ne!(id1, id2);

    reset_component_position_counter(&mut counter);

    let id1_again = generate_stable_component_id(&mut counter, type_key::<TestComponent>());
    let id2_again = generate_stable_component_id(&mut counter, type_key::<TestComponent>());

    assert_eq!(id1, id1_again, "Same type at same position should have same ID");
    assert_eq!(id2, id2_again, "Same type at same position should have same ID");
}

#[test]
fn test_different_types_different_ids() {
    let mut counter = PositionCounter::new();
    reset_component_position_counter(&mut counter);

    let id1 = generate_stable_component_id(&mut counter, type_key::<TestComponent>());

    reset_component_position_counter(&mut counter);

    let id2 = generate_stable_component_id(&mut counter, type_key::<AnotherComponent>());

    assert_ne!(id1, id2);
}

#[test]
fn test_same_type_different_positions() {
    let mut counter = PositionCounter::new();
    reset_component_position_counter(&mut counter);

    let id1 = generate_stable_component_id(&mut counter, type_key::<TestComponent>());
    let id2 = generate_stable_component_id(&mut counter, type_key::<TestComponent>());
    let id3 = generate_stable_component_id(&mut counter, type_key::<TestComponent>());

    assert_ne!(id1, id2);
    assert_ne!(id2, id3);
    assert_ne!(id1, id3);
}

#[test]
fn test_simulated_render_frames() {
    let mut counter = PositionCounter::new();
    let mut ids_per_frame: Vec<Vec<u64>> = Vec::new();

    for _ in 0..5 {
        reset_component_position_counter(&mut counter);

        let id1 = generate_stable_component_id(&mut counter, type_key::<TestComponent>());
        let id2 = generate_stable_component_id(&mut counter, type_key::<AnotherComponent>());

        ids_per_frame.push(vec![id1, id2]);
    }

    for i in 1..ids_per_frame.len() {
        assert_eq!(
            ids_per_frame[0], ids_per_frame[i],
            "Component IDs should be stable across render frames"
        );
    }
}

#[test]
fn position_counter_moves_by_one() {
    let mut counter = PositionCounter::new();
    generate_stable_component_id(&mut counter, 7);
    generate_stable_component_id(&mut counter, 7);
    assert_eq!(counter.next, 2);
    reset_component_position_counter(&mut counter);
    assert_eq!(counter.next, 0);
}
