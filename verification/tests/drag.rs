use sweeten::widget::drag::{displacement, DragEvent, Goal};

#[test]
fn items_between_target_and_picked_move_forward_when_dragging_left() {
    let goals: Vec<Goal> = (0..5).map(|i| displacement(i, 3, 1)).collect();
    assert_eq!(
        goals,
        vec![Goal::Rest, Goal::Forward, Goal::Forward, Goal::Rest, Goal::Rest]
    );
}

#[test]
fn items_between_picked_and_target_move_backward_when_dragging_right() {
    let goals: Vec<Goal> = (0..5).map(|i| displacement(i, 1, 3)).collect();
    assert_eq!(
        goals,
        vec![Goal::Rest, Goal::Rest, Goal::Backward, Goal::Backward, Goal::Rest]
    );
}

#[test]
fn dropping_in_place_moves_nothing() {
    for i in 0..4 {
        assert_eq!(displacement(i, 2, 2), Goal::Rest);
    }
}

#[test]
fn dragging_to_the_first_slot_moves_all_earlier_items() {
    let goals: Vec<Goal> = (0..4).map(|i| displacement(i, 3, 0)).collect();
    assert_eq!(goals, vec![Goal::Forward, Goal::Forward, Goal::Forward, Goal::Rest]);
}

#[test]
fn preview_matches_the_reorder_of_a_list() {
    // Moving the item at 1 to 3 in [a, b, c, d, e] gives [a, c, d, b, e]:
    // each item lands where the preview puts it.
    let items = ["a", "b", "c", "d", "e"];
    let mut moved: Vec<&str> = items.to_vec();
    let picked = moved.remove(1);
    moved.insert(3, picked);
    for (i, item) in items.iter().enumerate() {
        let landing = if i == 1 {
            3
        } else {
            match displacement(i, 1, 3) {
                Goal::Forward => i + 1,
                Goal::Backward => i - 1,
                _ => i,
            }
        };
        assert_eq!(moved[landing], *item);
    }
}

#[test]
fn drag_events_compare_by_their_fields() {
    assert_eq!(
        DragEvent::Dropped { index: 1, target_index: 2 },
        DragEvent::Dropped { index: 1, target_index: 2 }
    );
    assert_ne!(DragEvent::Picked { index: 1 }, DragEvent::Canceled { index: 1 });
}
