use sweeten::widget::drag::{DragEvent, Goal};
use sweeten::widget::row::{
    Alignment, Input, ItemAnimations, Length, Motion, Phase, Plan, Probe, Row, Sighting,
    SizeHint,
};

type TestRow = Row<&'static str, u8, f32>;

fn hint(width: Length<f32>, height: Length<f32>) -> SizeHint<f32> {
    SizeHint { width, height, is_void: false }
}

fn void_hint() -> SizeHint<f32> {
    SizeHint { width: Length::Fixed(0.0), height: Length::Shrink, is_void: true }
}

fn probe(reaches: Vec<bool>) -> Probe {
    Probe { before_start: false, reaches }
}

/// A probe for a cursor over the child at `slot` of a row of `n` children.
fn over(slot: usize, n: usize) -> Probe {
    probe((0..n).map(|i| i >= slot).collect())
}

fn draggable(n: usize) -> TestRow {
    let names = ["a", "b", "c", "d", "e", "f"];
    let mut row = TestRow::new().on_drag(7);
    for name in names.iter().take(n) {
        row = row.push(name, hint(Length::Shrink, Length::Shrink));
    }
    row
}

#[test]
fn new_row_is_empty_and_shrinks() {
    let row = TestRow::new();
    assert!(row.children().is_empty());
    let (width, height) = row.size();
    assert!(matches!(width, Length::Shrink));
    assert!(matches!(height, Length::Shrink));
    assert_eq!(row.alignment(), Alignment::Start);
    assert!(!row.is_clipped());
    assert!(row.drag_handler().is_none());
}

#[test]
fn with_capacity_and_default_phase() {
    let row = TestRow::with_capacity(8);
    assert!(row.children().is_empty());
    assert_eq!(Phase::default(), Phase::Idle);
}

#[test]
fn from_vec_keeps_children_without_inspecting_them() {
    let row = TestRow::from_vec(vec!["x", "y"]);
    assert_eq!(row.children(), &vec!["x", "y"]);
    assert!(matches!(row.size().0, Length::Shrink));
}

#[test]
fn builders_set_their_field() {
    let row = TestRow::new()
        .width(Length::Fixed(120.0))
        .height(Length::FillPortion(2))
        .align_y(Alignment::End)
        .clip(true)
        .on_drag(3);
    assert!(matches!(row.size().0, Length::Fixed(w) if *w == 120.0));
    assert!(matches!(row.size().1, Length::FillPortion(2)));
    assert_eq!(row.alignment(), Alignment::End);
    assert!(row.is_clipped());
    assert_eq!(row.drag_handler(), Some(&3));
}

#[test]
fn void_children_are_left_out() {
    let row = TestRow::new().push("ghost", void_hint());
    assert!(row.children().is_empty());
    assert!(matches!(row.size().0, Length::Shrink));
}

#[test]
fn shrinking_row_takes_a_filling_child_length() {
    let row = TestRow::new()
        .push("a", hint(Length::Fixed(10.0), Length::Shrink))
        .push("b", hint(Length::Fill, Length::FillPortion(3)));
    assert_eq!(row.children(), &vec!["a", "b"]);
    assert!(matches!(row.size().0, Length::Fill));
    assert!(matches!(row.size().1, Length::FillPortion(3)));
}

#[test]
fn filling_row_keeps_its_length() {
    let row = TestRow::new()
        .width(Length::Fill)
        .push("a", hint(Length::FillPortion(4), Length::Shrink));
    assert!(matches!(row.size().0, Length::Fill));
    let fixed = TestRow::new()
        .width(Length::Fixed(3.0))
        .push("a", hint(Length::Fill, Length::Shrink));
    assert!(matches!(fixed.size().0, Length::Fixed(_)));
}

#[test]
fn enclose_takes_filling_lengths_only_when_shrinking() {
    assert!(matches!(Length::<f32>::Shrink.enclose(Length::Fill), Length::Fill));
    assert!(matches!(Length::<f32>::Shrink.enclose(Length::Fixed(2.0)), Length::Shrink));
    assert!(matches!(Length::<f32>::Fill.enclose(Length::FillPortion(2)), Length::Fill));
    assert!(matches!(Length::<f32>::Fixed(1.0).enclose(Length::Fill), Length::Fixed(_)));
}

#[test]
fn push_maybe_pushes_only_some() {
    let row = TestRow::new()
        .push_maybe(None)
        .push_maybe(Some(("a", hint(Length::Shrink, Length::Shrink))));
    assert_eq!(row.children(), &vec!["a"]);
}

#[test]
fn extend_and_with_children_push_in_order() {
    let items = vec![
        ("a", hint(Length::Shrink, Length::Shrink)),
        ("void", void_hint()),
        ("b", hint(Length::Fill, Length::Shrink)),
    ];
    let row = TestRow::with_children(items);
    assert_eq!(row.children(), &vec!["a", "b"]);
    assert!(matches!(row.size().0, Length::Fill));
    let row = row.extend(vec![("c", hint(Length::Shrink, Length::Shrink))]);
    assert_eq!(row.children(), &vec!["a", "b", "c"]);
}

#[test]
fn children_mut_updates_in_place() {
    let mut row = TestRow::from_vec(vec!["a"]);
    row.children_mut().push("b");
    assert_eq!(row.children(), &vec!["a", "b"]);
}

#[test]
fn target_is_first_slot_before_the_row() {
    let row = draggable(3);
    let p = Probe { before_start: true, reaches: vec![true, true, true] };
    assert_eq!(row.compute_target_index(&p), 0);
}

#[test]
fn target_is_first_child_reached() {
    let row = draggable(4);
    assert_eq!(row.compute_target_index(&probe(vec![false, false, true, true])), 2);
    assert_eq!(row.compute_target_index(&probe(vec![true, true, true, true])), 0);
}

#[test]
fn target_past_every_child_is_the_last_slot() {
    let row = draggable(4);
    assert_eq!(row.compute_target_index(&probe(vec![false; 4])), 3);
    let empty = TestRow::new();
    assert_eq!(empty.compute_target_index(&probe(vec![])), 0);
}

#[test]
fn draw_target_stays_within_children() {
    let row = draggable(3);
    assert_eq!(row.draw_target(true, &probe(vec![false, true, true]), 0), 1);
    assert_eq!(row.draw_target(true, &probe(vec![false; 5]), 0), 2);
    assert_eq!(row.draw_target(false, &probe(vec![true; 3]), 2), 2);
}

#[test]
fn phase_tells_whether_dragging() {
    assert!(Phase::Dragging { index: 0 }.is_dragging());
    assert!(!Phase::Picking { index: 0 }.is_dragging());
    assert!(!Phase::Idle.is_dragging());
}

#[test]
fn animations_grow_but_never_shrink() {
    let mut animations = ItemAnimations::new();
    animations.with_capacity(3, || 0u32);
    assert_eq!(animations.offsets, vec![0, 0, 0]);
    animations.offsets[1] = 5;
    animations.with_capacity(2, || 9u32);
    assert_eq!(animations.offsets, vec![0, 5, 0]);
    animations.with_capacity(4, || 9u32);
    assert_eq!(animations.offsets, vec![0, 5, 0, 9]);
}

#[test]
fn plans_spell_one_motion_per_offset() {
    assert_eq!(Plan::Hold.spell(2), vec![Motion::Hold, Motion::Hold]);
    assert_eq!(Plan::Zero.spell(1), vec![Motion::Snap(Goal::Rest)]);
    assert_eq!(
        Plan::Drag { index: 0, target: 1 }.spell(3),
        vec![
            Motion::Go(Goal::Lifted),
            Motion::Go(Goal::Backward),
            Motion::Go(Goal::Rest)
        ]
    );
    assert_eq!(
        Plan::Drop { index: 2, target: 0 }.spell(3),
        vec![
            Motion::Go(Goal::Forward),
            Motion::Go(Goal::Forward),
            Motion::Snap(Goal::Rest)
        ]
    );
}

#[test]
fn press_over_a_child_picks_it() {
    let row = draggable(4);
    let r = row.react(Phase::Idle, &Input::Press { over: Some(over(1, 4)) }, 2, false);
    assert_eq!(r.phase, Phase::Picking { index: 1 });
    assert!(r.redraw && r.capture);
    assert_eq!(r.publish, None);
    assert_eq!(r.motions, vec![Motion::Snap(Goal::Rest); 2]);
}

#[test]
fn press_outside_or_without_handler_does_nothing() {
    let row = draggable(4);
    let r = row.react(Phase::Idle, &Input::Press { over: None }, 4, false);
    assert_eq!(r.phase, Phase::Idle);
    assert!(!r.redraw && !r.capture);
    let still = TestRow::from_vec(vec!["a", "b"]);
    let r = still.react(Phase::Idle, &Input::Press { over: Some(over(0, 2)) }, 2, false);
    assert_eq!(r.phase, Phase::Idle);
    assert_eq!(r.publish, None);
    assert_eq!(r.motions, vec![Motion::Hold; 2]);
}

#[test]
fn captured_events_change_nothing() {
    let row = draggable(3);
    let r = row.react(
        Phase::Dragging { index: 1 },
        &Input::Release { at: Some(over(2, 3)) },
        3,
        true,
    );
    assert_eq!(r.phase, Phase::Dragging { index: 1 });
    assert!(!r.redraw && !r.capture);
    assert_eq!(r.publish, None);
    assert_eq!(r.motions, vec![Motion::Hold; 3]);
}

#[test]
fn moving_within_the_deadband_keeps_picking() {
    let row = draggable(3);
    let input = Input::Move {
        cursor: Some(Sighting { probe: over(1, 3), beyond_deadband: false }),
    };
    let r = row.react(Phase::Picking { index: 1 }, &input, 3, false);
    assert_eq!(r.phase, Phase::Picking { index: 1 });
    assert!(!r.redraw && !r.capture);
    assert_eq!(r.publish, None);
}

#[test]
fn leaving_the_deadband_starts_the_drag() {
    let row = draggable(3);
    let input = Input::Move {
        cursor: Some(Sighting { probe: over(2, 3), beyond_deadband: true }),
    };
    let r = row.react(Phase::Picking { index: 1 }, &input, 3, false);
    assert_eq!(r.phase, Phase::Dragging { index: 1 });
    assert!(r.redraw && r.capture);
    assert_eq!(r.publish, Some(DragEvent::Picked { index: 1 }));
    assert_eq!(r.motions, vec![Motion::Hold; 3]);
}

#[test]
fn dragging_makes_room_at_the_target() {
    let row = draggable(4);
    let input = Input::Move {
        cursor: Some(Sighting { probe: over(3, 4), beyond_deadband: true }),
    };
    let r = row.react(Phase::Dragging { index: 1 }, &input, 2, false);
    assert_eq!(r.phase, Phase::Dragging { index: 1 });
    assert!(r.redraw && r.capture);
    assert_eq!(r.publish, None);
    assert_eq!(
        r.motions,
        vec![
            Motion::Go(Goal::Rest),
            Motion::Go(Goal::Lifted),
            Motion::Go(Goal::Backward),
            Motion::Go(Goal::Backward)
        ]
    );
}

#[test]
fn cursor_leaving_the_window_cancels_the_drag() {
    let row = draggable(3);
    let r = row.react(Phase::Dragging { index: 2 }, &Input::Move { cursor: None }, 3, false);
    assert_eq!(r.phase, Phase::Idle);
    assert!(r.redraw && !r.capture);
    assert_eq!(r.publish, Some(DragEvent::Canceled { index: 2 }));
    assert_eq!(r.motions, vec![Motion::Hold; 3]);
}

#[test]
fn releasing_drops_at_the_target() {
    let row = draggable(4);
    let r = row.react(
        Phase::Dragging { index: 3 },
        &Input::Release { at: Some(over(0, 4)) },
        4,
        false,
    );
    assert_eq!(r.phase, Phase::Idle);
    assert!(r.redraw && r.capture);
    assert_eq!(r.publish, Some(DragEvent::Dropped { index: 3, target_index: 0 }));
    assert_eq!(
        r.motions,
        vec![
            Motion::Go(Goal::Forward),
            Motion::Go(Goal::Forward),
            Motion::Go(Goal::Forward),
            Motion::Snap(Goal::Rest)
        ]
    );
}

#[test]
fn releasing_past_every_child_drops_at_the_last_slot() {
    let row = draggable(3);
    let r = row.react(
        Phase::Dragging { index: 0 },
        &Input::Release { at: Some(probe(vec![false; 3])) },
        3,
        false,
    );
    assert_eq!(r.publish, Some(DragEvent::Dropped { index: 0, target_index: 2 }));
}

#[test]
fn releasing_outside_the_window_cancels() {
    let row = draggable(3);
    let r = row.react(Phase::Dragging { index: 1 }, &Input::Release { at: None }, 1, false);
    assert_eq!(r.phase, Phase::Idle);
    assert!(r.redraw && r.capture);
    assert_eq!(r.publish, Some(DragEvent::Canceled { index: 1 }));
    assert_eq!(r.motions, vec![Motion::Hold; 3]);
}

#[test]
fn releasing_while_picking_goes_idle_silently() {
    let row = draggable(3);
    let r = row.react(Phase::Picking { index: 1 }, &Input::Release { at: Some(over(1, 3)) }, 3, false);
    assert_eq!(r.phase, Phase::Idle);
    assert!(r.redraw && !r.capture);
    assert_eq!(r.publish, None);
    let r = row.react(Phase::Idle, &Input::Release { at: None }, 3, false);
    assert_eq!(r.phase, Phase::Idle);
    assert!(r.redraw);
}

#[test]
fn redraw_is_requested_while_dragging_or_animating() {
    let row = draggable(2);
    let idle = row.react(Phase::Idle, &Input::Redraw { animating: false }, 2, false);
    assert!(!idle.redraw);
    let moving = row.react(Phase::Idle, &Input::Redraw { animating: true }, 2, false);
    assert!(moving.redraw);
    let picking = row.react(Phase::Picking { index: 0 }, &Input::Redraw { animating: false }, 2, false);
    assert!(picking.redraw);
    assert_eq!(picking.phase, Phase::Picking { index: 0 });
}

#[test]
fn other_events_are_ignored() {
    let row = draggable(2);
    let r = row.react(Phase::Dragging { index: 0 }, &Input::Other, 2, false);
    assert_eq!(r.phase, Phase::Dragging { index: 0 });
    assert!(!r.redraw && !r.capture);
    assert_eq!(r.publish, None);
}

#[test]
fn a_whole_drag_reorders_one_item() {
    let row = draggable(3);
    let mut phase = Phase::Idle;
    let mut published = Vec::new();
    let inputs = vec![
        Input::Press { over: Some(over(0, 3)) },
        Input::Move { cursor: Some(Sighting { probe: over(0, 3), beyond_deadband: true }) },
        Input::Move { cursor: Some(Sighting { probe: over(2, 3), beyond_deadband: true }) },
        Input::Release { at: Some(over(2, 3)) },
    ];
    for input in inputs.iter() {
        let r = row.react(phase, input, 3, false);
        phase = r.phase;
        if let Some(event) = r.publish {
            published.push(event);
        }
    }
    assert_eq!(phase, Phase::Idle);
    assert_eq!(
        published,
        vec![
            DragEvent::Picked { index: 0 },
            DragEvent::Dropped { index: 0, target_index: 2 }
        ]
    );
}

#[test]
fn neighbours_head_where_the_drop_leaves_them() {
    let drag = Plan::Drag { index: 2, target: 0 }.spell(5);
    let drop = Plan::Drop { index: 2, target: 0 }.spell(5);
    for i in 0..5 {
        if i == 2 {
            assert_eq!(drag[i], Motion::Go(Goal::Lifted));
            assert_eq!(drop[i], Motion::Snap(Goal::Rest));
        } else {
            assert_eq!(drag[i], drop[i]);
        }
    }
}

#[test]
fn without_a_handler_nothing_is_ever_published() {
    let row = TestRow::from_vec(vec!["a", "b", "c"]);
    let inputs = vec![
        Input::Press { over: Some(over(1, 3)) },
        Input::Move { cursor: Some(Sighting { probe: over(2, 3), beyond_deadband: true }) },
        Input::Move { cursor: None },
        Input::Release { at: Some(over(2, 3)) },
        Input::Release { at: None },
    ];
    for phase in [Phase::Idle, Phase::Picking { index: 1 }, Phase::Dragging { index: 1 }] {
        for input in inputs.iter() {
            let r = row.react(phase, input, 3, false);
            assert_eq!(r.publish, None);
            if phase == Phase::Idle {
                assert_eq!(r.phase, Phase::Idle);
            }
        }
    }
}
