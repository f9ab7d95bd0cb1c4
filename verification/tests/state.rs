use compose_pass::{
    ComposeCtx, Point, Size, Vec2, WidgetId, WidgetState, WindowPoint, WindowRect, WindowVec2,
};

fn state() -> WidgetState {
    WidgetState::new(WidgetId::new(1), Point::new(3, 4), Size::new(50, 60))
}

#[test]
fn mounted_widget_asks_for_nothing() {
    let state = state();
    assert_eq!(state.id.to_raw(), 1);
    assert_eq!(state.origin, Point::new(3, 4));
    assert_eq!(state.size, Size::new(50, 60));
    assert_eq!(state.translation, Vec2::zero());
    assert_eq!(state.window_origin, WindowPoint::new(0, 0));
    assert!(!state.accepts_text_input);
    assert!(!state.translation_changed);
    assert!(!state.needs_compose && !state.request_compose);
    assert!(!state.needs_layout && !state.request_layout);
    assert!(!state.needs_paint);
    assert!(!state.needs_accessibility && !state.request_accessibility);
}

#[test]
fn translation_counts_as_changed_only_when_it_differs() {
    let mut state = state();
    state.set_translation(Vec2::new(0, 0));
    assert!(!state.translation_changed);
    state.set_translation(Vec2::new(0, 1));
    assert!(state.translation_changed);
    assert_eq!(state.translation, Vec2::new(0, 1));
    state.translation_changed = false;
    state.set_translation(Vec2::new(0, 1));
    assert!(!state.translation_changed);
}

#[test]
fn requests_mark_the_widget() {
    let mut asked = state();
    asked.request_compose();
    assert_eq!(asked, WidgetState { needs_compose: true, request_compose: true, ..state() });

    let mut asked = state();
    asked.request_layout();
    assert_eq!(asked, WidgetState { needs_layout: true, request_layout: true, ..state() });

    let mut asked = state();
    asked.request_accessibility_update();
    assert_eq!(
        asked,
        WidgetState { needs_accessibility: true, request_accessibility: true, ..state() }
    );
}

#[test]
fn merge_up_takes_what_still_has_to_be_done() {
    let child = WidgetState {
        id: WidgetId::new(2),
        origin: Point::new(9, 9),
        translation: Vec2::new(9, 9),
        size: Size::new(9, 9),
        window_origin: WindowPoint::new(9, 9),
        accepts_text_input: true,
        translation_changed: true,
        needs_compose: true,
        request_compose: true,
        needs_layout: true,
        request_layout: true,
        needs_paint: true,
        needs_accessibility: true,
        request_accessibility: true,
    };
    let mut parent = state();
    parent.merge_up(&child);
    assert_eq!(
        parent,
        WidgetState {
            needs_compose: true,
            needs_layout: true,
            needs_paint: true,
            needs_accessibility: true,
            ..state()
        }
    );

    let mut parent = child;
    parent.merge_up(&state());
    assert_eq!(parent, child);
}

#[test]
fn absorb_takes_what_a_callback_may_decide() {
    let edited = WidgetState {
        id: WidgetId::new(2),
        origin: Point::new(9, 9),
        translation: Vec2::new(7, 8),
        size: Size::new(9, 9),
        window_origin: WindowPoint::new(9, 9),
        accepts_text_input: true,
        translation_changed: true,
        needs_compose: true,
        request_compose: true,
        needs_layout: true,
        request_layout: true,
        needs_paint: true,
        needs_accessibility: true,
        request_accessibility: true,
    };
    let mut own = state();
    own.absorb(&edited);
    assert_eq!(
        own,
        WidgetState {
            translation: Vec2::new(7, 8),
            translation_changed: true,
            needs_compose: true,
            request_compose: true,
            needs_layout: true,
            request_layout: true,
            needs_accessibility: true,
            request_accessibility: true,
            ..state()
        }
    );
}

#[test]
fn finished_widget_waits_for_paint_and_accessibility() {
    let mut done = state();
    done.request_compose();
    done.request_layout();
    done.set_translation(Vec2::new(1, 1));
    done.finish_compose();
    assert_eq!(
        done,
        WidgetState {
            translation: Vec2::new(1, 1),
            needs_layout: true,
            request_layout: true,
            needs_paint: true,
            needs_accessibility: true,
            request_accessibility: true,
            ..state()
        }
    );
}

#[test]
fn ime_area_is_the_layout_box_in_the_window() {
    let mut state = state();
    state.window_origin = WindowPoint::new(-100, 1000);
    assert_eq!(state.get_ime_area(), WindowRect { x0: -100, y0: 1000, x1: -50, y1: 1060 });
    assert_eq!(
        WindowRect::from_origin_size(WindowPoint::new(0, 0), Size::new(u32::MAX, 0)),
        WindowRect { x0: 0, y0: 0, x1: 4294967295, y1: 0 }
    );
}

#[test]
fn offsets_add_up() {
    let offset = WindowVec2::new(10, -10)
        .translate(Vec2::new(-30, 5))
        .translate(Point::new(1, 1).to_vec2());
    assert_eq!(offset, WindowVec2::new(-19, -4));
    assert_eq!(offset.to_point(), WindowPoint::new(-19, -4));
    assert_eq!(offset.to_point().to_vec2(), offset);
    assert_eq!(WindowVec2::zero(), WindowVec2::new(0, 0));
    assert_eq!(
        WindowVec2::new(i64::MAX - 5, i64::MIN + 5).translate(Vec2::new(5, -5)),
        WindowVec2::new(i64::MAX, i64::MIN)
    );
}

#[test]
fn context_reads_the_widget() {
    let mut state = state();
    state.window_origin = WindowPoint::new(13, 14);
    state.translation = Vec2::new(1, 2);
    let ctx = ComposeCtx::new(state, vec![Vec2::new(5, 6), Vec2::new(7, 8)]);
    assert_eq!(ctx.widget_id(), WidgetId::new(1));
    assert_eq!(ctx.size(), Size::new(50, 60));
    assert_eq!(ctx.window_origin(), WindowPoint::new(13, 14));
    assert_eq!(ctx.translation(), Vec2::new(1, 2));
    assert_eq!(ctx.child_count(), 2);
    assert_eq!(ctx.child_translation(0), Some(Vec2::new(5, 6)));
    assert_eq!(ctx.child_translation(1), Some(Vec2::new(7, 8)));
    assert_eq!(ctx.child_translation(2), None);
    assert_eq!(ctx.widget_state(), state);
}

#[test]
fn context_edits_its_copy() {
    let mut ctx = ComposeCtx::new(state(), vec![Vec2::new(5, 6)]);
    ctx.set_translation(Vec2::new(1, 2));
    ctx.request_layout();
    ctx.request_compose();
    ctx.request_accessibility_update();
    assert!(ctx.set_child_translation(0, Vec2::new(-5, -6)));
    assert!(!ctx.set_child_translation(1, Vec2::new(9, 9)));

    assert_eq!(
        ctx.widget_state(),
        WidgetState {
            translation: Vec2::new(1, 2),
            translation_changed: true,
            needs_layout: true,
            request_layout: true,
            needs_compose: true,
            request_compose: true,
            needs_accessibility: true,
            request_accessibility: true,
            ..state()
        }
    );
    assert_eq!(ctx.child_count(), 1);
    assert_eq!(ctx.child_translation(0), Some(Vec2::new(-5, -6)));
}
