use std::cell::RefCell;
use std::rc::Rc;

use compose_pass::{
    compose_widget, recurse_on_children, run_compose_pass, ComposeCtx, Point, RenderRoot,
    RenderRootState, Size, Vec2, Widget, WidgetId, WidgetNode, WidgetState, WindowPoint,
    WindowVec2, MAX_TREE_DEPTH,
};

/// What a callback saw when it ran.
#[derive(Clone, Copy, Debug, PartialEq, Eq)]
struct Call {
    id: WidgetId,
    translation: Vec2,
    window_origin: WindowPoint,
}

type Log = Rc<RefCell<Vec<Call>>>;

#[derive(Clone, Copy)]
enum Action {
    Nothing,
    MoveChild(usize, Vec2),
    MoveSelf(Vec2),
    RequestLayout,
    RequestCompose,
    RequestAccessibility,
}

struct Probe {
    log: Log,
    action: Action,
}

impl Widget for Probe {
    fn compose(&mut self, ctx: &mut ComposeCtx) {
        self.log.borrow_mut().push(Call {
            id: ctx.widget_id(),
            translation: ctx.translation(),
            window_origin: ctx.window_origin(),
        });
        match self.action {
            Action::Nothing => {}
            Action::MoveChild(index, translation) => {
                ctx.set_child_translation(index, translation);
            }
            Action::MoveSelf(translation) => ctx.set_translation(translation),
            Action::RequestLayout => ctx.request_layout(),
            Action::RequestCompose => ctx.request_compose(),
            Action::RequestAccessibility => ctx.request_accessibility_update(),
        }
    }
}

fn new_log() -> Log {
    Rc::new(RefCell::new(Vec::new()))
}

fn state(id: u64, origin: (i32, i32)) -> WidgetState {
    WidgetState::new(WidgetId::new(id), Point::new(origin.0, origin.1), Size::new(10, 10))
}

fn node(
    log: &Log,
    action: Action,
    state: WidgetState,
    children: Vec<WidgetNode<Probe>>,
) -> WidgetNode<Probe> {
    WidgetNode::with_children(Probe { log: log.clone(), action }, state, children)
}

fn record(root: &RenderRoot<Probe>, id: u64) -> WidgetState {
    root.root.get_node(WidgetId::new(id)).unwrap().state
}

/// root (1) at (1, 2) -> parent (2) at (10, 20) -> child (3) at (100, 200).
fn three_levels(log: &Log, parent_action: Action) -> RenderRoot<Probe> {
    let child = node(log, Action::Nothing, state(3, (100, 200)), vec![]);
    let parent = node(log, parent_action, state(2, (10, 20)), vec![child]);
    let root = node(log, Action::Nothing, state(1, (1, 2)), vec![parent]);
    RenderRoot::new(root).unwrap()
}

fn request_compose(root: &mut RenderRoot<Probe>, id: u64) {
    let mut state = record(root, id);
    state.request_compose();
    assert!(root.update_widget_state(WidgetId::new(id), state));
}

fn set_translation(root: &mut RenderRoot<Probe>, id: u64, translation: Vec2) {
    let mut state = record(root, id);
    state.set_translation(translation);
    state.needs_compose = true;
    assert!(root.update_widget_state(WidgetId::new(id), state));
}

#[test]
fn clean_tree_is_left_alone() {
    let log = new_log();
    let mut root = three_levels(&log, Action::MoveChild(0, Vec2::new(5, 5)));
    request_compose(&mut root, 3);
    run_compose_pass(&mut root);
    log.borrow_mut().clear();
    let before: Vec<WidgetState> = (1..=3).map(|id| record(&root, id)).collect();

    run_compose_pass(&mut root);

    let after: Vec<WidgetState> = (1..=3).map(|id| record(&root, id)).collect();
    assert_eq!(before, after);
    assert!(log.borrow().is_empty());
    assert!(root.global_state.signal_queue.is_empty());
}

#[test]
fn skipped_root_still_gets_its_position() {
    let log = new_log();
    let mut root = three_levels(&log, Action::Nothing);
    assert_eq!(record(&root, 1).window_origin, WindowPoint::new(0, 0));

    run_compose_pass(&mut root);

    assert_eq!(record(&root, 1).window_origin, WindowPoint::new(1, 2));
    assert_eq!(record(&root, 2).window_origin, WindowPoint::new(0, 0));
    assert_eq!(record(&root, 3).window_origin, WindowPoint::new(0, 0));
    assert!(log.borrow().is_empty());
}

#[test]
fn clean_child_hides_what_waits_below_it() {
    let log = new_log();
    let mut root = three_levels(&log, Action::Nothing);
    root.root.state.request_compose();
    root.root.children[0].children[0].state.request_compose();

    run_compose_pass(&mut root);

    assert_eq!(record(&root, 2).window_origin, WindowPoint::new(11, 22));
    assert_eq!(record(&root, 3).window_origin, WindowPoint::new(0, 0));
    assert!(record(&root, 3).request_compose);
    assert_eq!(log.borrow().len(), 1);
    assert_eq!(log.borrow()[0].id, WidgetId::new(1));
}

#[test]
fn positions_are_sums_along_the_path() {
    let log = new_log();
    let mut root = three_levels(&log, Action::Nothing);
    set_translation(&mut root, 1, Vec2::new(1000, 2000));
    set_translation(&mut root, 2, Vec2::new(-3, 4));
    set_translation(&mut root, 3, Vec2::new(7, -9));

    run_compose_pass(&mut root);

    assert_eq!(record(&root, 1).window_origin, WindowPoint::new(1001, 2002));
    assert_eq!(record(&root, 2).window_origin, WindowPoint::new(1008, 2026));
    assert_eq!(record(&root, 3).window_origin, WindowPoint::new(1115, 2217));
}

#[test]
fn flags_are_reset_after_the_pass() {
    let log = new_log();
    let mut root = three_levels(&log, Action::MoveChild(0, Vec2::new(5, 5)));
    set_translation(&mut root, 2, Vec2::new(8, 8));
    request_compose(&mut root, 2);
    request_compose(&mut root, 3);

    run_compose_pass(&mut root);

    for id in 1..=3 {
        let state = record(&root, id);
        assert!(!state.needs_compose);
        assert!(!state.request_compose);
        assert!(!state.translation_changed);
        assert!(state.needs_paint);
        assert!(state.needs_accessibility);
        assert!(state.request_accessibility);
    }
}

#[test]
fn second_pass_changes_nothing() {
    let log = new_log();
    let mut root = three_levels(&log, Action::MoveChild(0, Vec2::new(5, 5)));
    root.global_state.focused_widget = Some(WidgetId::new(3));
    root.root.children[0].children[0].state.accepts_text_input = true;
    set_translation(&mut root, 2, Vec2::new(8, 8));
    request_compose(&mut root, 2);

    run_compose_pass(&mut root);
    let first: Vec<WidgetState> = (1..=3).map(|id| record(&root, id)).collect();
    assert_eq!(root.global_state.take_signals().len(), 1);
    let calls = log.borrow().len();

    run_compose_pass(&mut root);
    let second: Vec<WidgetState> = (1..=3).map(|id| record(&root, id)).collect();

    assert_eq!(first, second);
    assert!(root.global_state.signal_queue.is_empty());
    assert_eq!(log.borrow().len(), calls);
}

#[test]
fn parent_translation_places_parent_and_child() {
    let log = new_log();
    let mut root = three_levels(&log, Action::Nothing);
    run_compose_pass(&mut root);
    set_translation(&mut root, 2, Vec2::new(30, 30));
    request_compose(&mut root, 2);

    run_compose_pass(&mut root);

    assert_eq!(record(&root, 2).window_origin, WindowPoint::new(1 + 30 + 10, 2 + 30 + 20));
    assert_eq!(record(&root, 3).window_origin, WindowPoint::new(41 + 100, 52 + 200));
    assert_eq!(
        *log.borrow(),
        vec![Call {
            id: WidgetId::new(2),
            translation: Vec2::new(30, 30),
            window_origin: WindowPoint::new(41, 52),
        }]
    );
}

#[test]
fn second_request_runs_the_callback_with_the_new_translation() {
    let log = new_log();
    let mut root = three_levels(&log, Action::Nothing);
    run_compose_pass(&mut root);
    set_translation(&mut root, 2, Vec2::new(30, 30));
    request_compose(&mut root, 2);
    run_compose_pass(&mut root);
    log.borrow_mut().clear();

    set_translation(&mut root, 2, Vec2::new(-4, 6));
    request_compose(&mut root, 2);
    run_compose_pass(&mut root);

    assert_eq!(
        *log.borrow(),
        vec![Call {
            id: WidgetId::new(2),
            translation: Vec2::new(-4, 6),
            window_origin: WindowPoint::new(7, 28),
        }]
    );
    assert_eq!(record(&root, 3).window_origin, WindowPoint::new(107, 228));
    for id in 1..=3 {
        assert!(!record(&root, id).needs_layout);
        assert!(!record(&root, id).request_layout);
    }
}

#[test]
fn callback_moves_a_child_within_the_same_pass() {
    let log = new_log();
    let mut root = three_levels(&log, Action::MoveChild(0, Vec2::new(5, -5)));
    request_compose(&mut root, 2);

    run_compose_pass(&mut root);

    assert_eq!(record(&root, 3).translation, Vec2::new(5, -5));
    assert_eq!(record(&root, 3).window_origin, WindowPoint::new(11 + 5 + 100, 22 - 5 + 200));
    assert_eq!(log.borrow().len(), 1);
}

#[test]
fn callback_ignores_a_child_it_does_not_have() {
    let log = new_log();
    let mut root = three_levels(&log, Action::MoveChild(1, Vec2::new(5, -5)));
    request_compose(&mut root, 2);

    run_compose_pass(&mut root);

    assert_eq!(record(&root, 3).translation, Vec2::zero());
    assert_eq!(record(&root, 3).window_origin, WindowPoint::new(111, 222));
}

#[test]
fn own_translation_from_a_callback_shows_in_the_next_visit() {
    let log = new_log();
    let mut root = three_levels(&log, Action::MoveSelf(Vec2::new(50, 60)));
    request_compose(&mut root, 2);

    run_compose_pass(&mut root);

    assert_eq!(record(&root, 2).translation, Vec2::new(50, 60));
    assert!(!record(&root, 2).translation_changed);
    assert_eq!(record(&root, 2).window_origin, WindowPoint::new(11, 22));
    assert_eq!(record(&root, 3).window_origin, WindowPoint::new(111, 222));

    request_compose(&mut root, 1);
    run_compose_pass(&mut root);

    assert_eq!(record(&root, 2).window_origin, WindowPoint::new(61, 82));
    assert_eq!(record(&root, 3).window_origin, WindowPoint::new(111, 222));
}

#[test]
fn requests_from_a_callback() {
    for (action, layout, accessibility) in [
        (Action::RequestLayout, true, true),
        (Action::RequestCompose, false, true),
        (Action::RequestAccessibility, false, true),
    ] {
        let log = new_log();
        let mut root = three_levels(&log, action);
        request_compose(&mut root, 2);

        run_compose_pass(&mut root);

        let parent = record(&root, 2);
        assert_eq!(parent.needs_layout, layout);
        assert_eq!(parent.request_layout, layout);
        assert_eq!(parent.request_accessibility, accessibility);
        assert!(!parent.needs_compose);
        assert!(!parent.request_compose);
        assert_eq!(record(&root, 1).needs_layout, layout);
        assert!(!record(&root, 1).request_layout);
        assert!(!record(&root, 3).needs_layout);
    }
}

#[test]
fn pointer_pass_is_asked_for_when_the_root_waits() {
    let log = new_log();
    let mut root = three_levels(&log, Action::Nothing);
    run_compose_pass(&mut root);
    assert!(!root.global_state.needs_pointer_pass);

    request_compose(&mut root, 3);
    run_compose_pass(&mut root);
    assert!(root.global_state.needs_pointer_pass);

    run_compose_pass(&mut root);
    assert!(root.global_state.needs_pointer_pass);
}

#[test]
fn moved_parent_reaches_clean_children() {
    let log = new_log();
    let child = node(&log, Action::Nothing, state(3, (100, 200)), vec![]);
    let mut parent = node(&log, Action::Nothing, state(2, (10, 20)), vec![child]);
    let mut global_state = RenderRootState::new();

    compose_widget(&mut global_state, &mut parent, true, WindowVec2::new(-1000, 1000));

    assert_eq!(parent.state.window_origin, WindowPoint::new(-990, 1020));
    assert_eq!(parent.children[0].state.window_origin, WindowPoint::new(-890, 1220));
    assert!(parent.children[0].state.needs_paint);
    assert!(log.borrow().is_empty());
}

#[test]
fn unmoved_clean_subtree_is_skipped() {
    let log = new_log();
    let child = node(&log, Action::Nothing, state(3, (100, 200)), vec![]);
    let mut parent = node(&log, Action::Nothing, state(2, (10, 20)), vec![child]);
    parent.state.request_compose = true;
    let mut global_state = RenderRootState::new();

    compose_widget(&mut global_state, &mut parent, false, WindowVec2::new(5, 5));

    assert_eq!(parent.state.window_origin, WindowPoint::new(15, 25));
    assert!(parent.state.request_compose);
    assert!(!parent.state.needs_paint);
    assert_eq!(parent.children[0].state.window_origin, WindowPoint::new(0, 0));
    assert!(log.borrow().is_empty());
}

#[test]
fn deepest_tree_holds_the_farthest_positions() {
    let log = new_log();
    let far = |id: u64| {
        let mut state = WidgetState::new(
            WidgetId::new(id),
            Point::new(i32::MAX, i32::MIN),
            Size::new(u32::MAX, u32::MAX),
        );
        state.translation = Vec2::new(i32::MAX, i32::MIN);
        state.translation_changed = true;
        state
    };
    let depth = MAX_TREE_DEPTH as u64;
    let mut tree = node(&log, Action::Nothing, far(depth), vec![]);
    for id in (1..depth).rev() {
        tree = node(&log, Action::Nothing, far(id), vec![tree]);
    }
    let mut root = RenderRoot::new(tree).unwrap();
    root.root.state.needs_compose = true;

    run_compose_pass(&mut root);

    let deepest = record(&root, depth);
    assert_eq!(
        deepest.window_origin,
        WindowPoint::new(2048 * (i32::MAX as i64), 2048 * (i32::MIN as i64))
    );
    assert_eq!(record(&root, 1).window_origin, WindowPoint::new(4294967294, -4294967296));
}

#[test]
fn children_are_visited_in_order_and_folded_into_the_parent() {
    let log = new_log();
    let asking = |id: u64, origin: (i32, i32)| {
        let mut state = state(id, origin);
        state.request_compose();
        state
    };
    let mut waiting_for_layout = state(12, (0, 5));
    waiting_for_layout.needs_layout = true;
    let mut children = vec![
        node(&log, Action::Nothing, asking(11, (1, 0)), vec![]),
        node(&log, Action::Nothing, waiting_for_layout, vec![]),
        node(&log, Action::Nothing, asking(13, (3, 0)), vec![]),
    ];
    let mut parent_state = state(10, (0, 0));
    let mut global_state = RenderRootState::new();

    recurse_on_children(
        &mut global_state,
        &mut parent_state,
        &mut children,
        false,
        WindowVec2::new(100, 100),
    );

    let visited: Vec<u64> = log.borrow().iter().map(|call| call.id.to_raw()).collect();
    assert_eq!(visited, vec![11, 13]);
    assert_eq!(children[0].state.window_origin, WindowPoint::new(101, 100));
    assert_eq!(children[1].state.window_origin, WindowPoint::new(100, 105));
    assert_eq!(children[2].state.window_origin, WindowPoint::new(103, 100));
    assert!(!children[1].state.needs_paint);
    assert_eq!(
        parent_state,
        WidgetState {
            needs_layout: true,
            needs_paint: true,
            needs_accessibility: true,
            ..state(10, (0, 0))
        }
    );
    assert!(global_state.signal_queue.is_empty());
}
