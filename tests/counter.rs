use chai_tea::{reduce_plain, update, ChaiTeaApp, Model, Msg};

fn model(counter: i32, label: &str) -> Model {
    Model { counter, label: String::from(label) }
}

#[test]
fn counter_stream_ends_at_one() {
    let end = reduce_plain(
        &update,
        model(0, ""),
        vec![Msg::Increment, Msg::Increment, Msg::Decrement],
    );
    assert_eq!(end.counter, 1);
    assert_eq!(end.label, "");
}

#[test]
fn counter_stream_through_driver_frames() {
    let mut app = ChaiTeaApp::new(model(0, ""), update);
    app.update(vec![Msg::Increment, Msg::Increment, Msg::Decrement]);
    assert_eq!(app.model().counter, 1);
}

#[test]
fn init_is_zero_and_empty() {
    let m = Model::init();
    assert_eq!(m.counter, 0);
    assert_eq!(m.label, "");
    let d = Model::default();
    assert_eq!(d.counter, 0);
    assert_eq!(d.label, "");
}

#[test]
fn increment_and_decrement_step_by_one() {
    assert_eq!(update(model(41, "a"), Msg::Increment).counter, 42);
    assert_eq!(update(model(41, "a"), Msg::Decrement).counter, 40);
    assert_eq!(update(model(41, "a"), Msg::Increment).label, "a");
}

#[test]
fn counter_wraps_at_the_ends() {
    assert_eq!(update(model(i32::MAX, ""), Msg::Increment).counter, i32::MIN);
    assert_eq!(update(model(i32::MIN, ""), Msg::Decrement).counter, i32::MAX);
}

#[test]
fn set_value_and_new_label() {
    let m = update(model(3, "old"), Msg::SetValue(10));
    assert_eq!(m.counter, 10);
    assert_eq!(m.label, "old");
    let m = update(model(3, "old"), Msg::NewLabel(String::from("new")));
    assert_eq!(m.counter, 3);
    assert_eq!(m.label, "new");
}

#[test]
fn one_message_per_frame_matches_one_batch() {
    let msgs = || vec![Msg::Increment, Msg::SetValue(7), Msg::Decrement, Msg::Increment];
    let mut batched = ChaiTeaApp::new(model(0, ""), update);
    batched.update(msgs());
    let mut framed = ChaiTeaApp::new(model(0, ""), update);
    for m in msgs() {
        framed.update(vec![m]);
    }
    assert_eq!(batched.model().counter, 7);
    assert_eq!(framed.model().counter, 7);
}

#[test]
fn empty_frame_keeps_the_model() {
    let mut app = ChaiTeaApp::new(model(5, "keep"), update);
    app.update(Vec::new());
    assert_eq!(app.model().counter, 5);
    assert_eq!(app.model().label, "keep");
}
