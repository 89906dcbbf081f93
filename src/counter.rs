//! The counter demo: a number with buttons to change it, and a label.
use vstd::prelude::*;

verus! {

/// The demo's state: a counter and a free-text label.
pub struct Model {
    pub counter: i32,
    pub label: String,
}

/// What the demo's view can ask for.
pub enum Msg {
    Increment,
    Decrement,
    SetValue(i32),
    NewLabel(String),
}

impl Model {
    /// The starting state: counter at zero, empty label.
    pub fn init() -> (r: Self)
        ensures
            r.counter == 0,
            r.label@ == Seq::<char>::empty(),
    {
        Model { counter: 0, label: String::new() }
    }
}

impl Default for Model {
    fn default() -> (r: Self)
        ensures
            r.counter == 0,
            r.label@ == Seq::<char>::empty(),
    {
        Model::init()
    }
}

/// The state that `update` gives for `model` and `msg`. The counter wraps
/// around at the ends of `i32`, so every message can be reduced.
pub open spec fn step(model: Model, msg: Msg) -> Model {
    match msg {
        Msg::Increment => Model { counter: model.counter.wrapping_add(1), ..model },
        Msg::Decrement => Model { counter: model.counter.wrapping_sub(1), ..model },
        Msg::SetValue(x) => Model { counter: x, ..model },
        Msg::NewLabel(s) => Model { label: s, ..model },
    }
}

/// The demo's reducer.
pub fn update(model: Model, msg: Msg) -> (r: Model)
    ensures
        r == step(model, msg),
{
    match msg {
        Msg::Increment => Model { counter: model.counter.wrapping_add(1), ..model },
        Msg::Decrement => Model { counter: model.counter.wrapping_sub(1), ..model },
        Msg::SetValue(x) => Model { counter: x, ..model },
        Msg::NewLabel(s) => Model { label: s, ..model },
    }
}

} // verus!
