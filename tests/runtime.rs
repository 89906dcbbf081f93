use chai_tea::{closed_from, reduce_batch, ChaiSender, ChaiTeaAppAsync, ChannelClosed};

#[derive(Debug, Clone, PartialEq)]
enum Ev {
    SetLabel(String),
    Tick(u64),
    Start(u64),
    Stop,
}

#[derive(Debug, Clone, PartialEq)]
enum Cmd {
    Start(u64),
}

/// Logs every message and asks for a command on `Start`.
fn log_update(mut log: Vec<Ev>, ev: Ev) -> (Vec<Ev>, Option<Cmd>) {
    let cmd = match &ev {
        Ev::Start(n) => Some(Cmd::Start(*n)),
        _ => None,
    };
    log.push(ev);
    (log, cmd)
}

fn driver() -> ChaiTeaAppAsync<Vec<Ev>, u32, Cmd, Ev, fn(Vec<Ev>, Ev) -> (Vec<Ev>, Option<Cmd>)> {
    ChaiTeaAppAsync::new(Vec::new(), 0, log_update as fn(Vec<Ev>, Ev) -> (Vec<Ev>, Option<Cmd>))
}

#[test]
fn view_messages_precede_mailbox_messages() {
    let ctx = egui::Context::default();
    let mut app = driver();
    app.sender().send(Ev::Tick(5)).ok().unwrap();
    let cmds = app.update(&ctx, vec![Ev::SetLabel(String::from("x"))]);
    assert!(cmds.is_empty());
    assert_eq!(app.model(), &vec![Ev::SetLabel(String::from("x")), Ev::Tick(5)]);
}

#[test]
fn reduce_frame_orders_view_before_mailbox() {
    let mut app = driver();
    let cmds = app.reduce_frame(vec![Ev::SetLabel(String::from("x"))], vec![Ev::Tick(5)]);
    assert!(cmds.is_empty());
    assert_eq!(app.model(), &vec![Ev::SetLabel(String::from("x")), Ev::Tick(5)]);
}

#[test]
fn mailbox_delivers_each_message_once_in_order() {
    let ctx = egui::Context::default();
    let mut app = driver();
    let tx = app.sender();
    tx.send(Ev::Tick(1)).ok().unwrap();
    tx.send(Ev::Tick(2)).ok().unwrap();
    tx.send(Ev::Tick(3)).ok().unwrap();
    app.update(&ctx, Vec::new());
    assert_eq!(app.model(), &vec![Ev::Tick(1), Ev::Tick(2), Ev::Tick(3)]);
    app.update(&ctx, Vec::new());
    assert_eq!(app.model().len(), 3);
}

#[test]
fn ticks_arrive_in_order_across_frames() {
    let ctx = egui::Context::default();
    let mut app = driver();
    let cmds = app.update(&ctx, vec![Ev::Start(3)]);
    assert_eq!(cmds, vec![Cmd::Start(3)]);
    let tx = app.sender();
    tx.send(Ev::Tick(1)).ok().unwrap();
    app.update(&ctx, Vec::new());
    tx.send(Ev::Tick(2)).ok().unwrap();
    tx.send(Ev::Tick(3)).ok().unwrap();
    app.update(&ctx, Vec::new());
    app.update(&ctx, Vec::new());
    tx.send(Ev::Stop).ok().unwrap();
    app.update(&ctx, Vec::new());
    assert_eq!(
        app.model(),
        &vec![Ev::Start(3), Ev::Tick(1), Ev::Tick(2), Ev::Tick(3), Ev::Stop]
    );
}

#[test]
fn command_result_reaches_the_next_frame_only() {
    let ctx = egui::Context::default();
    let mut app = driver();
    let cmds = app.update(&ctx, vec![Ev::Start(1)]);
    for Cmd::Start(n) in cmds {
        let tx = app.sender();
        app.sync_state += 1;
        tx.send(Ev::Tick(n)).ok().unwrap();
    }
    assert_eq!(app.model(), &vec![Ev::Start(1)]);
    assert_eq!(app.sync_state, 1);
    app.update(&ctx, Vec::new());
    assert_eq!(app.model(), &vec![Ev::Start(1), Ev::Tick(1)]);
}

#[test]
fn commands_come_back_in_emission_order() {
    let (end, cmds) = reduce_batch(
        &log_update,
        Vec::new(),
        vec![Ev::Start(2), Ev::Tick(0), Ev::Start(9)],
    );
    assert_eq!(cmds, vec![Cmd::Start(2), Cmd::Start(9)]);
    assert_eq!(end.len(), 3);
}

#[test]
fn send_after_receiver_dropped_is_closed() {
    let (tx, rx) = std::sync::mpsc::channel::<Ev>();
    drop(rx);
    let sender = ChaiSender::new(tx);
    match sender.send(Ev::Tick(7)) {
        Err(ChannelClosed(m)) => assert_eq!(m, Ev::Tick(7)),
        Ok(()) => panic!("send on a closed channel succeeded"),
    }
    match sender.send_repaintless(Ev::Stop) {
        Err(ChannelClosed(m)) => assert_eq!(m, Ev::Stop),
        Ok(()) => panic!("send on a closed channel succeeded"),
    }
}

#[test]
fn send_reaches_the_receiver() {
    let (tx, rx) = std::sync::mpsc::channel::<Ev>();
    let sender = ChaiSender::new(tx);
    sender.send(Ev::Tick(4)).ok().unwrap();
    let copy = sender.clone();
    copy.send_repaintless(Ev::Stop).ok().unwrap();
    assert_eq!(rx.try_recv().unwrap(), Ev::Tick(4));
    assert_eq!(rx.try_recv().unwrap(), Ev::Stop);
    assert!(rx.try_recv().is_err());
}

#[test]
fn installed_wake_requests_a_repaint() {
    let ctx = egui::Context::default();
    let (tx, _rx) = std::sync::mpsc::channel::<Ev>();
    let mut sender = ChaiSender::new(tx);
    assert!(!sender.wakes_now());
    sender.set_ctx(&ctx);
    assert!(sender.wakes_now());
    sender.send(Ev::Stop).ok().unwrap();
    assert!(ctx.has_requested_repaint());
}

#[test]
fn wake_installs_once_per_driver() {
    let first = egui::Context::default();
    let second = egui::Context::default();
    let mut app = driver();
    assert!(!app.sender().wakes_now());
    app.install_wake(&first);
    app.install_wake(&second);
    assert!(app.sender().wakes_now());
    let mut other = driver();
    assert!(!other.sender().wakes_now());
    other.update(&second, Vec::new());
    assert!(other.sender().wakes_now());
}

#[test]
fn deref_sends_on_the_same_channel_without_waking() {
    let ctx = egui::Context::default();
    let (tx, rx) = std::sync::mpsc::channel::<Ev>();
    let mut sender = ChaiSender::new(tx);
    sender.set_ctx(&ctx);
    let inner: &std::sync::mpsc::Sender<Ev> = &sender;
    inner.send(Ev::Tick(8)).unwrap();
    assert_eq!(rx.try_recv().unwrap(), Ev::Tick(8));
    assert!(!ctx.has_requested_repaint());
}

#[test]
fn first_frame_binds_its_context_to_command_handles() {
    let first = egui::Context::default();
    let later = egui::Context::default();
    let mut app = driver();
    app.update(&first, Vec::new());
    app.update(&later, Vec::new());
    app.sender().send(Ev::Stop).ok().unwrap();
    assert!(first.has_requested_repaint());
    assert!(!later.has_requested_repaint());
}

#[test]
fn accepted_send_maps_to_ok() {
    assert!(matches!(closed_from::<Ev>(Ok(())), Ok(())));
}

#[test]
fn refused_send_maps_to_channel_closed() {
    match closed_from(Err(Ev::Tick(3))) {
        Err(ChannelClosed(m)) => assert_eq!(m, Ev::Tick(3)),
        Ok(()) => panic!("a refused send was reported as delivered"),
    }
}

#[test]
fn send_to_live_receiver_is_ok() {
    let (tx, rx) = std::sync::mpsc::channel::<Ev>();
    let sender = ChaiSender::new(tx);
    assert!(sender.send(Ev::Tick(1)).is_ok());
    assert!(sender.send_repaintless(Ev::Tick(2)).is_ok());
    assert_eq!(rx.try_recv().unwrap(), Ev::Tick(1));
    assert_eq!(rx.try_recv().unwrap(), Ev::Tick(2));
}
