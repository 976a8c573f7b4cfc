use vigilant_engine::{on_fetched, on_handled, CoopDriver, HostAction, HostSignal, LoopEvent, NativeAction, Phase};

type Ev = LoopEvent<&'static str, (u32, u32)>;
type Act = HostAction<&'static str, (u32, u32)>;
type Sig = HostSignal<&'static str, (u32, u32)>;

/// Runs the native decisions over a scripted source and handler; returns what
/// reached the handler.
fn run_native(source: Vec<&'static str>, replies: Vec<bool>) -> Vec<&'static str> {
    let mut src = source.into_iter();
    let mut replies = replies.into_iter();
    let mut seen = Vec::new();
    let mut act = on_fetched(src.next());
    loop {
        match act {
            NativeAction::Dispatch(e) => {
                seen.push(e);
                act = on_handled(replies.next().unwrap_or(true));
            }
            NativeAction::FetchNext => act = on_fetched(src.next()),
            NativeAction::Stop => break,
        }
    }
    seen
}

/// Runs one host invocation of the cooperative driver against a scripted
/// window; returns every action asked for.
fn run_tick(d: &mut CoopDriver, inputs: &[&'static str], close: bool, now: u64, size: (u32, u32), draw: (u32, u32)) -> Vec<Act> {
    let mut queue = inputs.to_vec().into_iter();
    let mut all = Vec::new();
    let mut pending = vec![Sig::Tick];
    while let Some(sig) = pending.pop() {
        for a in d.step(sig) {
            match &a {
                HostAction::PollInput => pending.push(HostSignal::Polled(queue.next())),
                HostAction::QueryClose => pending.push(HostSignal::CloseStatus(close)),
                HostAction::ReadClock => pending.push(HostSignal::Now(now)),
                HostAction::QuerySizes => pending.push(HostSignal::Sizes(size, draw)),
                _ => {}
            }
            all.push(a);
        }
    }
    all
}

fn events_of(acts: &[Act]) -> Vec<Ev> {
    acts.iter()
        .filter_map(|a| match a {
            HostAction::Dispatch(e) => Some(e.clone()),
            _ => None,
        })
        .collect()
}

#[test]
fn native_fetch_decisions() {
    assert_eq!(on_fetched(Some(7u32)), NativeAction::Dispatch(7));
    assert_eq!(on_fetched::<u32>(None), NativeAction::Stop);
    assert_eq!(on_handled::<u32>(true), NativeAction::FetchNext);
    assert_eq!(on_handled::<u32>(false), NativeAction::Stop);
}

#[test]
fn native_close_then_nothing_stops() {
    let seen = run_native(vec!["close"], vec![true]);
    assert_eq!(seen, vec!["close"]);
}

#[test]
fn native_keeps_source_order() {
    let seen = run_native(vec!["a", "b", "c", "d"], vec![true, true, true, true]);
    assert_eq!(seen, vec!["a", "b", "c", "d"]);
}

#[test]
fn native_stops_right_after_false() {
    let seen = run_native(vec!["a", "b", "c", "d"], vec![true, false, true, true]);
    assert_eq!(seen, vec!["a", "b"]);
}

#[test]
fn native_empty_source_dispatches_nothing() {
    assert!(run_native(vec![], vec![]).is_empty());
}

#[test]
fn coop_new_starts_idle() {
    let d = CoopDriver::new(1234);
    assert_eq!(d.phase, Phase::Idle);
    assert_eq!(d.last_updated, 1234);
    assert_eq!(d.last_dt, 0);
}

#[test]
fn coop_three_ticks_without_input() {
    let mut d = CoopDriver::new(0);
    let s = (800, 600);
    let mut events = Vec::new();
    for now in [0u64, 16_000, 33_000] {
        let acts = run_tick(&mut d, &[], false, now, s, s);
        events.extend(events_of(&acts));
    }
    let render = |dt: u64| LoopEvent::Render { ext_dt: dt, size: s, draw_size: s };
    assert_eq!(
        events,
        vec![
            LoopEvent::AfterRender,
            LoopEvent::Update { dt: 0 },
            render(0),
            LoopEvent::AfterRender,
            LoopEvent::Update { dt: 16_000 },
            render(16_000),
            LoopEvent::AfterRender,
            LoopEvent::Update { dt: 17_000 },
            render(17_000),
        ]
    );
    assert_eq!(d.phase, Phase::Idle);
    assert_eq!(d.last_updated, 33_000);
}

#[test]
fn coop_first_delta_counts_from_registration() {
    let mut d = CoopDriver::new(5_000);
    let acts = run_tick(&mut d, &[], false, 7_500, (1, 1), (2, 2));
    assert_eq!(events_of(&acts)[1], LoopEvent::Update { dt: 2_500 });
}

#[test]
fn coop_tick_order_with_inputs() {
    let mut d = CoopDriver::new(100);
    let acts = run_tick(&mut d, &["key", "resize"], false, 250, (800, 600), (1600, 1200));
    assert_eq!(
        acts,
        vec![
            HostAction::SwapBuffers,
            HostAction::Dispatch(LoopEvent::AfterRender),
            HostAction::PollInput,
            HostAction::Dispatch(LoopEvent::Input("key")),
            HostAction::PollInput,
            HostAction::Dispatch(LoopEvent::Input("resize")),
            HostAction::PollInput,
            HostAction::QueryClose,
            HostAction::ReadClock,
            HostAction::Dispatch(LoopEvent::Update { dt: 150 }),
            HostAction::QuerySizes,
            HostAction::Dispatch(LoopEvent::Render { ext_dt: 150, size: (800, 600), draw_size: (1600, 1200) }),
        ]
    );
}

#[test]
fn coop_close_cancels_once_and_ends() {
    let mut d = CoopDriver::new(0);
    let acts = run_tick(&mut d, &["close"], true, 10, (1, 1), (1, 1));
    let cancels = acts.iter().filter(|a| matches!(a, HostAction::CancelRegistration)).count();
    assert_eq!(cancels, 1);
    assert_eq!(acts.last(), Some(&HostAction::CancelRegistration));
    assert_eq!(events_of(&acts), vec![LoopEvent::AfterRender, LoopEvent::Input("close")]);
    assert_eq!(d.phase, Phase::Cancelled);
    assert!(run_tick(&mut d, &["late"], false, 20, (1, 1), (1, 1)).is_empty());
    assert!(d.step(Sig::Now(99)).is_empty());
    assert_eq!(d.phase, Phase::Cancelled);
}

#[test]
fn coop_clock_going_back_gives_zero_delta() {
    let mut d = CoopDriver::new(1_000);
    let acts = run_tick(&mut d, &[], false, 400, (1, 1), (1, 1));
    assert_eq!(events_of(&acts)[1], LoopEvent::Update { dt: 0 });
    assert_eq!(d.last_updated, 400);
}

#[test]
fn coop_out_of_turn_signal_is_ignored() {
    let mut d = CoopDriver::new(0);
    assert!(d.step(Sig::Polled(Some("x"))).is_empty());
    assert!(d.step(Sig::Now(5)).is_empty());
    assert_eq!(d, CoopDriver::new(0));
}

#[test]
fn coop_many_ticks_keep_state_small() {
    let mut d = CoopDriver::new(0);
    let mut updates = 0;
    let mut renders = 0;
    for k in 1..=1000u64 {
        for e in events_of(&run_tick(&mut d, &["i"], false, k * 16_000, (1, 1), (1, 1))) {
            match e {
                LoopEvent::Update { .. } => updates += 1,
                LoopEvent::Render { .. } => renders += 1,
                _ => {}
            }
        }
        assert_eq!(d.phase, Phase::Idle);
    }
    assert_eq!(updates, 1000);
    assert_eq!(renders, 1000);
}
