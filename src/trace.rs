use vstd::prelude::*;
use crate::cooperative::{elapsed, step_spec, CoopDriver, HostAction, HostSignal, Phase};
use crate::event::{wrap_inputs, LoopEvent};

verus! {

/// Feeds the cooperative driver a sequence of signals: the final state and
/// every action asked for, in order.
pub open spec fn run_spec<I, Z>(d: CoopDriver, sigs: Seq<HostSignal<I, Z>>) -> (CoopDriver, Seq<HostAction<I, Z>>)
    decreases sigs.len(),
{
    if sigs.len() == 0 {
        (d, Seq::empty())
    } else {
        let (d1, a1) = step_spec(d, sigs[0]);
        let (d2, a2) = run_spec(d1, sigs.drop_first());
        (d2, a1 + a2)
    }
}

/// The events handed to the handler by a sequence of actions.
pub open spec fn dispatched<I, Z>(acts: Seq<HostAction<I, Z>>) -> Seq<LoopEvent<I, Z>>
    decreases acts.len(),
{
    if acts.len() == 0 {
        Seq::empty()
    } else {
        let head = match acts[0] {
            HostAction::Dispatch(e) => seq![e],
            _ => Seq::empty(),
        };
        head + dispatched(acts.drop_first())
    }
}

/// How many times a sequence of actions cancels the host registration.
pub open spec fn cancellations<I, Z>(acts: Seq<HostAction<I, Z>>) -> nat
    decreases acts.len(),
{
    if acts.len() == 0 {
        0
    } else {
        (if acts[0] is CancelRegistration { 1nat } else { 0nat }) + cancellations(acts.drop_first())
    }
}

/// How many events of a sequence satisfy `p`.
pub open spec fn count_of<I, Z>(evs: Seq<LoopEvent<I, Z>>, p: spec_fn(LoopEvent<I, Z>) -> bool) -> nat
    decreases evs.len(),
{
    if evs.len() == 0 {
        0
    } else {
        (if p(evs[0]) { 1nat } else { 0nat }) + count_of(evs.drop_first(), p)
    }
}

pub open spec fn is_update<I, Z>() -> spec_fn(LoopEvent<I, Z>) -> bool {
    |e: LoopEvent<I, Z>| e is Update
}

pub open spec fn is_render<I, Z>() -> spec_fn(LoopEvent<I, Z>) -> bool {
    |e: LoopEvent<I, Z>| e is Render
}

/// What the host and the window answer during one invocation: a tick, each
/// queued input, an empty poll, the close status, and, unless the window
/// closes, the clock and the sizes.
pub open spec fn tick_signals<I, Z>(inputs: Seq<I>, close: bool, now: u64, size: Z, draw_size: Z) -> Seq<HostSignal<I, Z>> {
    seq![HostSignal::Tick]
        + inputs.map_values(|i: I| HostSignal::Polled(Some(i)))
        + seq![HostSignal::Polled(None), HostSignal::CloseStatus(close)]
        + if close { Seq::empty() } else { seq![HostSignal::Now(now), HostSignal::Sizes(size, draw_size)] }
}

/// The events of one invocation: `AfterRender`, the inputs in queue order,
/// then, unless the window closes, `Update` and `Render` with the same delta.
pub open spec fn tick_events<I, Z>(last: u64, inputs: Seq<I>, close: bool, now: u64, size: Z, draw_size: Z) -> Seq<LoopEvent<I, Z>> {
    seq![LoopEvent::AfterRender]
        + wrap_inputs(inputs)
        + if close {
            Seq::empty()
        } else {
            seq![
                LoopEvent::Update { dt: elapsed(last, now) },
                LoopEvent::Render { ext_dt: elapsed(last, now), size, draw_size },
            ]
        }
}

proof fn lemma_run_append<I, Z>(d: CoopDriver, s1: Seq<HostSignal<I, Z>>, s2: Seq<HostSignal<I, Z>>)
    ensures
        run_spec(d, s1 + s2) == (
            run_spec(run_spec(d, s1).0, s2).0,
            run_spec(d, s1).1 + run_spec(run_spec(d, s1).0, s2).1,
        ),
    decreases s1.len(),
{
    if s1.len() == 0 {
        assert(s1 + s2 =~= s2);
        assert(Seq::<HostAction<I, Z>>::empty() + run_spec(d, s2).1 =~= run_spec(d, s2).1);
    } else {
        let (d1, a1) = step_spec(d, s1[0]);
        assert((s1 + s2).drop_first() =~= s1.drop_first() + s2);
        assert((s1 + s2)[0] == s1[0]);
        lemma_run_append(d1, s1.drop_first(), s2);
        let m = run_spec(d1, s1.drop_first());
        let t = run_spec(m.0, s2);
        assert(a1 + (m.1 + t.1) =~= (a1 + m.1) + t.1);
    }
}

proof fn lemma_dispatched_append<I, Z>(a: Seq<HostAction<I, Z>>, b: Seq<HostAction<I, Z>>)
    ensures
        dispatched(a + b) == dispatched(a) + dispatched(b),
        cancellations(a + b) == cancellations(a) + cancellations(b),
    decreases a.len(),
{
    if a.len() == 0 {
        assert(a + b =~= b);
        assert(Seq::<LoopEvent<I, Z>>::empty() + dispatched(b) =~= dispatched(b));
    } else {
        assert((a + b).drop_first() =~= a.drop_first() + b);
        assert((a + b)[0] == a[0]);
        lemma_dispatched_append(a.drop_first(), b);
        let head = match a[0] {
            HostAction::Dispatch(e) => seq![e],
            _ => Seq::<LoopEvent<I, Z>>::empty(),
        };
        assert(head + (dispatched(a.drop_first()) + dispatched(b)) =~= (head + dispatched(a.drop_first())) + dispatched(b));
    }
}

proof fn lemma_count_append<I, Z>(a: Seq<LoopEvent<I, Z>>, b: Seq<LoopEvent<I, Z>>, p: spec_fn(LoopEvent<I, Z>) -> bool)
    ensures
        count_of(a + b, p) == count_of(a, p) + count_of(b, p),
    decreases a.len(),
{
    if a.len() == 0 {
        assert(a + b =~= b);
    } else {
        assert((a + b).drop_first() =~= a.drop_first() + b);
        assert((a + b)[0] == a[0]);
        lemma_count_append(a.drop_first(), b, p);
    }
}

/// While the driver drains the input queue, each queued event is dispatched
/// as an `Input`, in queue order, and nothing else is.
proof fn lemma_polling<I, Z>(d: CoopDriver, inputs: Seq<I>)
    requires
        d.phase == Phase::Polling,
    ensures
        run_spec(d, inputs.map_values(|i: I| HostSignal::<I, Z>::Polled(Some(i)))).0 == d,
        dispatched(run_spec(d, inputs.map_values(|i: I| HostSignal::<I, Z>::Polled(Some(i)))).1) == wrap_inputs::<I, Z>(inputs),
        cancellations(run_spec(d, inputs.map_values(|i: I| HostSignal::<I, Z>::Polled(Some(i)))).1) == 0,
    decreases inputs.len(),
{
    let sigs = inputs.map_values(|i: I| HostSignal::<I, Z>::Polled(Some(i)));
    if inputs.len() == 0 {
        assert(sigs =~= Seq::empty());
        assert(wrap_inputs::<I, Z>(inputs) =~= Seq::empty());
    } else {
        let rest = inputs.drop_first();
        assert(sigs.drop_first() =~= rest.map_values(|i: I| HostSignal::<I, Z>::Polled(Some(i))));
        lemma_polling::<I, Z>(d, rest);
        let a1: Seq<HostAction<I, Z>> = seq![HostAction::Dispatch(LoopEvent::Input(inputs[0])), HostAction::PollInput];
        let a2 = run_spec(d, sigs.drop_first()).1;
        lemma_dispatched_append(a1, a2);
        assert(a1.drop_first().drop_first() =~= Seq::empty());
        assert(dispatched(a1.drop_first().drop_first()) == Seq::<LoopEvent<I, Z>>::empty());
        assert(cancellations(a1.drop_first().drop_first()) == 0);
        assert(dispatched(a1.drop_first()) =~= Seq::<LoopEvent<I, Z>>::empty());
        assert(cancellations(a1.drop_first()) == 0);
        assert(dispatched(a1) =~= seq![LoopEvent::Input(inputs[0])]);
        assert(wrap_inputs::<I, Z>(inputs) =~= seq![LoopEvent::Input(inputs[0])] + wrap_inputs::<I, Z>(rest));
    }
}

/// One invocation of the callback, in full. The handler sees `AfterRender`,
/// then every queued input in queue order, then `Update` and `Render` carrying
/// the same non-negative delta; or, where the window asks to close, the
/// registration is cancelled exactly once and neither `Update` nor `Render`
/// comes. Otherwise the driver is back between ticks holding one timestamp.
pub proof fn lemma_tick<I, Z>(d: CoopDriver, inputs: Seq<I>, close: bool, now: u64, size: Z, draw_size: Z)
    requires
        d.phase == Phase::Idle,
    ensures
        dispatched(run_spec(d, tick_signals(inputs, close, now, size, draw_size)).1)
            == tick_events(d.last_updated, inputs, close, now, size, draw_size),
        cancellations(run_spec(d, tick_signals(inputs, close, now, size, draw_size)).1)
            == if close { 1nat } else { 0nat },
        run_spec(d, tick_signals(inputs, close, now, size, draw_size)).0 == if close {
            CoopDriver { phase: Phase::Cancelled, ..d }
        } else {
            CoopDriver { phase: Phase::Idle, last_updated: now, last_dt: elapsed(d.last_updated, now) }
        },
{
    let sa: Seq<HostSignal<I, Z>> = seq![HostSignal::Tick];
    let sp = inputs.map_values(|i: I| HostSignal::<I, Z>::Polled(Some(i)));
    let sb: Seq<HostSignal<I, Z>> = seq![HostSignal::Polled(None), HostSignal::CloseStatus(close)];
    let sc: Seq<HostSignal<I, Z>> = if close {
        Seq::empty()
    } else {
        seq![HostSignal::Now(now), HostSignal::Sizes(size, draw_size)]
    };
    assert(tick_signals(inputs, close, now, size, draw_size) == sa + sp + sb + sc);
    lemma_run_append(d, sa + sp + sb, sc);
    lemma_run_append(d, sa + sp, sb);
    lemma_run_append(d, sa, sp);

    reveal_with_fuel(run_spec, 3);
    reveal_with_fuel(dispatched, 4);
    reveal_with_fuel(cancellations, 4);
    assert(sa.drop_first() =~= Seq::empty());
    assert(sb.drop_first().drop_first() =~= Seq::empty());
    assert(sc.len() > 0 ==> sc.drop_first().drop_first() =~= Seq::empty());

    let (d1, aa) = run_spec(d, sa);
    assert(d1 == CoopDriver { phase: Phase::Polling, ..d });
    lemma_polling::<I, Z>(d1, inputs);
    let ap = run_spec(d1, sp).1;
    let (d3, ab) = run_spec(d1, sb);
    let (d5, ac) = run_spec(d3, sc);

    lemma_dispatched_append(aa, ap);
    lemma_dispatched_append(aa + ap, ab);
    lemma_dispatched_append(aa + ap + ab, ac);

    let aa_lit: Seq<HostAction<I, Z>> = seq![HostAction::SwapBuffers, HostAction::Dispatch(LoopEvent::AfterRender), HostAction::PollInput];
    assert(aa =~= aa_lit);
    assert(aa_lit.drop_first().drop_first().drop_first() =~= Seq::empty());
    assert(dispatched(aa) =~= seq![LoopEvent::AfterRender]);
    assert(cancellations(aa) == 0);
    if close {
        assert(ab =~= seq![HostAction::QueryClose, HostAction::CancelRegistration]);
        assert(ac =~= Seq::empty());
    } else {
        assert(ab =~= seq![HostAction::QueryClose, HostAction::ReadClock]);
        let dt = elapsed(d.last_updated, now);
        let ac_lit: Seq<HostAction<I, Z>> = seq![
            HostAction::Dispatch(LoopEvent::Update { dt }),
            HostAction::QuerySizes,
            HostAction::Dispatch(LoopEvent::Render { ext_dt: dt, size, draw_size }),
        ];
        assert(ac =~= ac_lit);
        assert(ac_lit.drop_first().drop_first().drop_first() =~= Seq::empty());
    }
    assert(dispatched(run_spec(d, tick_signals(inputs, close, now, size, draw_size)).1)
        =~= tick_events(d.last_updated, inputs, close, now, size, draw_size));
}

/// The signals of consecutive invocations in which the window never asks to
/// close; each entry holds the queued inputs, the clock and the two sizes.
pub open spec fn ticks_signals<I, Z>(envs: Seq<(Seq<I>, u64, Z, Z)>) -> Seq<HostSignal<I, Z>>
    decreases envs.len(),
{
    if envs.len() == 0 {
        Seq::empty()
    } else {
        let e = envs[0];
        tick_signals(e.0, false, e.1, e.2, e.3) + ticks_signals(envs.drop_first())
    }
}

/// The events of those invocations: one block per invocation, each delta
/// measured from the previous invocation's clock reading.
pub open spec fn ticks_events<I, Z>(last: u64, envs: Seq<(Seq<I>, u64, Z, Z)>) -> Seq<LoopEvent<I, Z>>
    decreases envs.len(),
{
    if envs.len() == 0 {
        Seq::empty()
    } else {
        let e = envs[0];
        tick_events(last, e.0, false, e.1, e.2, e.3) + ticks_events(e.1, envs.drop_first())
    }
}

proof fn lemma_count_inputs<I, Z>(inputs: Seq<I>)
    ensures
        count_of(wrap_inputs::<I, Z>(inputs), is_update()) == 0,
        count_of(wrap_inputs::<I, Z>(inputs), is_render()) == 0,
    decreases inputs.len(),
{
    if inputs.len() > 0 {
        assert(wrap_inputs::<I, Z>(inputs).drop_first() =~= wrap_inputs::<I, Z>(inputs.drop_first()));
        lemma_count_inputs::<I, Z>(inputs.drop_first());
    }
}

proof fn lemma_count_tick<I, Z>(last: u64, inputs: Seq<I>, now: u64, size: Z, draw_size: Z)
    ensures
        count_of(tick_events(last, inputs, false, now, size, draw_size), is_update()) == 1,
        count_of(tick_events(last, inputs, false, now, size, draw_size), is_render()) == 1,
{
    let a: Seq<LoopEvent<I, Z>> = seq![LoopEvent::AfterRender];
    let w = wrap_inputs::<I, Z>(inputs);
    let dt = elapsed(last, now);
    let c: Seq<LoopEvent<I, Z>> = seq![
        LoopEvent::Update { dt },
        LoopEvent::Render { ext_dt: dt, size, draw_size },
    ];
    lemma_count_inputs::<I, Z>(inputs);
    lemma_count_append(a, w, is_update());
    lemma_count_append(a + w, c, is_update());
    lemma_count_append(a, w, is_render());
    lemma_count_append(a + w, c, is_render());
    reveal_with_fuel(count_of, 3);
    assert(a.drop_first() =~= Seq::empty());
    assert(c.drop_first().drop_first() =~= Seq::empty());
}

/// Over any number of invocations in which the window never asks to close,
/// the handler sees one block per invocation, in order: `AfterRender`, that
/// invocation's inputs, `Update`, `Render`. So there are exactly as many
/// `Update` and `Render` events as invocations, each `AfterRender` comes right
/// after the previous invocation's `Render`, nothing is cancelled, and the
/// driver ends between ticks, as it began, holding one timestamp.
pub proof fn lemma_ticks<I, Z>(d: CoopDriver, envs: Seq<(Seq<I>, u64, Z, Z)>)
    requires
        d.phase == Phase::Idle,
    ensures
        dispatched(run_spec(d, ticks_signals(envs)).1) == ticks_events(d.last_updated, envs),
        count_of(ticks_events(d.last_updated, envs), is_update()) == envs.len(),
        count_of(ticks_events(d.last_updated, envs), is_render()) == envs.len(),
        cancellations(run_spec(d, ticks_signals(envs)).1) == 0,
        run_spec(d, ticks_signals(envs)).0.phase == Phase::Idle,
        envs.len() > 0 ==> run_spec(d, ticks_signals(envs)).0.last_updated == envs.last().1,
    decreases envs.len(),
{
    if envs.len() == 0 {
        assert(ticks_signals(envs) =~= Seq::<HostSignal<I, Z>>::empty());
    } else {
        let e = envs[0];
        let rest = envs.drop_first();
        let s1 = tick_signals(e.0, false, e.1, e.2, e.3);
        lemma_tick(d, e.0, false, e.1, e.2, e.3);
        let (d1, a1) = run_spec(d, s1);
        lemma_ticks(d1, rest);
        lemma_run_append(d, s1, ticks_signals(rest));
        lemma_dispatched_append(a1, run_spec(d1, ticks_signals(rest)).1);
        let t1 = tick_events(d.last_updated, e.0, false, e.1, e.2, e.3);
        lemma_count_tick(d.last_updated, e.0, e.1, e.2, e.3);
        lemma_count_append(t1, ticks_events(e.1, rest), is_update());
        lemma_count_append(t1, ticks_events(e.1, rest), is_render());
        if rest.len() > 0 {
            assert(rest.last() == envs.last());
        }
    }
}

/// After the registration is cancelled, no signal brings any action or change.
pub proof fn lemma_cancelled_is_final<I, Z>(d: CoopDriver, sigs: Seq<HostSignal<I, Z>>)
    requires
        d.phase == Phase::Cancelled,
    ensures
        run_spec(d, sigs) == (d, Seq::<HostAction<I, Z>>::empty()),
    decreases sigs.len(),
{
    if sigs.len() > 0 {
        lemma_cancelled_is_final(d, sigs.drop_first());
        assert(Seq::<HostAction<I, Z>>::empty() + Seq::empty() =~= Seq::<HostAction<I, Z>>::empty());
    }
}

/// An invocation that finds the window asking to close cancels the
/// registration exactly once, and whatever the host sends afterwards brings no
/// further action: no event reaches the handler again.
pub proof fn lemma_close_ends_run<I, Z>(
    d: CoopDriver,
    inputs: Seq<I>,
    now: u64,
    size: Z,
    draw_size: Z,
    later: Seq<HostSignal<I, Z>>,
)
    requires
        d.phase == Phase::Idle,
    ensures
        run_spec(d, tick_signals(inputs, true, now, size, draw_size) + later)
            == run_spec(d, tick_signals(inputs, true, now, size, draw_size)),
        cancellations(run_spec(d, tick_signals(inputs, true, now, size, draw_size) + later).1) == 1,
        run_spec(d, tick_signals(inputs, true, now, size, draw_size) + later).0.phase == Phase::Cancelled,
{
    let s = tick_signals(inputs, true, now, size, draw_size);
    lemma_tick(d, inputs, true, now, size, draw_size);
    lemma_run_append(d, s, later);
    let (d1, a1) = run_spec(d, s);
    lemma_cancelled_is_final(d1, later);
    assert(a1 + Seq::<HostAction<I, Z>>::empty() =~= a1);
}

/// The delta of an `Update` is the clock's advance since the previous
/// reading, never negative: a clock that did not advance gives zero.
pub proof fn lemma_update_delta<I, Z>(d: CoopDriver, now: u64)
    requires
        d.phase == Phase::Timing,
    ensures
        step_spec(d, HostSignal::<I, Z>::Now(now)).1[0] == HostAction::<I, Z>::Dispatch(LoopEvent::Update { dt: elapsed(d.last_updated, now) }),
        now >= d.last_updated ==> elapsed(d.last_updated, now) == now - d.last_updated,
        now <= d.last_updated ==> elapsed(d.last_updated, now) == 0,
        step_spec(d, HostSignal::<I, Z>::Now(now)).0.last_updated == now,
{
}

} // verus!
