//! The reducer invoker: a strictly sequential fold of a message batch
//! through the application's reducer.
use vstd::prelude::*;

verus! {

/// The commands that one reducer step contributes: none, or the one it emitted.
pub open spec fn emitted<Cmd>(c: Option<Cmd>) -> Seq<Cmd> {
    match c {
        Some(x) => seq![x],
        None => Seq::empty(),
    }
}

/// The commands of a run of reducer steps, in emission order.
pub open spec fn emitted_all<Cmd>(outs: Seq<Option<Cmd>>) -> Seq<Cmd>
    decreases outs.len(),
{
    if outs.len() == 0 {
        Seq::empty()
    } else {
        emitted_all(outs.drop_last()) + emitted(outs.last())
    }
}

/// `models` and `outs` record a run of `update` over `msgs` from `model`:
/// step `i` takes `models[i]` and `msgs[i]` to `models[i + 1]`, emitting `outs[i]`.
pub open spec fn is_trace<M, Msg, Cmd, F: Fn(M, Msg) -> (M, Option<Cmd>)>(
    update: F,
    model: M,
    msgs: Seq<Msg>,
    models: Seq<M>,
    outs: Seq<Option<Cmd>>,
) -> bool {
    &&& models.len() == msgs.len() + 1
    &&& outs.len() == msgs.len()
    &&& models[0] == model
    &&& forall|i: int|
        0 <= i < msgs.len() ==> call_ensures(
            update,
            (#[trigger] models[i], msgs[i]),
            (models[i + 1], outs[i]),
        )
}

/// `update` can take `model` through `msgs`, one message at a time and in
/// order, ending at `end` and emitting `cmds` in emission order.
pub open spec fn folds_to<M, Msg, Cmd, F: Fn(M, Msg) -> (M, Option<Cmd>)>(
    update: F,
    model: M,
    msgs: Seq<Msg>,
    end: M,
    cmds: Seq<Cmd>,
) -> bool {
    exists|models: Seq<M>, outs: Seq<Option<Cmd>>|
        #[trigger] is_trace(update, model, msgs, models, outs) && end == models.last() && cmds
            == emitted_all(outs)
}

/// `models` records a run of the commandless `update` over `msgs` from `model`.
pub open spec fn is_plain_trace<M, Msg, F: Fn(M, Msg) -> M>(
    update: F,
    model: M,
    msgs: Seq<Msg>,
    models: Seq<M>,
) -> bool {
    &&& models.len() == msgs.len() + 1
    &&& models[0] == model
    &&& forall|i: int|
        0 <= i < msgs.len() ==> call_ensures(update, (#[trigger] models[i], msgs[i]), models[i + 1])
}

/// The commandless variant: `update` can take `model` through `msgs` in
/// order, ending at `end`.
pub open spec fn folds_plain_to<M, Msg, F: Fn(M, Msg) -> M>(
    update: F,
    model: M,
    msgs: Seq<Msg>,
    end: M,
) -> bool {
    exists|models: Seq<M>| #[trigger] is_plain_trace(update, model, msgs, models) && end == models.last()
}

/// The commands of two runs laid end to end are those of the first run
/// followed by those of the second.
pub proof fn lemma_emitted_all_append<Cmd>(a: Seq<Option<Cmd>>, b: Seq<Option<Cmd>>)
    ensures
        emitted_all(a + b) == emitted_all(a) + emitted_all(b),
    decreases b.len(),
{
    if b.len() == 0 {
        assert(a + b =~= a);
        assert(emitted_all(a) + emitted_all(b) =~= emitted_all(a));
    } else {
        assert((a + b).drop_last() =~= a + b.drop_last());
        lemma_emitted_all_append(a, b.drop_last());
        assert(emitted_all(a) + emitted_all(b) =~= emitted_all(a) + emitted_all(b.drop_last())
            + emitted(b.last()));
    }
}

/// Reducing `first` in one frame and `second` in the next is a reduction of
/// the single batch `first + second`: same final model, and the commands of
/// the two frames in order.
pub proof fn lemma_frames_compose<M, Msg, Cmd, F: Fn(M, Msg) -> (M, Option<Cmd>)>(
    update: F,
    model: M,
    first: Seq<Msg>,
    mid: M,
    first_cmds: Seq<Cmd>,
    second: Seq<Msg>,
    end: M,
    second_cmds: Seq<Cmd>,
)
    requires
        folds_to(update, model, first, mid, first_cmds),
        folds_to(update, mid, second, end, second_cmds),
    ensures
        folds_to(update, model, first + second, end, first_cmds + second_cmds),
{
    let (models1, outs1) = choose|models1: Seq<M>, outs1: Seq<Option<Cmd>>|
        is_trace(update, model, first, models1, outs1) && mid == models1.last() && first_cmds
            == emitted_all(outs1);
    let (models2, outs2) = choose|models2: Seq<M>, outs2: Seq<Option<Cmd>>|
        is_trace(update, mid, second, models2, outs2) && end == models2.last() && second_cmds
            == emitted_all(outs2);
    let msgs = first + second;
    let models = models1 + models2.drop_first();
    let outs = outs1 + outs2;
    let n = first.len() as int;
    assert forall|i: int| 0 <= i < msgs.len() implies call_ensures(
        update,
        (#[trigger] models[i], msgs[i]),
        (models[i + 1], outs[i]),
    ) by {
        if i < n {
            assert(models[i] == models1[i]);
            assert(models[i + 1] == models1[i + 1]);
        } else {
            let j = i - n;
            assert(models[i] == models2[j]);
            assert(models[i + 1] == models2[j + 1]);
            assert(msgs[i] == second[j]);
            assert(outs[i] == outs2[j]);
        }
    }
    assert(models.last() == models2.last());
    lemma_emitted_all_append(outs1, outs2);
    assert(is_trace(update, model, msgs, models, outs));
}

/// A reduction of the batch `first + second` passes through a model at the
/// boundary: it is a reduction of `first` followed by one of `second`, as
/// two frames would do it.
pub proof fn lemma_batch_splits<M, Msg, Cmd, F: Fn(M, Msg) -> (M, Option<Cmd>)>(
    update: F,
    model: M,
    first: Seq<Msg>,
    second: Seq<Msg>,
    end: M,
    cmds: Seq<Cmd>,
)
    requires
        folds_to(update, model, first + second, end, cmds),
    ensures
        exists|mid: M, first_cmds: Seq<Cmd>, second_cmds: Seq<Cmd>|
            folds_to(update, model, first, mid, first_cmds) && folds_to(
                update,
                mid,
                second,
                end,
                second_cmds,
            ) && cmds == first_cmds + second_cmds,
{
    let msgs = first + second;
    let (models, outs) = choose|models: Seq<M>, outs: Seq<Option<Cmd>>|
        is_trace(update, model, msgs, models, outs) && end == models.last() && cmds
            == emitted_all(outs);
    let n = first.len() as int;
    let models1 = models.subrange(0, n + 1);
    let outs1 = outs.subrange(0, n);
    let models2 = models.subrange(n, models.len() as int);
    let outs2 = outs.subrange(n, outs.len() as int);
    assert forall|i: int| 0 <= i < first.len() implies call_ensures(
        update,
        (#[trigger] models1[i], first[i]),
        (models1[i + 1], outs1[i]),
    ) by {
        assert(models1[i] == models[i]);
        assert(msgs[i] == first[i]);
    }
    assert forall|j: int| 0 <= j < second.len() implies call_ensures(
        update,
        (#[trigger] models2[j], second[j]),
        (models2[j + 1], outs2[j]),
    ) by {
        assert(models2[j] == models[n + j]);
        assert(msgs[n + j] == second[j]);
    }
    assert(is_trace(update, model, first, models1, outs1));
    assert(is_trace(update, models1.last(), second, models2, outs2));
    assert(outs1 + outs2 =~= outs);
    lemma_emitted_all_append(outs1, outs2);
    assert(folds_to(update, model, first, models1.last(), emitted_all(outs1)));
    assert(folds_to(update, models1.last(), second, end, emitted_all(outs2)));
}

/// `update` answers each model and message with one result only.
pub open spec fn is_functional<M, Msg, Cmd, F: Fn(M, Msg) -> (M, Option<Cmd>)>(update: F) -> bool {
    forall|m: M, msg: Msg, r1: (M, Option<Cmd>), r2: (M, Option<Cmd>)|
        call_ensures(update, (m, msg), r1) && call_ensures(update, (m, msg), r2) ==> r1 == r2
}

/// With a pure reducer the reduction of a batch has one outcome: whichever
/// way the messages were split into frames, the final model and the
/// commands are the same.
pub proof fn lemma_fold_unique<M, Msg, Cmd, F: Fn(M, Msg) -> (M, Option<Cmd>)>(
    update: F,
    model: M,
    msgs: Seq<Msg>,
    end1: M,
    cmds1: Seq<Cmd>,
    end2: M,
    cmds2: Seq<Cmd>,
)
    requires
        is_functional(update),
        folds_to(update, model, msgs, end1, cmds1),
        folds_to(update, model, msgs, end2, cmds2),
    ensures
        end1 == end2,
        cmds1 == cmds2,
{
    let (models1, outs1) = choose|models1: Seq<M>, outs1: Seq<Option<Cmd>>|
        is_trace(update, model, msgs, models1, outs1) && end1 == models1.last() && cmds1
            == emitted_all(outs1);
    let (models2, outs2) = choose|models2: Seq<M>, outs2: Seq<Option<Cmd>>|
        is_trace(update, model, msgs, models2, outs2) && end2 == models2.last() && cmds2
            == emitted_all(outs2);
    assert forall|k: int| 0 <= k <= msgs.len() implies models1[k] == models2[k] && (k < msgs.len()
        ==> outs1[k] == outs2[k]) by {
        lemma_traces_agree(update, model, msgs, models1, outs1, models2, outs2, k);
    }
    assert(models1 =~= models2);
    assert(outs1 =~= outs2);
}

proof fn lemma_traces_agree<M, Msg, Cmd, F: Fn(M, Msg) -> (M, Option<Cmd>)>(
    update: F,
    model: M,
    msgs: Seq<Msg>,
    models1: Seq<M>,
    outs1: Seq<Option<Cmd>>,
    models2: Seq<M>,
    outs2: Seq<Option<Cmd>>,
    k: int,
)
    requires
        is_functional(update),
        is_trace(update, model, msgs, models1, outs1),
        is_trace(update, model, msgs, models2, outs2),
        0 <= k <= msgs.len(),
    ensures
        models1[k] == models2[k],
        k < msgs.len() ==> outs1[k] == outs2[k],
    decreases k,
{
    if k > 0 {
        lemma_traces_agree(update, model, msgs, models1, outs1, models2, outs2, k - 1);
        let r1 = (models1[k], outs1[k - 1]);
        let r2 = (models2[k], outs2[k - 1]);
        assert(call_ensures(update, (models1[k - 1], msgs[k - 1]), r1));
        assert(call_ensures(update, (models2[k - 1], msgs[k - 1]), r2));
    }
    if k < msgs.len() {
        let r1 = (models1[k + 1], outs1[k]);
        let r2 = (models2[k + 1], outs2[k]);
        assert(call_ensures(update, (models1[k], msgs[k]), r1));
        assert(call_ensures(update, (models2[k], msgs[k]), r2));
    }
}

/// For a commandless reducer, reducing `first` in one frame and `second` in
/// the next is a reduction of the single batch `first + second`.
pub proof fn lemma_plain_frames_compose<M, Msg, F: Fn(M, Msg) -> M>(
    update: F,
    model: M,
    first: Seq<Msg>,
    mid: M,
    second: Seq<Msg>,
    end: M,
)
    requires
        folds_plain_to(update, model, first, mid),
        folds_plain_to(update, mid, second, end),
    ensures
        folds_plain_to(update, model, first + second, end),
{
    let models1 = choose|models1: Seq<M>|
        is_plain_trace(update, model, first, models1) && mid == models1.last();
    let models2 = choose|models2: Seq<M>|
        is_plain_trace(update, mid, second, models2) && end == models2.last();
    let msgs = first + second;
    let models = models1 + models2.drop_first();
    let n = first.len() as int;
    assert forall|i: int| 0 <= i < msgs.len() implies call_ensures(
        update,
        (#[trigger] models[i], msgs[i]),
        models[i + 1],
    ) by {
        if i < n {
            assert(models[i] == models1[i]);
            assert(models[i + 1] == models1[i + 1]);
        } else {
            let j = i - n;
            assert(models[i] == models2[j]);
            assert(models[i + 1] == models2[j + 1]);
            assert(msgs[i] == second[j]);
        }
    }
    assert(models.last() == models2.last());
    assert(is_plain_trace(update, model, msgs, models));
}

/// The commandless `update` answers each model and message with one result only.
pub open spec fn is_plain_functional<M, Msg, F: Fn(M, Msg) -> M>(update: F) -> bool {
    forall|m: M, msg: Msg, r1: M, r2: M|
        call_ensures(update, (m, msg), r1) && call_ensures(update, (m, msg), r2) ==> r1 == r2
}

/// With a pure commandless reducer the reduction of a batch has one outcome.
pub proof fn lemma_plain_fold_unique<M, Msg, F: Fn(M, Msg) -> M>(
    update: F,
    model: M,
    msgs: Seq<Msg>,
    end1: M,
    end2: M,
)
    requires
        is_plain_functional(update),
        folds_plain_to(update, model, msgs, end1),
        folds_plain_to(update, model, msgs, end2),
    ensures
        end1 == end2,
{
    let models1 = choose|models1: Seq<M>|
        is_plain_trace(update, model, msgs, models1) && end1 == models1.last();
    let models2 = choose|models2: Seq<M>|
        is_plain_trace(update, model, msgs, models2) && end2 == models2.last();
    assert forall|k: int| 0 <= k <= msgs.len() implies models1[k] == models2[k] by {
        lemma_plain_traces_agree(update, model, msgs, models1, models2, k);
    }
    assert(models1 =~= models2);
}

proof fn lemma_plain_traces_agree<M, Msg, F: Fn(M, Msg) -> M>(
    update: F,
    model: M,
    msgs: Seq<Msg>,
    models1: Seq<M>,
    models2: Seq<M>,
    k: int,
)
    requires
        is_plain_functional(update),
        is_plain_trace(update, model, msgs, models1),
        is_plain_trace(update, model, msgs, models2),
        0 <= k <= msgs.len(),
    ensures
        models1[k] == models2[k],
    decreases k,
{
    if k > 0 {
        lemma_plain_traces_agree(update, model, msgs, models1, models2, k - 1);
        assert(call_ensures(update, (models1[k - 1], msgs[k - 1]), models1[k]));
        assert(call_ensures(update, (models2[k - 1], msgs[k - 1]), models2[k]));
    }
}

/// Frames run one after another, frame `i` reducing `frames[i]` from
/// `models[i]` to `models[i + 1]` and emitting `cmds[i]`, are together one
/// reduction of all their messages in order, from the first model to the
/// last, emitting all their commands in order.
pub proof fn lemma_frames_fold<M, Msg, Cmd, F: Fn(M, Msg) -> (M, Option<Cmd>)>(
    update: F,
    frames: Seq<Seq<Msg>>,
    models: Seq<M>,
    cmds: Seq<Seq<Cmd>>,
)
    requires
        models.len() == frames.len() + 1,
        cmds.len() == frames.len(),
        forall|i: int|
            0 <= i < frames.len() ==> folds_to(
                update,
                #[trigger] models[i],
                frames[i],
                models[i + 1],
                cmds[i],
            ),
    ensures
        folds_to(update, models[0], frames.flatten(), models.last(), cmds.flatten()),
    decreases frames.len(),
{
    if frames.len() == 0 {
        let trace = seq![models[0]];
        assert(is_trace(update, models[0], Seq::<Msg>::empty(), trace, Seq::<Option<Cmd>>::empty()));
        assert(emitted_all(Seq::<Option<Cmd>>::empty()) =~= Seq::<Cmd>::empty());
    } else {
        let n = frames.len() - 1;
        let fr = frames.drop_last();
        let ms = models.drop_last();
        let cs = cmds.drop_last();
        assert forall|i: int| 0 <= i < fr.len() implies folds_to(
            update,
            #[trigger] ms[i],
            fr[i],
            ms[i + 1],
            cs[i],
        ) by {
            assert(ms[i] == models[i]);
            assert(ms[i + 1] == models[i + 1]);
        }
        lemma_frames_fold(update, fr, ms, cs);
        assert(folds_to(update, models[n], frames[n], models[n + 1], cmds[n]));
        lemma_frames_compose(
            update,
            models[0],
            fr.flatten(),
            ms.last(),
            cs.flatten(),
            frames[n],
            models[n + 1],
            cmds[n],
        );
        fr.lemma_flatten_push(frames[n]);
        cs.lemma_flatten_push(cmds[n]);
        assert(fr.push(frames[n]) =~= frames);
        assert(cs.push(cmds[n]) =~= cmds);
    }
}

/// Under a pure reducer, frames run one after another (as in
/// `lemma_frames_fold`) reach exactly the model and commands of one frame
/// that reduces all their messages as a single batch.
pub proof fn lemma_frames_match_batch<M, Msg, Cmd, F: Fn(M, Msg) -> (M, Option<Cmd>)>(
    update: F,
    frames: Seq<Seq<Msg>>,
    models: Seq<M>,
    cmds: Seq<Seq<Cmd>>,
    batch_end: M,
    batch_cmds: Seq<Cmd>,
)
    requires
        is_functional(update),
        models.len() == frames.len() + 1,
        cmds.len() == frames.len(),
        forall|i: int|
            0 <= i < frames.len() ==> folds_to(
                update,
                #[trigger] models[i],
                frames[i],
                models[i + 1],
                cmds[i],
            ),
        folds_to(update, models[0], frames.flatten(), batch_end, batch_cmds),
    ensures
        models.last() == batch_end,
        cmds.flatten() == batch_cmds,
{
    lemma_frames_fold(update, frames, models, cmds);
    lemma_fold_unique(
        update,
        models[0],
        frames.flatten(),
        models.last(),
        cmds.flatten(),
        batch_end,
        batch_cmds,
    );
}

/// For a commandless reducer, frames run one after another, frame `i`
/// reducing `frames[i]` from `models[i]` to `models[i + 1]`, are together one
/// reduction of all their messages in order.
pub proof fn lemma_plain_frames_fold<M, Msg, F: Fn(M, Msg) -> M>(
    update: F,
    frames: Seq<Seq<Msg>>,
    models: Seq<M>,
)
    requires
        models.len() == frames.len() + 1,
        forall|i: int|
            0 <= i < frames.len() ==> folds_plain_to(
                update,
                #[trigger] models[i],
                frames[i],
                models[i + 1],
            ),
    ensures
        folds_plain_to(update, models[0], frames.flatten(), models.last()),
    decreases frames.len(),
{
    if frames.len() == 0 {
        assert(is_plain_trace(update, models[0], Seq::<Msg>::empty(), seq![models[0]]));
    } else {
        let n = frames.len() - 1;
        let fr = frames.drop_last();
        let ms = models.drop_last();
        assert forall|i: int| 0 <= i < fr.len() implies folds_plain_to(
            update,
            #[trigger] ms[i],
            fr[i],
            ms[i + 1],
        ) by {
            assert(ms[i] == models[i]);
            assert(ms[i + 1] == models[i + 1]);
        }
        lemma_plain_frames_fold(update, fr, ms);
        assert(folds_plain_to(update, models[n], frames[n], models[n + 1]));
        lemma_plain_frames_compose(update, models[0], fr.flatten(), ms.last(), frames[n], models[n + 1]);
        fr.lemma_flatten_push(frames[n]);
        assert(fr.push(frames[n]) =~= frames);
    }
}

/// Under a pure commandless reducer, frames run one after another (as in
/// `lemma_plain_frames_fold`) reach exactly the model of one frame that
/// reduces all their messages as a single batch.
pub proof fn lemma_plain_frames_match_batch<M, Msg, F: Fn(M, Msg) -> M>(
    update: F,
    frames: Seq<Seq<Msg>>,
    models: Seq<M>,
    batch_end: M,
)
    requires
        is_plain_functional(update),
        models.len() == frames.len() + 1,
        forall|i: int|
            0 <= i < frames.len() ==> folds_plain_to(
                update,
                #[trigger] models[i],
                frames[i],
                models[i + 1],
            ),
        folds_plain_to(update, models[0], frames.flatten(), batch_end),
    ensures
        models.last() == batch_end,
{
    lemma_plain_frames_fold(update, frames, models);
    lemma_plain_fold_unique(update, models[0], frames.flatten(), models.last(), batch_end);
}

/// Applies `update` to each message of `msgs` in order, threading the model
/// through and collecting the emitted commands in emission order.
pub fn reduce_batch<M, Msg, Cmd, F: Fn(M, Msg) -> (M, Option<Cmd>)>(
    update: &F,
    model: M,
    msgs: Vec<Msg>,
) -> (r: (M, Vec<Cmd>))
    requires
        forall|m: M, msg: Msg| call_requires(*update, (m, msg)),
    ensures
        folds_to(*update, model, msgs@, r.0, r.1@),
{
    let ghost start = model;
    let ghost all = msgs@;
    let ghost mut models: Seq<M> = seq![model];
    let ghost mut outs: Seq<Option<Cmd>> = Seq::empty();
    let mut model = model;
    let mut msgs = msgs;
    let mut cmds: Vec<Cmd> = Vec::new();
    let ghost mut done: int = 0;
    while msgs.len() > 0
        invariant
            forall|m: M, msg: Msg| call_requires(*update, (m, msg)),
            0 <= done <= all.len(),
            msgs@ == all.subrange(done, all.len() as int),
            is_trace(*update, start, all.subrange(0, done), models, outs),
            models.last() == model,
            cmds@ == emitted_all(outs),
        decreases msgs.len(),
    {
        let ghost prev = model;
        let msg = msgs.remove(0);
        let (next, c) = update(model, msg);
        proof {
            assert(outs.push(c).drop_last() =~= outs);
        }
        model = next;
        match c {
            Some(cmd) => {
                cmds.push(cmd);
            },
            None => {},
        }
        proof {
            let pre = all.subrange(0, done + 1);
            let models2 = models.push(model);
            let outs2 = outs.push(c);
            assert forall|i: int| 0 <= i < pre.len() implies call_ensures(
                *update,
                (#[trigger] models2[i], pre[i]),
                (models2[i + 1], outs2[i]),
            ) by {
                if i < done {
                    assert(models[i] == models2[i]);
                }
            }
            assert(cmds@ =~= emitted_all(outs2));
            models = models2;
            outs = outs2;
            done = done + 1;
            assert(msgs@ =~= all.subrange(done, all.len() as int));
        }
    }
    assert(all.subrange(0, done) =~= all);
    (model, cmds)
}

/// The commandless reducer invoker: applies `update` to each message of
/// `msgs` in order, threading the model through.
pub fn reduce_plain<M, Msg, F: Fn(M, Msg) -> M>(update: &F, model: M, msgs: Vec<Msg>) -> (r: M)
    requires
        forall|m: M, msg: Msg| call_requires(*update, (m, msg)),
    ensures
        folds_plain_to(*update, model, msgs@, r),
{
    let ghost start = model;
    let ghost all = msgs@;
    let ghost mut models: Seq<M> = seq![model];
    let mut model = model;
    let mut msgs = msgs;
    let ghost mut done: int = 0;
    while msgs.len() > 0
        invariant
            forall|m: M, msg: Msg| call_requires(*update, (m, msg)),
            0 <= done <= all.len(),
            msgs@ == all.subrange(done, all.len() as int),
            is_plain_trace(*update, start, all.subrange(0, done), models),
            models.last() == model,
        decreases msgs.len(),
    {
        let msg = msgs.remove(0);
        model = update(model, msg);
        proof {
            let pre = all.subrange(0, done + 1);
            let models2 = models.push(model);
            assert forall|i: int| 0 <= i < pre.len() implies call_ensures(
                *update,
                (#[trigger] models2[i], pre[i]),
                models2[i + 1],
            ) by {
                if i < done {
                    assert(models[i] == models2[i]);
                }
            }
            models = models2;
            done = done + 1;
            assert(msgs@ =~= all.subrange(done, all.len() as int));
        }
    }
    assert(all.subrange(0, done) =~= all);
    model
}

} // verus!
