//! What was done on a host, told by the words of the commands that were carried out.
use crate::session::{
    attempt_all, demanded, extends, lemma_run_all_extends, run_all, CommandView, EffectView,
    ReplyView, Trace,
};
use crate::text::contains;
use vstd::prelude::*;

verus! {

/// Whether a command consists of a program and words.
pub open spec fn spelled(c: CommandView, program: Seq<char>, args: Seq<Seq<char>>) -> bool {
    c.program == program && c.args == args
}

/// Whether the effect at `k` is a command of the given words that the host carried out.
pub open spec fn carried_out_at(
    u: Trace,
    k: int,
    program: Seq<char>,
    args: Seq<Seq<char>>,
) -> bool {
    &&& 0 <= k < u.issued.len()
    &&& k < u.replies.len()
    &&& u.issued[k] matches EffectView::Run(c) && spelled(c, program, args)
    &&& u.replies[k] == ReplyView::Finished(true)
}

/// Whether a command of the given words was carried out behind a trace.
pub open spec fn carried_out(
    t: Trace,
    u: Trace,
    program: Seq<char>,
    args: Seq<Seq<char>>,
) -> bool {
    exists|k: int| t.issued.len() <= k && #[trigger] carried_out_at(u, k, program, args)
}

/// Whether a command of the given words was issued behind a trace, whatever became of it.
pub open spec fn was_issued(
    t: Trace,
    u: Trace,
    program: Seq<char>,
    args: Seq<Seq<char>>,
) -> bool {
    exists|k: int|
        t.issued.len() <= k < u.issued.len() && ((#[trigger] u.issued[k]) matches EffectView::Run(c)
            && spelled(c, program, args))
}

pub proof fn lemma_later(
    t: Trace,
    u: Trace,
    v: Trace,
    program: Seq<char>,
    args: Seq<Seq<char>>,
)
    requires
        extends(u, v),
        carried_out(t, u, program, args),
    ensures
        carried_out(t, v, program, args),
{
    let k = choose|k: int| t.issued.len() <= k && #[trigger] carried_out_at(u, k, program, args);
    assert(v.issued[k] == v.issued.take(u.issued.len() as int)[k]);
    assert(carried_out_at(v, k, program, args));
}

pub proof fn lemma_earlier(
    t: Trace,
    u: Trace,
    v: Trace,
    program: Seq<char>,
    args: Seq<Seq<char>>,
)
    requires
        extends(t, u),
        carried_out(u, v, program, args),
    ensures
        carried_out(t, v, program, args),
{
    let k = choose|k: int| u.issued.len() <= k && #[trigger] carried_out_at(v, k, program, args);
    assert(t.issued.len() <= k && carried_out_at(v, k, program, args));
}

pub proof fn lemma_all_answered<E>(t: Trace, cs: Seq<CommandView>, failed: E, io: E)
    requires
        run_all(t, cs, failed, io).1 is Ok,
    ensures
        forall|k: int|
            t.issued.len() <= k < t.issued.len() + cs.len() ==> k < t.replies.len()
                && #[trigger] t.replies[k] == ReplyView::Finished(true),
    decreases cs.len(),
{
    if cs.len() > 0 {
        lemma_all_answered(t, cs.drop_last(), failed, io);
        lemma_run_all_extends(t, cs.drop_last(), failed, io);
    }
}

/// A list of commands that was run to its end was carried out, each command of it.
pub proof fn lemma_all_carried_out<E>(t: Trace, cs: Seq<CommandView>, failed: E, io: E, i: int)
    requires
        run_all(t, cs, failed, io).1 is Ok,
        0 <= i < cs.len(),
    ensures
        carried_out(t, run_all(t, cs, failed, io).0, cs[i].program, cs[i].args),
{
    lemma_run_all_extends(t, cs, failed, io);
    lemma_all_answered(t, cs, failed, io);
    let u = run_all(t, cs, failed, io).0;
    let k = t.issued.len() + i;
    assert(u.issued[k] == EffectView::Run(cs[k - t.issued.len()]));
    assert(u.replies[k] == t.replies[k]);
    assert(carried_out_at(u, k, cs[i].program, cs[i].args));
}

/// A command that was carried out by itself.
pub proof fn lemma_one_carried_out<E>(t: Trace, c: CommandView, failed: E, io: E)
    requires
        demanded(t.reply(), failed, io) is Ok,
    ensures
        carried_out(t, t.after(EffectView::Run(c)), c.program, c.args),
{
    let u = t.after(EffectView::Run(c));
    assert(carried_out_at(u, t.issued.len() as int, c.program, c.args));
}

/// Each command of a list that was tried to its end was issued.
pub proof fn lemma_all_issued<E>(t: Trace, cs: Seq<CommandView>, i: int)
    requires
        attempt_all::<E>(t, cs).1 is Ok,
        0 <= i < cs.len(),
    ensures
        was_issued(t, attempt_all::<E>(t, cs).0, cs[i].program, cs[i].args),
        extends(t, attempt_all::<E>(t, cs).0),
    decreases cs.len(),
{
    lemma_attempts_extend::<E>(t, cs);
    lemma_attempts_extend::<E>(t, cs.drop_last());
    let u = attempt_all::<E>(t, cs.drop_last()).0;
    let v = attempt_all::<E>(t, cs).0;
    if i < cs.len() - 1 {
        lemma_all_issued::<E>(t, cs.drop_last(), i);
        let k = choose|k: int|
            t.issued.len() <= k < u.issued.len() && ((
            #[trigger] u.issued[k]) matches EffectView::Run(c) && spelled(
                c,
                cs[i].program,
                cs[i].args,
            ));
        assert(v.issued[k] == u.issued[k]);
    } else {
        assert(v.issued[u.issued.len() as int] == EffectView::Run(cs[i]));
    }
}

pub proof fn lemma_attempts_extend<E>(t: Trace, cs: Seq<CommandView>)
    ensures
        extends(t, attempt_all::<E>(t, cs).0),
    decreases cs.len(),
{
    assert(t.issued.take(t.issued.len() as int) =~= t.issued);
    if cs.len() > 0 {
        lemma_attempts_extend::<E>(t, cs.drop_last());
        let u = attempt_all::<E>(t, cs.drop_last()).0;
        crate::session::lemma_extends_after(u, EffectView::Run(cs.last()));
        crate::session::lemma_extends_transitive(t, u, u.after(EffectView::Run(cs.last())));
    }
}

pub proof fn lemma_extends_self(t: Trace)
    ensures
        extends(t, t),
{
    assert(t.issued.take(t.issued.len() as int) =~= t.issued);
}

/// A command of a list that was run to its end was carried out, seen from before and from behind.
pub proof fn lemma_done<E>(
    t: Trace,
    u: Trace,
    cs: Seq<CommandView>,
    failed: E,
    io: E,
    v: Trace,
    i: int,
    args: Seq<Seq<char>>,
)
    requires
        extends(t, u),
        run_all(u, cs, failed, io).1 is Ok,
        extends(run_all(u, cs, failed, io).0, v),
        0 <= i < cs.len(),
        cs[i].args =~= args,
    ensures
        carried_out(t, v, cs[i].program, args),
{
    lemma_all_carried_out(u, cs, failed, io, i);
    let w = run_all(u, cs, failed, io).0;
    lemma_later(u, w, v, cs[i].program, args);
    lemma_earlier(t, u, v, cs[i].program, args);
}

/// Whether the host was asked something behind a trace and what it said.
pub open spec fn told(
    t: Trace,
    u: Trace,
    program: Seq<char>,
    args: Seq<Seq<char>>,
    found: bool,
    text: Seq<char>,
) -> bool {
    exists|k: int| t.issued.len() <= k && #[trigger] told_at(u, k, program, args, found, text)
}

/// Whether the effect at `k` is a question of the given words and what the host said to it.
pub open spec fn told_at(
    u: Trace,
    k: int,
    program: Seq<char>,
    args: Seq<Seq<char>>,
    found: bool,
    text: Seq<char>,
) -> bool {
    &&& 0 <= k < u.issued.len()
    &&& k < u.replies.len()
    &&& u.issued[k] matches EffectView::Query(c) && spelled(c, program, args)
    &&& u.replies[k] == ReplyView::Printed(found, text)
}

/// A question that was answered, seen from before and from behind.
pub proof fn lemma_told(
    t: Trace,
    u: Trace,
    c: CommandView,
    found: bool,
    text: Seq<char>,
    v: Trace,
    args: Seq<Seq<char>>,
)
    requires
        extends(t, u),
        u.reply() == Some(ReplyView::Printed(found, text)),
        extends(u.after(EffectView::Query(c)), v),
        c.args =~= args,
    ensures
        told(t, v, c.program, args, found, text),
{
    let k = u.issued.len() as int;
    let w = u.after(EffectView::Query(c));
    assert(v.issued[k] == v.issued.take(w.issued.len() as int)[k]);
    assert(told_at(v, k, c.program, args, found, text));
}

/// Whether the host said to a question that it found what was asked for.
pub open spec fn was_found(t: Trace, u: Trace, program: Seq<char>, args: Seq<Seq<char>>) -> bool {
    exists|text: Seq<char>| #[trigger] told(t, u, program, args, true, text)
}

/// Whether the host said to a question that it did not find what was asked for.
pub open spec fn was_missing(
    t: Trace,
    u: Trace,
    program: Seq<char>,
    args: Seq<Seq<char>>,
) -> bool {
    exists|text: Seq<char>| #[trigger] told(t, u, program, args, false, text)
}

/// Whether the host listed a text when it was asked.
pub open spec fn was_listed(
    t: Trace,
    u: Trace,
    program: Seq<char>,
    args: Seq<Seq<char>>,
    part: Seq<char>,
) -> bool {
    exists|text: Seq<char>| #[trigger]
        told(t, u, program, args, true, text) && contains(text, part)
}

/// Whether every one of some commands of a program was carried out behind a trace.
pub open spec fn all_carried_out(
    t: Trace,
    u: Trace,
    program: Seq<char>,
    list: Seq<Seq<Seq<char>>>,
) -> bool {
    forall|i: int| 0 <= i < list.len() ==> carried_out(t, u, program, #[trigger] list[i])
}

/// Commands of one program that were run to their end were carried out, all of them.
pub proof fn lemma_all_done<E>(
    t: Trace,
    u: Trace,
    cs: Seq<CommandView>,
    failed: E,
    io: E,
    v: Trace,
    program: Seq<char>,
    list: Seq<Seq<Seq<char>>>,
)
    requires
        extends(t, u),
        run_all(u, cs, failed, io).1 is Ok,
        extends(run_all(u, cs, failed, io).0, v),
        cs.len() == list.len(),
        forall|i: int|
            0 <= i < cs.len() ==> (#[trigger] cs[i]).program == program && cs[i].args =~= list[i],
    ensures
        all_carried_out(t, v, program, list),
{
    assert forall|i: int| 0 <= i < list.len() implies carried_out(
        t,
        v,
        program,
        #[trigger] list[i],
    ) by {
        assert(cs[i].program == program);
        lemma_done(t, u, cs, failed, io, v, i, list[i]);
    }
}

/// A command of a list that was tried to its end was issued, seen from before and from behind.
pub proof fn lemma_tried<E>(
    t: Trace,
    u: Trace,
    cs: Seq<CommandView>,
    v: Trace,
    i: int,
    args: Seq<Seq<char>>,
)
    requires
        extends(t, u),
        attempt_all::<E>(u, cs).1 is Ok,
        extends(attempt_all::<E>(u, cs).0, v),
        0 <= i < cs.len(),
        cs[i].args =~= args,
    ensures
        was_issued(t, v, cs[i].program, args),
{
    lemma_all_issued::<E>(u, cs, i);
    let w = attempt_all::<E>(u, cs).0;
    let k = choose|k: int|
        u.issued.len() <= k < w.issued.len() && ((#[trigger] w.issued[k]) matches EffectView::Run(c)
            && spelled(c, cs[i].program, cs[i].args));
    assert(v.issued[k] == v.issued.take(w.issued.len() as int)[k]);
}

} // verus!
