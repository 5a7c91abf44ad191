//! Exchanges with the host.
//!
//! An operation on the host issues effects one after another and learns from each reply what to
//! do next. A [`Session`] holds the replies that are known so far and records the effects that
//! were issued. An operation that needs a reply which is not there yet stops with
//! [`Stop::Pending`]; its caller performs the last effect that was issued, adds the reply and
//! runs the operation again from the state it started with.
use crate::domain::OwnedBinding;
use crate::model::{copy_list, same_list, views, Model};
use crate::text::same;
use vstd::prelude::*;

verus! {

// ---------------------------------------------------------------------------
// Commands
// ---------------------------------------------------------------------------

/// A program and its arguments.
#[derive(Clone, Debug, PartialEq, Eq)]
pub struct Command {
    pub program: String,
    pub args: Vec<String>,
}

/// A command as texts.
#[verifier::ext_equal]
pub struct CommandView {
    pub program: Seq<char>,
    pub args: Seq<Seq<char>>,
}

impl CommandView {
    /// The command with one more argument.
    pub open spec fn arg(self, a: Seq<char>) -> CommandView {
        CommandView { program: self.program, args: self.args.push(a) }
    }
}

/// A command without arguments.
pub open spec fn command(program: Seq<char>) -> CommandView {
    CommandView { program, args: Seq::empty() }
}

impl View for Command {
    type V = CommandView;

    open spec fn view(&self) -> CommandView {
        CommandView { program: self.program@, args: views(self.args@) }
    }
}

impl Command {
    /// A command without arguments.
    pub fn new(program: &str) -> (r: Command)
        ensures
            r@ == command(program@),
    {
        let r = Command { program: program.to_owned(), args: Vec::new() };
        assert(r@.args =~= Seq::<Seq<char>>::empty());
        r
    }

    /// The command with one more argument.
    pub fn arg(self, a: &str) -> (r: Command)
        ensures
            r@ == self@.arg(a@),
    {
        let ghost before = self@;
        let mut args = self.args;
        args.push(a.to_owned());
        let r = Command { program: self.program, args };
        assert(r@.args =~= before.args.push(a@));
        r
    }
}

impl Model for Command {
    fn copy(&self) -> (r: Self) {
        Command { program: self.program.clone(), args: copy_list(&self.args) }
    }

    fn same_as(&self, other: &Self) -> (r: bool) {
        same(self.program.as_str(), other.program.as_str()) && same_list(&self.args, &other.args)
    }
}

/// Decides whether a text is in a list.
pub fn texts_contain(v: &Vec<String>, s: &str) -> (r: bool)
    ensures
        r == views(v@).contains(s@),
{
    for i in 0..v.len()
        invariant
            forall|k: int| 0 <= k < i ==> v@[k]@ != s@,
    {
        if same(v[i].as_str(), s) {
            assert(views(v@)[i as int] == s@);
            return true;
        }
    }
    assert forall|k: int| 0 <= k < views(v@).len() implies views(v@)[k] != s@ by {
        assert(views(v@)[k] == v@[k]@);
    }
    false
}

/// Commands to be run one after another.
#[derive(Clone, Debug, PartialEq, Eq)]
pub struct Commands {
    pub list: Vec<Command>,
}

impl View for Commands {
    type V = Seq<CommandView>;

    open spec fn view(&self) -> Seq<CommandView> {
        views(self.list@)
    }
}

impl Commands {
    /// No commands.
    pub fn none() -> (r: Commands)
        ensures
            r@ == Seq::<CommandView>::empty(),
    {
        let r = Commands { list: Vec::new() };
        assert(r@ =~= Seq::<CommandView>::empty());
        r
    }

    /// The commands with one more at the end.
    pub fn push(self, c: Command) -> (r: Commands)
        ensures
            r@ == self@.push(c@),
    {
        let ghost before = self@;
        let mut list = self.list;
        list.push(c);
        let r = Commands { list };
        assert(r@ =~= before.push(c@));
        r
    }
}

// ---------------------------------------------------------------------------
// Effects and replies
// ---------------------------------------------------------------------------

/// Something an operation asks of the host.
#[derive(Clone, Debug, PartialEq, Eq)]
pub enum Effect {
    /// Run a command and read its standard output.
    Query(Command),
    /// Run a command for its exit status.
    Run(Command),
    /// Make a record of the ownership state durable.
    Save,
    /// Make the plan at hand durable.
    SavePlan,
    /// Forget the durable copy of the plan at hand.
    RemovePlan,
    /// Read the private key file at a path.
    ReadKey(String),
    /// Write the private key file at a path, which must not be there yet.
    WriteKey(String, String),
    /// Forget the durable records.
    RemoveRecords,
    /// Tell whether a text is the address and port of a socket.
    CheckEndpoint(String),
    /// Make it durable that the host's public addresses are managed.
    StoreMarker,
    /// Make the list of managed public addresses durable.
    StoreAddresses(Vec<u32>),
    /// Make the list of realized public addresses durable.
    StoreBindings(Vec<OwnedBinding>),
    /// Tell the milliseconds since some fixed moment.
    Clock,
    /// Wait for some milliseconds.
    Wait(u64),
}

/// An effect as texts.
#[verifier::ext_equal]
pub enum EffectView {
    Query(CommandView),
    Run(CommandView),
    Save,
    SavePlan,
    RemovePlan,
    ReadKey(Seq<char>),
    WriteKey(Seq<char>, Seq<char>),
    RemoveRecords,
    CheckEndpoint(Seq<char>),
    StoreMarker,
    StoreAddresses(Seq<u32>),
    StoreBindings(Seq<OwnedBinding>),
    Clock,
    Wait(u64),
}

impl View for Effect {
    type V = EffectView;

    open spec fn view(&self) -> EffectView {
        match *self {
            Effect::Query(c) => EffectView::Query(c@),
            Effect::Run(c) => EffectView::Run(c@),
            Effect::Save => EffectView::Save,
            Effect::SavePlan => EffectView::SavePlan,
            Effect::RemovePlan => EffectView::RemovePlan,
            Effect::ReadKey(p) => EffectView::ReadKey(p@),
            Effect::WriteKey(p, k) => EffectView::WriteKey(p@, k@),
            Effect::RemoveRecords => EffectView::RemoveRecords,
            Effect::CheckEndpoint(a) => EffectView::CheckEndpoint(a@),
            Effect::StoreMarker => EffectView::StoreMarker,
            Effect::StoreAddresses(v) => EffectView::StoreAddresses(v@),
            Effect::StoreBindings(v) => EffectView::StoreBindings(v@),
            Effect::Clock => EffectView::Clock,
            Effect::Wait(ms) => EffectView::Wait(ms),
        }
    }
}

/// What the host answered to an effect.
#[derive(Clone, Debug, PartialEq, Eq)]
pub enum Reply {
    /// The effect could not be performed at all.
    Failed,
    /// The effect was performed; whether it succeeded.
    Finished(bool),
    /// The command ran; whether it succeeded, and what it printed.
    Printed(bool, String),
    /// There is no private key file.
    NoKey,
    /// The private key file: whether it is a regular file that only its owner can access, and
    /// its text.
    Key(bool, String),
    /// The milliseconds since some fixed moment.
    Time(u64),
}

/// A reply as texts.
#[verifier::ext_equal]
pub enum ReplyView {
    Failed,
    Finished(bool),
    Printed(bool, Seq<char>),
    NoKey,
    Key(bool, Seq<char>),
    Time(u64),
}

impl View for Reply {
    type V = ReplyView;

    open spec fn view(&self) -> ReplyView {
        match *self {
            Reply::Failed => ReplyView::Failed,
            Reply::Finished(b) => ReplyView::Finished(b),
            Reply::Printed(b, s) => ReplyView::Printed(b, s@),
            Reply::NoKey => ReplyView::NoKey,
            Reply::Key(b, s) => ReplyView::Key(b, s@),
            Reply::Time(ms) => ReplyView::Time(ms),
        }
    }
}

/// Why an operation stopped before its end.
#[derive(Clone, Copy, Debug, PartialEq, Eq)]
pub enum Stop<E> {
    /// The reply to the last effect is not known yet.
    Pending,
    /// The operation failed.
    Failed(E),
}

// ---------------------------------------------------------------------------
// Sessions
// ---------------------------------------------------------------------------

/// The replies known so far and the effects issued so far.
#[derive(Clone, Debug, PartialEq, Eq)]
pub struct Session {
    pub replies: Vec<Reply>,
    pub issued: Vec<Effect>,
}

/// A session as texts.
#[verifier::ext_equal]
pub struct Trace {
    pub replies: Seq<ReplyView>,
    pub issued: Seq<EffectView>,
}

impl View for Session {
    type V = Trace;

    open spec fn view(&self) -> Trace {
        Trace {
            replies: views(self.replies@),
            issued: views(self.issued@),
        }
    }
}

impl Trace {
    /// The session after one more effect.
    pub open spec fn after(self, e: EffectView) -> Trace {
        Trace { replies: self.replies, issued: self.issued.push(e) }
    }

    /// The reply to the next effect, where it is known.
    pub open spec fn reply(self) -> Option<ReplyView> {
        if self.issued.len() < self.replies.len() {
            Some(self.replies[self.issued.len() as int])
        } else {
            None
        }
    }
}

/// What a query comes to: the exit status and the output, or the reason to stop.
pub open spec fn queried<E>(reply: Option<ReplyView>, io: E) -> Result<(bool, Seq<char>), Stop<E>> {
    match reply {
        None => Err(Stop::Pending),
        Some(ReplyView::Printed(b, s)) => Ok((b, s)),
        Some(_) => Err(Stop::Failed(io)),
    }
}

/// What a query comes to that may fail to run: its exit status and output, where it ran.
pub open spec fn peeked<E>(reply: Option<ReplyView>) -> Result<
    Option<(bool, Seq<char>)>,
    Stop<E>,
> {
    match reply {
        None => Err(Stop::Pending),
        Some(ReplyView::Printed(b, s)) => Ok(Some((b, s))),
        Some(_) => Ok(None),
    }
}

/// What asking for the time comes to.
pub open spec fn told_time<E>(reply: Option<ReplyView>, io: E) -> Result<u64, Stop<E>> {
    match reply {
        None => Err(Stop::Pending),
        Some(ReplyView::Time(ms)) => Ok(ms),
        Some(_) => Err(Stop::Failed(io)),
    }
}

/// What an effect without output comes to: whether it succeeded, or the reason to stop.
pub open spec fn finished<E>(reply: Option<ReplyView>, io: E) -> Result<bool, Stop<E>> {
    match reply {
        None => Err(Stop::Pending),
        Some(ReplyView::Finished(b)) => Ok(b),
        Some(_) => Err(Stop::Failed(io)),
    }
}

/// What an effect that has to succeed comes to.
pub open spec fn demanded<E>(reply: Option<ReplyView>, failed: E, io: E) -> Result<(), Stop<E>> {
    match finished(reply, io) {
        Err(stop) => Err(stop),
        Ok(true) => Ok(()),
        Ok(false) => Err(Stop::Failed(failed)),
    }
}

/// What a query's result says of the output, by its text.
pub open spec fn printed<E>(r: Result<(bool, String), Stop<E>>) -> Result<
    (bool, Seq<char>),
    Stop<E>,
> {
    match r {
        Ok((b, s)) => Ok((b, s@)),
        Err(e) => Err(e),
    }
}

/// Runs commands one after another, up to the first that does not succeed.
pub open spec fn run_all<E>(t: Trace, cs: Seq<CommandView>, failed: E, io: E) -> (
    Trace,
    Result<(), Stop<E>>,
)
    decreases cs.len(),
{
    if cs.len() == 0 {
        (t, Ok(()))
    } else {
        let (t1, r1) = run_all(t, cs.drop_last(), failed, io);
        match r1 {
            Err(stop) => (t1, Err(stop)),
            Ok(_) => (t1.after(EffectView::Run(cs.last())), demanded(t1.reply(), failed, io)),
        }
    }
}

/// A run that stopped early would have stopped at the same place with more commands behind it.
pub proof fn lemma_run_all_stops<E>(t: Trace, cs: Seq<CommandView>, n: int, failed: E, io: E)
    requires
        0 <= n <= cs.len(),
        run_all(t, cs.take(n), failed, io).1 is Err,
    ensures
        run_all(t, cs, failed, io) == run_all(t, cs.take(n), failed, io),
    decreases cs.len() - n,
{
    if n < cs.len() {
        assert(cs.take(n + 1).drop_last() =~= cs.take(n));
        lemma_run_all_stops(t, cs, n + 1, failed, io);
    } else {
        assert(cs.take(n) =~= cs);
    }
}

impl Session {
    /// A session that knows the given replies.
    pub fn new(replies: Vec<Reply>) -> (r: Session)
        ensures
            r@.replies == views(replies@),
            r@.issued == Seq::<EffectView>::empty(),
    {
        let r = Session { replies, issued: Vec::new() };
        assert(r@.issued =~= Seq::<EffectView>::empty());
        r
    }

    fn record(&mut self, e: Effect) -> (r: Option<usize>)
        ensures
            final(self)@ == old(self)@.after(e@),
            final(self).replies == old(self).replies,
            match r {
                Some(i) => i < final(self).replies.len() && old(self)@.reply() == Some(
                    final(self).replies@[i as int]@,
                ),
                None => old(self)@.reply() is None,
            },
    {
        let at: usize = self.issued.len();
        let ghost before = self@;
        self.issued.push(e);
        proof {
            assert(self@.issued =~= before.issued.push(e@));
            assert(self@.replies =~= before.replies);
        }
        if at < self.replies.len() {
            Some(at)
        } else {
            None
        }
    }

    /// Runs a command and reads what it prints.
    pub fn query<E: Copy>(&mut self, c: Command, io: E) -> (r: Result<(bool, String), Stop<E>>)
        ensures
            final(self)@ == old(self)@.after(EffectView::Query(c@)),
            printed(r) == queried(old(self)@.reply(), io),
    {
        match self.record(Effect::Query(c)) {
            None => Err(Stop::Pending),
            Some(i) => match &self.replies[i] {
                Reply::Printed(b, s) => Ok((*b, s.clone())),
                _ => Err(Stop::Failed(io)),
            },
        }
    }

    /// Runs a command that may fail to run, and reads what it prints.
    pub fn peek<E: Copy>(&mut self, c: Command) -> (r: Result<Option<(bool, String)>, Stop<E>>)
        ensures
            final(self)@ == old(self)@.after(EffectView::Query(c@)),
            key_text(r) == peeked::<E>(old(self)@.reply()),
    {
        match self.record(Effect::Query(c)) {
            None => Err(Stop::Pending),
            Some(i) => match &self.replies[i] {
                Reply::Printed(b, s) => Ok(Some((*b, s.clone()))),
                _ => Ok(None),
            },
        }
    }

    /// Asks for the time.
    pub fn clock<E: Copy>(&mut self, io: E) -> (r: Result<u64, Stop<E>>)
        ensures
            final(self)@ == old(self)@.after(EffectView::Clock),
            r == told_time(old(self)@.reply(), io),
    {
        match self.record(Effect::Clock) {
            None => Err(Stop::Pending),
            Some(i) => match &self.replies[i] {
                Reply::Time(ms) => Ok(*ms),
                _ => Err(Stop::Failed(io)),
            },
        }
    }

    /// Issues an effect that answers yes or no.
    pub fn finish<E: Copy>(&mut self, e: Effect, io: E) -> (r: Result<bool, Stop<E>>)
        ensures
            final(self)@ == old(self)@.after(e@),
            r == finished(old(self)@.reply(), io),
    {
        match self.record(e) {
            None => Err(Stop::Pending),
            Some(i) => match &self.replies[i] {
                Reply::Finished(b) => Ok(*b),
                _ => Err(Stop::Failed(io)),
            },
        }
    }

    /// Runs a command for its exit status.
    pub fn run<E: Copy>(&mut self, c: Command, io: E) -> (r: Result<bool, Stop<E>>)
        ensures
            final(self)@ == old(self)@.after(EffectView::Run(c@)),
            r == finished(old(self)@.reply(), io),
    {
        self.finish(Effect::Run(c), io)
    }

    /// Runs a command whose outcome does not matter.
    pub fn attempt<E: Copy>(&mut self, c: Command) -> (r: Result<(), Stop<E>>)
        ensures
            final(self)@ == old(self)@.after(EffectView::Run(c@)),
            r == attempted::<E>(old(self)@.reply()),
    {
        match self.record(Effect::Run(c)) {
            None => Err(Stop::Pending),
            Some(_) => Ok(()),
        }
    }

    /// Issues an effect whose outcome does not matter.
    pub fn attempt_effect<E: Copy>(&mut self, e: Effect) -> (r: Result<(), Stop<E>>)
        ensures
            final(self)@ == old(self)@.after(e@),
            r == attempted::<E>(old(self)@.reply()),
    {
        match self.record(e) {
            None => Err(Stop::Pending),
            Some(_) => Ok(()),
        }
    }

    /// Reads the private key file.
    pub fn read_key<E: Copy>(&mut self, path: &str, io: E) -> (r: Result<Option<(bool, String)>, Stop<E>>)
        ensures
            final(self)@ == old(self)@.after(EffectView::ReadKey(path@)),
            key_text(r) == key_read(old(self)@.reply(), io),
    {
        match self.record(Effect::ReadKey(path.to_owned())) {
            None => Err(Stop::Pending),
            Some(i) => match &self.replies[i] {
                Reply::NoKey => Ok(None),
                Reply::Key(b, s) => Ok(Some((*b, s.clone()))),
                _ => Err(Stop::Failed(io)),
            },
        }
    }

    /// Issues an effect that has to succeed.
    pub fn demand<E: Copy>(&mut self, e: Effect, failed: E, io: E) -> (r: Result<(), Stop<E>>)
        ensures
            final(self)@ == old(self)@.after(e@),
            r == demanded(old(self)@.reply(), failed, io),
    {
        match self.finish(e, io) {
            Err(stop) => Err(stop),
            Ok(true) => Ok(()),
            Ok(false) => Err(Stop::Failed(failed)),
        }
    }

    /// Runs commands one after another, whatever comes of them.
    pub fn attempt_all<E: Copy>(&mut self, cs: &Commands) -> (r: Result<(), Stop<E>>)
        ensures
            (final(self)@, r) == attempt_all::<E>(old(self)@, cs@),
    {
        let ghost start = self@;
        assert(cs@.take(0) =~= Seq::<CommandView>::empty());
        for i in 0..cs.list.len()
            invariant
                start == old(self)@,
                (self@, Ok::<(), Stop<E>>(())) == attempt_all::<E>(start, cs@.take(i as int)),
        {
            let c = cs.list[i].copy();
            let ghost cv = c@;
            let r = self.attempt::<E>(c);
            proof {
                assert(cs@.take(i + 1).drop_last() =~= cs@.take(i as int));
                assert(cs@.take(i + 1).last() == cv);
                assert((self@, r) == attempt_all::<E>(start, cs@.take(i + 1)));
            }
            match r {
                Err(stop) => {
                    proof {
                        lemma_attempt_all_stops::<E>(start, cs@, i + 1);
                    }
                    return Err(stop);
                },
                Ok(_) => {},
            }
        }
        assert(cs@.take(cs@.len() as int) =~= cs@);
        Ok(())
    }

    /// Runs commands one after another, up to the first that does not succeed.
    pub fn run_all<E: Copy>(&mut self, cs: &Commands, failed: E, io: E) -> (r: Result<(), Stop<E>>)
        ensures
            (final(self)@, r) == run_all(old(self)@, cs@, failed, io),
    {
        let ghost start = self@;
        assert(cs@.take(0) =~= Seq::<CommandView>::empty());
        for i in 0..cs.list.len()
            invariant
                start == old(self)@,
                (self@, Ok::<(), Stop<E>>(())) == run_all(start, cs@.take(i as int), failed, io),
        {
            let c = cs.list[i].copy();
            let ghost t1 = self@;
            let ghost cv = c@;
            let r = self.demand(Effect::Run(c), failed, io);
            proof {
                assert(cs@.take(i + 1).drop_last() =~= cs@.take(i as int));
                assert(cs@.take(i + 1).last() == cv);
                assert((self@, r) == run_all(start, cs@.take(i + 1), failed, io));
            }
            match r {
                Err(stop) => {
                    proof {
                        lemma_run_all_stops(start, cs@, i + 1, failed, io);
                    }
                    return Err(stop);
                },
                Ok(_) => {},
            }
        }
        assert(cs@.take(cs@.len() as int) =~= cs@);
        Ok(())
    }
}

/// Runs commands one after another, whatever comes of them.
pub open spec fn attempt_all<E>(t: Trace, cs: Seq<CommandView>) -> (Trace, Result<(), Stop<E>>)
    decreases cs.len(),
{
    if cs.len() == 0 {
        (t, Ok(()))
    } else {
        let (t1, r1) = attempt_all::<E>(t, cs.drop_last());
        match r1 {
            Err(stop) => (t1, Err(stop)),
            Ok(_) => (t1.after(EffectView::Run(cs.last())), attempted::<E>(t1.reply())),
        }
    }
}

proof fn lemma_attempt_all_stops<E>(t: Trace, cs: Seq<CommandView>, n: int)
    requires
        0 <= n <= cs.len(),
        attempt_all::<E>(t, cs.take(n)).1 is Err,
    ensures
        attempt_all::<E>(t, cs) == attempt_all::<E>(t, cs.take(n)),
    decreases cs.len() - n,
{
    if n < cs.len() {
        assert(cs.take(n + 1).drop_last() =~= cs.take(n));
        lemma_attempt_all_stops::<E>(t, cs, n + 1);
    } else {
        assert(cs.take(n) =~= cs);
    }
}

/// What reading the private key file comes to: the file, where there is one.
pub open spec fn key_read<E>(reply: Option<ReplyView>, io: E) -> Result<
    Option<(bool, Seq<char>)>,
    Stop<E>,
> {
    match reply {
        None => Err(Stop::Pending),
        Some(ReplyView::NoKey) => Ok(None),
        Some(ReplyView::Key(b, s)) => Ok(Some((b, s))),
        Some(_) => Err(Stop::Failed(io)),
    }
}

/// What the result of reading the private key file says, by its text.
pub open spec fn key_text<E>(r: Result<Option<(bool, String)>, Stop<E>>) -> Result<
    Option<(bool, Seq<char>)>,
    Stop<E>,
> {
    match r {
        Ok(Some((b, s))) => Ok(Some((b, s@))),
        Ok(None) => Ok(None),
        Err(e) => Err(e),
    }
}

/// What an effect whose outcome does not matter comes to.
pub open spec fn attempted<E>(reply: Option<ReplyView>) -> Result<(), Stop<E>> {
    match reply {
        None => Err(Stop::Pending),
        Some(_) => Ok(()),
    }
}

// ---------------------------------------------------------------------------
// Laws of sessions
// ---------------------------------------------------------------------------

/// Whether a session is the continuation of another.
pub open spec fn extends(t: Trace, t1: Trace) -> bool {
    &&& t1.replies == t.replies
    &&& t.issued.len() <= t1.issued.len()
    &&& t1.issued.take(t.issued.len() as int) == t.issued
}

pub proof fn lemma_extends_after(t: Trace, e: EffectView)
    ensures
        extends(t, t.after(e)),
{
    assert(t.after(e).issued.take(t.issued.len() as int) =~= t.issued);
}

pub proof fn lemma_extends_transitive(a: Trace, b: Trace, c: Trace)
    requires
        extends(a, b),
        extends(b, c),
    ensures
        extends(a, c),
{
    let n = a.issued.len() as int;
    assert forall|k: int| 0 <= k < n implies c.issued[k] == a.issued[k] by {
        assert(c.issued[k] == c.issued.take(b.issued.len() as int)[k]);
        assert(b.issued[k] == b.issued.take(n)[k]);
    }
    assert(c.issued.take(n) =~= a.issued);
}

/// Running commands continues the session, and every command that was run is one of those given.
pub proof fn lemma_run_all_extends<E>(t: Trace, cs: Seq<CommandView>, failed: E, io: E)
    ensures
        extends(t, run_all(t, cs, failed, io).0),
        run_all(t, cs, failed, io).0.issued.len() <= t.issued.len() + cs.len(),
        forall|k: int|
            t.issued.len() <= k < run_all(t, cs, failed, io).0.issued.len()
                ==> #[trigger] run_all(t, cs, failed, io).0.issued[k] == EffectView::Run(
                cs[k - t.issued.len()],
            ),
        run_all(t, cs, failed, io).1 is Ok ==> run_all(t, cs, failed, io).0.issued.len()
            == t.issued.len() + cs.len(),
    decreases cs.len(),
{
    if cs.len() == 0 {
        assert(t.issued.take(t.issued.len() as int) =~= t.issued);
    } else {
        let head = cs.drop_last();
        lemma_run_all_extends(t, head, failed, io);
        let (t1, r1) = run_all(t, head, failed, io);
        if r1 is Ok {
            lemma_extends_after(t1, EffectView::Run(cs.last()));
            lemma_extends_transitive(t, t1, t1.after(EffectView::Run(cs.last())));
            let t2 = run_all(t, cs, failed, io).0;
            assert forall|k: int| t.issued.len() <= k < t2.issued.len() implies #[trigger] t2.issued[k]
                == EffectView::Run(cs[k - t.issued.len()]) by {
                if k < t1.issued.len() {
                    assert(t2.issued[k] == t1.issued[k]);
                }
            }
        }
    }
}

/// Whether every command that was run between two points of a session was preceded, between
/// them, by a record made durable.
pub open spec fn saved_before_runs(t: Trace, t1: Trace) -> bool {
    forall|k: int|
        t.issued.len() <= k < t1.issued.len() && (#[trigger] t1.issued[k]) is Run ==> exists|j: int|
            t.issued.len() <= j < k && (#[trigger] t1.issued[j]) is Save
}

/// Where a session goes on behind a record made durable and no command was run before that, the
/// record came before every command.
pub proof fn lemma_saved_before_runs(t: Trace, saved: Trace, t1: Trace)
    requires
        extends(t, saved),
        extends(saved, t1),
        saved.issued.len() > t.issued.len(),
        saved.issued.last() is Save,
        forall|k: int|
            t.issued.len() <= k < saved.issued.len() ==> !((#[trigger] saved.issued[k]) is Run),
    ensures
        saved_before_runs(t, t1),
{
    let j = saved.issued.len() - 1;
    assert(t1.issued[j] == t1.issued.take(saved.issued.len() as int)[j]);
    assert forall|k: int|
        t.issued.len() <= k < t1.issued.len() && (#[trigger] t1.issued[k]) is Run implies exists|
        j: int,
    | t.issued.len() <= j < k && (#[trigger] t1.issued[j]) is Save by {
        if k < saved.issued.len() {
            assert(t1.issued[k] == t1.issued.take(saved.issued.len() as int)[k]);
        }
        assert(t1.issued[j] is Save);
    }
}

} // verus!
