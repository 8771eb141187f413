use std::collections::HashSet;
use vstd::prelude::*;
use vstd::std_specs::hash::group_hash_axioms;

use crate::codec::{response_of, Error, Message};

verus! {

broadcast use group_hash_axioms;

/// What a connection handler hands to the dispatch loop: the connection a
/// frame came from, and what decoding it gave.
#[derive(Debug)]
pub struct Envelope {
    pub conn: u64,
    pub result: Result<Message, Error>,
}

/// What the dispatch loop does with one envelope.
#[derive(Debug)]
pub enum Action {
    /// Write `message` back to connection `conn`.
    Reply { conn: u64, message: Message },
    /// Report a frame of `conn` that held no message; nothing is written.
    ReportFramingError { conn: u64, error: Error },
    /// Report a message of `conn` that expects no reply where it came.
    ReportUnexpected { conn: u64, message: Message },
    /// Report that the reply `message` is owed to `conn`, which has closed.
    ReportClosed { conn: u64, message: Message },
}

/// The connection that an action concerns.
pub open spec fn action_conn(a: Action) -> u64 {
    match a {
        Action::Reply { conn, .. } => conn,
        Action::ReportFramingError { conn, .. } => conn,
        Action::ReportUnexpected { conn, .. } => conn,
        Action::ReportClosed { conn, .. } => conn,
    }
}

/// The action owed to an envelope while the connections in `live` are open.
pub open spec fn action_for(live: Set<u64>, e: Envelope) -> Action {
    match e.result {
        Err(error) => Action::ReportFramingError { conn: e.conn, error },
        Ok(message) => match response_of(message) {
            None => Action::ReportUnexpected { conn: e.conn, message },
            Some(reply) => if live.contains(e.conn) {
                Action::Reply { conn: e.conn, message: reply }
            } else {
                Action::ReportClosed { conn: e.conn, message: reply }
            },
        },
    }
}

/// The actions of the dispatch loop on a run of envelopes, in queue order.
pub open spec fn trace(live: Set<u64>, envs: Seq<Envelope>) -> Seq<Action> {
    envs.map_values(|e: Envelope| action_for(live, e))
}

/// The envelopes that came from connection `c`, in queue order.
pub open spec fn from_conn(envs: Seq<Envelope>, c: u64) -> Seq<Envelope> {
    envs.filter(|e: Envelope| e.conn == c)
}

/// The actions that concern connection `c`, in the order they are taken.
pub open spec fn on_conn(actions: Seq<Action>, c: u64) -> Seq<Action> {
    actions.filter(|a: Action| action_conn(a) == c)
}

/// The single consumer of decoded frames: it knows which connections are
/// open and decides, frame by frame, what to write and what to report.
pub struct Dispatcher {
    live: HashSet<u64>,
}

impl View for Dispatcher {
    type V = Set<u64>;

    /// The connections that are open.
    closed spec fn view(&self) -> Set<u64> {
        self.live@
    }
}

impl Dispatcher {
    /// A dispatcher with no connection open.
    pub fn new() -> (r: Dispatcher)
        ensures
            r@ == Set::<u64>::empty(),
    {
        Dispatcher { live: HashSet::new() }
    }

    /// Records that connection `conn` was accepted.
    pub fn open(&mut self, conn: u64)
        ensures
            final(self)@ == old(self)@.insert(conn),
    {
        self.live.insert(conn);
    }

    /// Records that connection `conn` has closed.
    pub fn close(&mut self, conn: u64)
        ensures
            final(self)@ == old(self)@.remove(conn),
    {
        self.live.remove(&conn);
    }

    /// Whether connection `conn` is open.
    pub fn is_open(&self, conn: u64) -> (r: bool)
        ensures
            r == self@.contains(conn),
    {
        self.live.contains(&conn)
    }

    /// Decides what to do with one envelope: a decode error is reported, a
    /// message that expects a reply gets it on its own connection (or a
    /// report if that connection has closed), any other message is reported
    /// as unexpected.
    pub fn process_message(&self, env: Envelope) -> (r: Action)
        ensures
            r == action_for(self@, env),
    {
        match env.result {
            Err(error) => Action::ReportFramingError { conn: env.conn, error },
            Ok(message) => match message.response() {
                None => Action::ReportUnexpected { conn: env.conn, message },
                Some(reply) => if self.is_open(env.conn) {
                    Action::Reply { conn: env.conn, message: reply }
                } else {
                    Action::ReportClosed { conn: env.conn, message: reply }
                },
            },
        }
    }
}

/// The actions that the dispatch loop takes on connection `c` are exactly
/// those owed to `c`'s own envelopes, in the order `c` sent them: a frame
/// that `c` sent first is handled first.
pub proof fn lemma_connection_order(live: Set<u64>, envs: Seq<Envelope>, c: u64)
    ensures
        on_conn(trace(live, envs), c) == trace(live, from_conn(envs, c)),
    decreases envs.len(),
{
    if envs.len() == 0 {
        assert(trace(live, envs) =~= Seq::<Action>::empty());
        assert(trace(live, from_conn(envs, c)) =~= Seq::<Action>::empty());
    } else {
        let init = envs.drop_last();
        let e = envs.last();
        lemma_connection_order(live, init, c);
        assert(envs =~= init.push(e));
        assert(trace(live, envs) =~= trace(live, init).push(action_for(live, e)));
        init.lemma_filter_push(e, |x: Envelope| x.conn == c);
        trace(live, init).lemma_filter_push(action_for(live, e), |a: Action| action_conn(a) == c);
        if e.conn == c {
            assert(trace(live, from_conn(init, c).push(e)) =~= trace(live, from_conn(init, c)).push(
                action_for(live, e),
            ));
        }
    }
}

/// A malformed frame from connection `a` is reported as a framing error of
/// `a`, and it changes nothing of what the dispatch loop does on any other
/// connection `b`.
pub proof fn lemma_connection_isolation(
    live: Set<u64>,
    before: Seq<Envelope>,
    bad: Envelope,
    after: Seq<Envelope>,
    b: u64,
)
    requires
        bad.result is Err,
        bad.conn != b,
    ensures
        action_for(live, bad) is ReportFramingError,
        action_conn(action_for(live, bad)) == bad.conn,
        on_conn(trace(live, before + seq![bad] + after), b) == on_conn(
            trace(live, before + after),
            b,
        ),
{
    let pred = |e: Envelope| e.conn == b;
    lemma_connection_order(live, before + seq![bad] + after, b);
    lemma_connection_order(live, before + after, b);
    Seq::filter_distributes_over_add(before + seq![bad], after, pred);
    Seq::filter_distributes_over_add(before, seq![bad], pred);
    Seq::filter_distributes_over_add(before, after, pred);
    seq![bad].lemma_filter_push(bad, pred);
    Seq::<Envelope>::empty().lemma_filter_push(bad, pred);
    assert(Seq::<Envelope>::empty().push(bad) =~= seq![bad]);
    assert(from_conn(before, b) + Seq::<Envelope>::empty() =~= from_conn(before, b));
}

} // verus!
