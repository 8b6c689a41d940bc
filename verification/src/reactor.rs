//! The REPL reactor: a single consumer that takes evaluation commands in
//! arrival order and dispatches them sequentially per language.

use vstd::prelude::*;

use crate::engines::EngineError;
use crate::repl::Language;

verus! {

/// A command sent to the reactor.
pub enum Cmd {
    /// Evaluate `code` in `language` under the caller-supplied `id`.
    Eval {
        /// The caller-supplied evaluation id.
        id: String,
        /// The code to evaluate.
        code: String,
        /// The language to evaluate it in.
        language: Language,
    },
    /// Drain and close every engine.
    Shutdown,
}

/// One dispatched evaluation: its language and id, in dispatch order.
pub struct Dispatch {
    /// The language the evaluation was handed to.
    pub language: Language,
    /// The evaluation's id.
    pub id: String,
}

/// The dispatch sequence of a command stream: evaluations in arrival order,
/// cut off at the first shutdown.
pub open spec fn spec_plan(cmds: Seq<Cmd>) -> Seq<(Language, Seq<char>)>
    decreases cmds.len(),
{
    if cmds.len() == 0 {
        Seq::empty()
    } else {
        match cmds[0] {
            Cmd::Shutdown => Seq::empty(),
            Cmd::Eval { id, language, .. } => seq![(language, id@)]
                + spec_plan(cmds.subrange(1, cmds.len() as int)),
        }
    }
}

/// The ids of the evaluations for one language, in arrival order, cut off at
/// the first shutdown.
pub open spec fn spec_arrivals(cmds: Seq<Cmd>, lang: Language) -> Seq<Seq<char>>
    decreases cmds.len(),
{
    if cmds.len() == 0 {
        Seq::empty()
    } else {
        match cmds[0] {
            Cmd::Shutdown => Seq::empty(),
            Cmd::Eval { id, language, .. } => {
                let rest = spec_arrivals(cmds.subrange(1, cmds.len() as int), lang);
                if language == lang {
                    seq![id@] + rest
                } else {
                    rest
                }
            }
        }
    }
}

/// The ids of one language's dispatches, in dispatch order.
pub open spec fn spec_plan_ids(plan: Seq<(Language, Seq<char>)>, lang: Language) -> Seq<Seq<char>>
    decreases plan.len(),
{
    if plan.len() == 0 {
        Seq::empty()
    } else {
        let rest = spec_plan_ids(plan.subrange(1, plan.len() as int), lang);
        if plan[0].0 == lang {
            seq![plan[0].1] + rest
        } else {
            rest
        }
    }
}

/// Per-language dispatch is first-in-first-out: for every language, the
/// reactor dispatches that language's evaluations in exactly their arrival
/// order.
pub proof fn lemma_reactor_fifo(cmds: Seq<Cmd>, lang: Language)
    ensures
        spec_plan_ids(spec_plan(cmds), lang) == spec_arrivals(cmds, lang),
    decreases cmds.len(),
{
    if cmds.len() > 0 {
        match cmds[0] {
            Cmd::Shutdown => {}
            Cmd::Eval { id, language, .. } => {
                let rest = cmds.subrange(1, cmds.len() as int);
                lemma_reactor_fifo(rest, lang);
                let plan = spec_plan(cmds);
                assert(plan == seq![(language, id@)] + spec_plan(rest));
                assert(plan.subrange(1, plan.len() as int) =~= spec_plan(rest));
            }
        }
    }
}

/// The caller's handle onto the reactor: a model of the bounded command
/// channel, recording the commands sent and whether shutdown was requested.
pub struct EngineHandle {
    sent: Vec<Cmd>,
    shut_down: bool,
}

impl EngineHandle {
    /// The commands sent so far, in order.
    pub closed spec fn spec_sent(self) -> Seq<Cmd> {
        self.sent@
    }

    /// Whether `shutdown` has been called.
    pub closed spec fn is_shut_down(self) -> bool {
        self.shut_down
    }

    /// A fresh handle: nothing sent, not shut down.
    pub fn new() -> (r: EngineHandle)
        ensures
            r.spec_sent().len() == 0,
            !r.is_shut_down(),
    {
        EngineHandle { sent: Vec::new(), shut_down: false }
    }

    /// Submits one evaluation to the reactor under `execution_id`; fails
    /// once the reactor has been shut down.
    pub fn eval(&mut self, code: String, language: Language, execution_id: String) -> (r: Result<
        (),
        EngineError,
    >)
        ensures
            old(self).is_shut_down() ==> (r is Err
                && final(self).spec_sent() == old(self).spec_sent()
                && final(self).is_shut_down()),
            !old(self).is_shut_down() ==> {
                &&& r is Ok
                &&& !final(self).is_shut_down()
                &&& final(self).spec_sent().len() == old(self).spec_sent().len() + 1
                &&& forall|i: int| 0 <= i < old(self).spec_sent().len()
                    ==> final(self).spec_sent()[i] == old(self).spec_sent()[i]
                &&& final(self).spec_sent().last() matches Cmd::Eval { id, code: c, language: l }
                    && id@ == execution_id@ && c@ == code@ && l == language
            },
    {
        if self.shut_down {
            return Err(EngineError::Unavailable("reactor is shut down".to_owned()));
        }
        self.sent.push(Cmd::Eval { id: execution_id, code, language });
        Ok(())
    }

    /// Requests shutdown: every later `eval` fails. Requesting it twice is
    /// harmless.
    pub fn shutdown(&mut self)
        ensures
            final(self).is_shut_down(),
            old(self).is_shut_down() ==> final(self).spec_sent() == old(self).spec_sent(),
            !old(self).is_shut_down() ==> {
                &&& final(self).spec_sent().len() == old(self).spec_sent().len() + 1
                &&& forall|i: int| 0 <= i < old(self).spec_sent().len()
                    ==> final(self).spec_sent()[i] == old(self).spec_sent()[i]
                &&& final(self).spec_sent().last() is Shutdown
            },
    {
        if !self.shut_down {
            self.sent.push(Cmd::Shutdown);
            self.shut_down = true;
        }
    }
}

/// Relies on uuid's `Uuid::new_v4` and its hyphenated textual form: a fresh
/// random identifier of 36 characters. Nothing is assumed about which.
#[verifier::external_body]
pub fn new_execution_id() -> (r: String)
    ensures
        r@.len() == 36,
{
    uuid::Uuid::new_v4().to_string()
}

/// The `(language, id)` pairs of a dispatch sequence.
pub open spec fn spec_dispatch_pairs(ds: Seq<Dispatch>) -> Seq<(Language, Seq<char>)> {
    ds.map_values(|d: Dispatch| (d.language, d.id@))
}

/// Computes the dispatch order for a command stream, as the reactor's
/// consumer loop would: strictly sequential, stopping at the first shutdown.
pub fn reactor_dispatch(cmds: &Vec<Cmd>) -> (r: Vec<Dispatch>)
    ensures
        spec_dispatch_pairs(r@) == spec_plan(cmds@),
{
    let mut out: Vec<Dispatch> = Vec::new();
    let n = cmds.len();
    let mut i: usize = 0;
    proof {
        assert(cmds@.subrange(0, n as int) =~= cmds@);
        assert(spec_dispatch_pairs(out@) =~= Seq::<(Language, Seq<char>)>::empty());
    }
    while i < n
        invariant
            i <= n,
            n == cmds@.len(),
            spec_plan(cmds@) == spec_dispatch_pairs(out@)
                + spec_plan(cmds@.subrange(i as int, n as int)),
        decreases n - i,
    {
        let ghost rest = cmds@.subrange(i as int, n as int);
        proof {
            assert(rest[0] == cmds@[i as int]);
            assert(rest.subrange(1, rest.len() as int)
                =~= cmds@.subrange(i + 1, n as int));
        }
        match &cmds[i] {
            Cmd::Shutdown => {
                proof {
                    assert(spec_plan(rest) =~= Seq::<(Language, Seq<char>)>::empty());
                    assert(spec_plan(cmds@) =~= spec_dispatch_pairs(out@));
                }
                return out;
            }
            Cmd::Eval { id, language, .. } => {
                let ghost before = out@;
                out.push(Dispatch { language: *language, id: id.clone() });
                proof {
                    assert(spec_dispatch_pairs(out@)
                        =~= spec_dispatch_pairs(before)
                            + seq![(cmds@[i as int]->Eval_language, cmds@[i as int]->Eval_id@)]);
                    assert(spec_plan(rest) == seq![(
                        cmds@[i as int]->Eval_language,
                        cmds@[i as int]->Eval_id@,
                    )] + spec_plan(cmds@.subrange(i + 1, n as int)));
                    assert(spec_plan(cmds@) =~= spec_dispatch_pairs(out@)
                        + spec_plan(cmds@.subrange(i + 1, n as int)));
                }
            }
        }
        i = i + 1;
    }
    proof {
        assert(spec_plan(cmds@.subrange(n as int, n as int))
            =~= Seq::<(Language, Seq<char>)>::empty());
        assert(spec_plan(cmds@) =~= spec_dispatch_pairs(out@));
    }
    out
}

} // verus!
