//! The per-language sub-engine: a long-lived REPL with a single current
//! execution slot, driven by the marker protocol.

use vstd::prelude::*;

use crate::repl::{is_marker, is_marker_line, make_marker, node_prompt_artifact, spec_node_artifact,
    spec_timeout_message, timeout_message, Language, Resp, Stream};
use crate::strutil::spec_trim;

verus! {

/// The ways an engine can fail.
pub enum EngineError {
    /// The engine could not start.
    Initialization(String),
    /// An evaluation could not be carried out.
    Evaluation(String),
    /// The engine is not running.
    Unavailable(String),
    /// The evaluation exceeded its timeout, in seconds.
    Timeout(u64),
}

/// The current execution of an engine: its id, its end-of-execution marker,
/// and whether the marker has been seen.
pub struct ExecutionSlot {
    /// The caller-supplied evaluation id.
    pub id: String,
    /// The marker that ends this evaluation's output.
    pub marker: String,
    /// Whether the marker has been observed on stdout.
    pub completed: bool,
}

/// One language engine: a REPL session that holds at most one current
/// execution.
pub struct EngineState {
    /// The language this engine evaluates.
    pub language: Language,
    /// Whether the underlying REPL has been started.
    pub initialized: bool,
    /// The current execution, if one is in flight.
    pub slot: Option<ExecutionSlot>,
}

impl EngineState {
    /// A well-formed engine: any current execution carries a marker of the
    /// protocol's shape.
    pub open spec fn wf(self) -> bool {
        self.slot matches Some(s) ==> is_marker(s.marker@)
    }
}

/// Creates an engine for `language`; the underlying REPL is not yet started
/// and no execution is in flight.
pub fn create_engine(language: Language) -> (r: EngineState)
    ensures
        r.language == language,
        !r.initialized,
        r.slot is None,
        r.wf(),
{
    EngineState { language, initialized: false, slot: None }
}

impl EngineState {
    /// Marks the underlying REPL as started.
    pub fn initialize(&mut self)
        ensures
            final(self).language == old(self).language,
            final(self).initialized,
            final(self).slot is None,
            final(self).wf(),
    {
        self.initialized = true;
        self.slot = None;
    }

    /// Begins an evaluation: draws a fresh marker and fills the execution
    /// slot. Returns the marker, to be appended to the code payload.
    pub fn begin_eval(&mut self, id: &str) -> (marker: String)
        requires
            old(self).initialized,
            old(self).slot is None,
        ensures
            final(self).language == old(self).language,
            final(self).initialized,
            final(self).wf(),
            is_marker(marker@),
            final(self).slot matches Some(s) && s.id@ == id@ && s.marker@ == marker@
                && !s.completed,
    {
        let marker = make_marker();
        self.slot = Some(ExecutionSlot {
            id: id.to_owned(),
            marker: marker.clone(),
            completed: false,
        });
        marker
    }

    /// Scans one stdout line.
    ///
    /// With no execution in flight the line is dropped. The first line that
    /// trims to the marker completes the execution and yields the `Done`
    /// terminal without being forwarded; later marker lines are dropped. A
    /// Node engine also drops REPL prompt artifacts. Every other line is
    /// forwarded as an output line of the current execution — never one that
    /// trims to the marker.
    pub fn observe_stdout_line(&mut self, text: &str) -> (r: Option<Resp>)
        requires
            old(self).initialized,
            old(self).wf(),
        ensures
            final(self).language == old(self).language,
            final(self).initialized == old(self).initialized,
            final(self).wf(),
            old(self).slot is None ==> r is None && final(self).slot == old(self).slot,
            old(self).slot matches Some(s) ==> {
                &&& final(self).slot matches Some(s2) && s2.id == s.id
                    && s2.marker == s.marker
                &&& spec_trim(text@) == s.marker@ && !s.completed ==> {
                    &&& r matches Some(resp) && resp matches Resp::Done { id }
                        && id@ == s.id@
                    &&& final(self).slot->0.completed
                }
                &&& spec_trim(text@) == s.marker@ && s.completed ==> r is None
                &&& spec_trim(text@) != s.marker@
                    && (old(self).language == Language::Node
                        && spec_node_artifact(text@)) ==> r is None
                        && final(self).slot->0.completed == s.completed
                &&& spec_trim(text@) != s.marker@
                    && !(old(self).language == Language::Node
                        && spec_node_artifact(text@)) ==> {
                    &&& r matches Some(resp) && resp matches Resp::OutputLine {
                        id,
                        stream,
                        text: t,
                    } && id@ == s.id@ && stream == Stream::Stdout && t@ == text@
                    &&& final(self).slot->0.completed == s.completed
                }
            },
            r matches Some(resp) ==> (resp matches Resp::OutputLine { text: t, .. }
                ==> spec_trim(t@) != old(self).slot->0.marker@),
    {
        let (id, marker, completed) = match &self.slot {
            None => {
                return None;
            }
            Some(s) => (s.id.clone(), s.marker.clone(), s.completed),
        };
        if is_marker_line(text, marker.as_str()) {
            if completed {
                return None;
            }
            self.slot = Some(ExecutionSlot { id: id.clone(), marker, completed: true });
            return Some(Resp::Done { id });
        }
        let is_node = match self.language {
            Language::Node => true,
            _ => false,
        };
        if is_node && node_prompt_artifact(text) {
            return None;
        }
        Some(Resp::OutputLine { id, stream: Stream::Stdout, text: text.to_owned() })
    }

    /// Scans one stderr line: forwarded verbatim to the current execution,
    /// or dropped when none is in flight.
    pub fn observe_stderr_line(&self, text: &str) -> (r: Option<Resp>)
        ensures
            self.slot is None ==> r is None,
            self.slot matches Some(s) ==> (r matches Some(resp)
                && resp matches Resp::OutputLine { id, stream, text: t }
                && id@ == s.id@ && stream == Stream::Stderr && t@ == text@),
    {
        match &self.slot {
            None => None,
            Some(s) => Some(Resp::OutputLine {
                id: s.id.clone(),
                stream: Stream::Stderr,
                text: text.to_owned(),
            }),
        }
    }

    /// Ends the current evaluation once it completed or its timeout expired.
    ///
    /// A completed evaluation yields nothing further (its `Done` was emitted
    /// when the marker was seen); a timed-out one yields the `Error`
    /// terminal with the timeout message. Either way the slot is cleared and
    /// the underlying REPL keeps running.
    pub fn finish_eval(&mut self, timeout_secs: u64) -> (r: Option<Resp>)
        requires
            old(self).initialized,
            old(self).slot is Some,
        ensures
            final(self).language == old(self).language,
            final(self).initialized,
            final(self).slot is None,
            final(self).wf(),
            old(self).slot->0.completed ==> r is None,
            !old(self).slot->0.completed ==> (r matches Some(resp)
                && resp matches Resp::Error { id, message }
                && id@ == old(self).slot->0.id@
                && message@ == spec_timeout_message(timeout_secs as nat)),
    {
        let slot = match self.slot.take() {
            Some(s) => s,
            None => {
                proof {
                    assert(false);
                }
                return None;
            }
        };
        if slot.completed {
            None
        } else {
            let message = timeout_message(timeout_secs);
            Some(Resp::Error { id: slot.id, message })
        }
    }

    /// Shuts the engine down: the REPL is gone and no execution is in
    /// flight.
    pub fn shutdown(&mut self)
        ensures
            final(self).language == old(self).language,
            !final(self).initialized,
            final(self).slot is None,
            final(self).wf(),
    {
        self.initialized = false;
        self.slot = None;
    }
}

} // verus!
