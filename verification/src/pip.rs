//! Picture-in-picture frame routing. A process-wide renderer may be
//! registered once; a trusted host may also bind a renderer to one session.
//! Frames of a selected-window session go only to that session's renderer.
use vstd::prelude::*;
use crate::assoc::{assoc_map, has_key, lemma_absent, lemma_empty, lemma_lookup, unique_keys};
use crate::text::str_eq;

verus! {

/// Synthesized per-call frame payload.
pub struct PipHookFrame {
    pub png_bytes: Vec<u8>,
    pub action_label: String,
    pub timestamp_ms: u64,
}

/// A preview renderer that frames are pushed to.
pub trait PipSink {
    fn push(&self, frame: PipHookFrame);
}

/// Where a frame goes.
pub enum PipRoute {
    /// To the renderer bound to the session at this position.
    Session(usize),
    /// To the process-wide renderer.
    Global,
    /// Nowhere.
    Dropped,
}

/// The registered preview renderers.
pub struct PipHooks<S> {
    sessions: Vec<(String, S)>,
    global: Option<S>,
}

impl<S: PipSink> PipHooks<S> {
    spec fn session_seq(&self) -> Seq<(Seq<char>, S)> {
        self.sessions@.map_values(|e: (String, S)| (e.0@, e.1))
    }

    /// The renderer bound to each session.
    pub closed spec fn bound(&self) -> Map<Seq<char>, S> {
        assoc_map(self.session_seq())
    }

    /// The sessions that have a bound renderer.
    pub open spec fn sessions(&self) -> Set<Seq<char>> {
        self.bound().dom()
    }

    /// The session bound at position `i` of the registry.
    pub closed spec fn session_at(&self, i: int) -> Seq<char> {
        self.sessions@[i].0@
    }

    /// The renderer at position `i` of the registry.
    pub closed spec fn sink_at(&self, i: int) -> S {
        self.sessions@[i].1
    }

    pub closed spec fn session_count(&self) -> int {
        self.sessions@.len() as int
    }

    /// The process-wide renderer.
    pub closed spec fn global_sink(&self) -> Option<S> {
        self.global
    }

    /// Whether a process-wide renderer is registered.
    pub closed spec fn has_global(&self) -> bool {
        self.global is Some
    }

    pub closed spec fn wf(&self) -> bool {
        unique_keys(self.session_seq())
    }

    /// Whether frames of a call are consumed at all: a selected session's
    /// frames only by its own renderer, other frames by the process-wide one.
    pub open spec fn spec_enabled_for(&self, session: Option<Seq<char>>, selected: bool) -> bool {
        if selected {
            session matches Some(s) && self.sessions().contains(s)
        } else {
            self.has_global()
        }
    }

    pub fn new() -> (r: PipHooks<S>)
        ensures
            r.wf(),
            r.sessions() == Set::<Seq<char>>::empty(),
            !r.has_global(),
    {
        let r = PipHooks { sessions: Vec::new(), global: None };
        proof {
            lemma_empty(r.session_seq());
            assert(r.sessions() =~= Set::<Seq<char>>::empty());
        }
        r
    }

    fn find(&self, session: &str) -> (r: Option<usize>)
        requires
            self.wf(),
        ensures
            match r {
                Some(i) => i < self.sessions@.len() && self.sessions@[i as int].0@ == session@
                    && self.sessions().contains(session@),
                None => !self.sessions().contains(session@),
            },
    {
        for i in 0..self.sessions.len()
            invariant
                self.wf(),
                forall|j: int| 0 <= j < i ==> (#[trigger] self.sessions@[j]).0@ != session@,
        {
            if str_eq(self.sessions[i].0.as_str(), session) {
                proof {
                    assert(self.session_seq()[i as int].0 == session@);
                    lemma_lookup(self.session_seq(), i as int);
                }
                return Some(i);
            }
        }
        proof {
            assert forall|j: int| 0 <= j < self.session_seq().len() implies self.session_seq()[j].0 != session@ by {
                assert(self.session_seq()[j].0 == self.sessions@[j].0@);
            }
            lemma_absent(self.session_seq(), session@);
        }
        None
    }

    /// Bind a renderer to one trusted runtime-private session. A session that
    /// already ended cannot get a renderer back.
    pub fn set_session_pip_push_fn(&mut self, session: String, push: S, session_ended: bool) -> (r: Result<
        (),
        &'static str,
    >)
        requires
            old(self).wf(),
        ensures
            final(self).wf(),
            final(self).has_global() == old(self).has_global(),
            final(self).global_sink() == old(self).global_sink(),
            session_ended ==> r is Err && final(self).bound() == old(self).bound(),
            !session_ended ==> r is Ok && final(self).bound() == old(self).bound().insert(session@, push),
    {
        if session_ended {
            return Err("session ended before preview registration");
        }
        let ghost before = self.sessions@;
        let ghost k = session@;
        match self.find(session.as_str()) {
            Some(i) => {
                proof {
                    crate::assoc::lemma_update(self.session_seq(), i as int, push);
                }
                self.sessions.set(i, (session, push));
                proof {
                    assert(self.session_seq() =~= old(self).session_seq().update(i as int, (k, push)));
                    assert(self.bound() =~= old(self).bound().insert(k, push));
                }
            },
            None => {
                proof {
                    assert(!has_key(self.session_seq(), k));
                    crate::assoc::lemma_push(self.session_seq(), k, push);
                }
                self.sessions.push((session, push));
                proof {
                    assert(self.session_seq() =~= old(self).session_seq().push((k, push)));
                    assert(self.bound() =~= old(self).bound().insert(k, push));
                }
            },
        }
        Ok(())
    }

    /// Unbinds the session's renderer.
    pub fn clear_session(&mut self, session: &str)
        requires
            old(self).wf(),
        ensures
            final(self).wf(),
            final(self).global_sink() == old(self).global_sink(),
            final(self).bound() == old(self).bound().remove(session@),
    {
        match self.find(session) {
            Some(i) => {
                proof {
                    crate::assoc::lemma_remove(self.session_seq(), i as int);
                }
                self.sessions.remove(i);
                proof {
                    assert(self.session_seq() =~= old(self).session_seq().remove(i as int));
                    assert(self.bound() =~= old(self).bound().remove(session@));
                }
            },
            None => {
                proof {
                    assert(self.bound() =~= old(self).bound().remove(session@));
                }
            },
        }
    }

    /// Where a frame of this call goes.
    pub fn route(&self, session: Option<&str>, selected: bool) -> (r: PipRoute)
        requires
            self.wf(),
        ensures
            match r {
                PipRoute::Session(i) => selected && session is Some && i < self.session_count()
                    && self.session_at(i as int) == session.unwrap()@ && self.sink_at(i as int)
                    == self.bound()[session.unwrap()@],
                PipRoute::Global => !selected && self.has_global(),
                PipRoute::Dropped => !self.spec_enabled_for(
                    match session {
                        Some(s) => Some(s@),
                        None => None,
                    },
                    selected,
                ),
            },
            (r is Session || r is Global) <==> self.spec_enabled_for(
                match session {
                    Some(s) => Some(s@),
                    None => None,
                },
                selected,
            ),
    {
        if selected {
            match session {
                Some(s) => match self.find(s) {
                    Some(i) => {
                        proof {
                            assert(self.session_seq()[i as int].0 == s@);
                            lemma_lookup(self.session_seq(), i as int);
                        }
                        PipRoute::Session(i)
                    },
                    None => PipRoute::Dropped,
                },
                None => PipRoute::Dropped,
            }
        } else if self.global.is_some() {
            PipRoute::Global
        } else {
            PipRoute::Dropped
        }
    }

    pub fn pip_enabled_for(&self, session: Option<&str>, selected: bool) -> (r: bool)
        requires
            self.wf(),
        ensures
            r == self.spec_enabled_for(
                match session {
                    Some(s) => Some(s@),
                    None => None,
                },
                selected,
            ),
    {
        match self.route(session, selected) {
            PipRoute::Dropped => false,
            _ => true,
        }
    }

    /// Push a frame along its route; a dropped frame goes nowhere.
    pub fn push_pip_frame_for(&self, session: Option<&str>, selected: bool, frame: PipHookFrame)
        requires
            self.wf(),
    {
        match self.route(session, selected) {
            PipRoute::Session(i) => self.sessions[i].1.push(frame),
            PipRoute::Global => self.push_pip_frame(frame),
            PipRoute::Dropped => {},
        }
    }

    /// Register the process-wide renderer. Only the first registration counts.
    pub fn set_pip_push_fn(&mut self, f: S)
        requires
            old(self).wf(),
        ensures
            final(self).wf(),
            final(self).has_global(),
            final(self).bound() == old(self).bound(),
            old(self).has_global() ==> final(self).global_sink() == old(self).global_sink(),
            !old(self).has_global() ==> final(self).global_sink() == Some(f),
    {
        if self.global.is_none() {
            self.global = Some(f);
        }
        proof {
            assert(self.session_seq() == old(self).session_seq());
        }
    }

    /// True when a process-wide renderer is registered.
    pub fn pip_enabled(&self) -> (r: bool)
        ensures
            r == self.has_global(),
    {
        self.global.is_some()
    }

    /// Push a frame to the process-wide renderer. No-op when none is registered.
    pub fn push_pip_frame(&self, frame: PipHookFrame) {
        match &self.global {
            Some(f) => f.push(frame),
            None => {},
        }
    }
}

} // verus!
