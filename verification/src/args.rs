//! The fields of a tool call's arguments that admission and the workspace
//! registry read. A host fills this from the call's JSON object.
use vstd::prelude::*;

verus! {

/// What the selection and workspace rules read of a tool call's arguments.
/// Each field holds the value only where the argument has the expected JSON
/// type; `session` also records whether the key is present at all.
pub struct ToolArgs {
    /// `session`: `None` when absent, `Some(None)` when present but not a string.
    pub session: Option<Option<String>>,
    /// `_session_id`, when it is a string.
    pub session_id: Option<String>,
    /// `app`, when it is a string.
    pub app: Option<String>,
    /// `pid`, when it is an integer that fits in `i64`.
    pub pid: Option<i64>,
    /// `window_id`, when it is an integer that fits in `u64`.
    pub window_id: Option<u64>,
    /// `scope`, when it is a string.
    pub scope: Option<String>,
    /// `delivery_mode`, when it is a string.
    pub delivery_mode: Option<String>,
    /// `record_video`, when it is a boolean.
    pub record_video: Option<bool>,
    /// Whether a `target_id` key is present.
    pub has_target_id: bool,
}

impl ToolArgs {
    /// No arguments at all.
    pub fn empty() -> (r: ToolArgs)
        ensures
            r.session is None,
            r.session_id is None,
            r.app is None,
            r.pid is None,
            r.window_id is None,
            r.scope is None,
            r.delivery_mode is None,
            r.record_video is None,
            !r.has_target_id,
    {
        ToolArgs {
            session: None,
            session_id: None,
            app: None,
            pid: None,
            window_id: None,
            scope: None,
            delivery_mode: None,
            record_video: None,
            has_target_id: false,
        }
    }

    pub open spec fn empty_spec() -> ToolArgs {
        ToolArgs {
            session: None,
            session_id: None,
            app: None,
            pid: None,
            window_id: None,
            scope: None,
            delivery_mode: None,
            record_video: None,
            has_target_id: false,
        }
    }

    /// The session a workspace call names: `session` when present, else
    /// `_session_id`; in either case only a string counts.
    pub open spec fn spec_session(&self) -> Option<Seq<char>> {
        match self.session {
            Some(Some(s)) => Some(s@),
            Some(None) => None,
            None => match self.session_id {
                Some(s) => Some(s@),
                None => None,
            },
        }
    }

    pub fn session_name(&self) -> (r: Option<String>)
        ensures
            r is Some <==> self.spec_session() is Some,
            r matches Some(s) ==> Some(s@) == self.spec_session(),
    {
        match &self.session {
            Some(Some(s)) => Some(s.clone()),
            Some(None) => None,
            None => match &self.session_id {
                Some(s) => Some(s.clone()),
                None => None,
            },
        }
    }
}

} // verus!
