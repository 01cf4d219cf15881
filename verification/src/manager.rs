//! The composition root of the dashboard state: two logs and two input
//! channels of different priority, plus the arbitration rule the render
//! pass applies between them.  Thread and channel plumbing live outside the
//! library; everything here is plain state and decisions.

use vstd::prelude::*;

verus! {

use crate::input::{Input, InputModel};
use crate::log::Log;

/// The state of a freshly wired input channel: idle, enabled, and empty.
pub open spec fn fresh_input_model() -> InputModel {
    InputModel {
        requester: Seq::empty(),
        prompt: Seq::empty(),
        buffer: Seq::empty(),
        secret: Seq::empty(),
        pos: 0,
        mode: crate::keys::RequestMode::Line,
        inputting: false,
        disabled: false,
        pending: Seq::empty(),
    }
}

/// The dashboard's state: one log per producer thread, and a high- and a
/// low-priority input channel.
pub struct Manager {
    pub main_log: Log,
    pub server_log: Log,
    pub term_input_lowp: Input,
    pub term_input_highp: Input,
}

impl Manager {
    /// A fresh dashboard: both logs empty, both channels idle and enabled.
    pub fn new() -> (r: Manager)
        ensures
            r.main_log.wf(),
            r.main_log.title_text() == "Main Thread"@,
            r.main_log.recorded() == Seq::<Seq<char>>::empty(),
            forall|i: int| 0 <= i < 256 ==> #[trigger] r.main_log.slots()[i] == Seq::<char>::empty(),
            r.server_log.wf(),
            r.server_log.title_text() == "Server Thread"@,
            r.server_log.recorded() == Seq::<Seq<char>>::empty(),
            forall|i: int|
                0 <= i < 256 ==> #[trigger] r.server_log.slots()[i] == Seq::<char>::empty(),
            r.term_input_lowp.wf(),
            r.term_input_lowp.model() == fresh_input_model(),
            r.term_input_highp.wf(),
            r.term_input_highp.model() == fresh_input_model(),
    {
        Manager {
            main_log: Log::new("Main Thread"),
            server_log: Log::new("Server Thread"),
            term_input_lowp: Input::new(),
            term_input_highp: Input::new(),
        }
    }

    /// The arbitration the render thread applies before every frame: the
    /// low-priority channel is disabled exactly while the high-priority
    /// channel has a request active, and re-enabled otherwise.  Nothing else
    /// changes.
    pub fn pre_render_arbitrate(&mut self)
        ensures
            final(self).term_input_lowp.model() == (InputModel {
                disabled: old(self).term_input_highp.model().inputting,
                ..old(self).term_input_lowp.model()
            }),
            final(self).term_input_lowp.wf() == old(self).term_input_lowp.wf(),
            final(self).term_input_highp == old(self).term_input_highp,
            final(self).main_log == old(self).main_log,
            final(self).server_log == old(self).server_log,
    {
        let highp_in_use = self.term_input_highp.is_inputting();
        self.term_input_lowp.set_disabled(highp_in_use);
    }

    /// The channel a frame displays: the high-priority one while it has a
    /// request active, the low-priority one otherwise.
    pub fn get_input_handler(&self) -> (r: &Input)
        ensures
            self.term_input_highp.model().inputting ==> r == &self.term_input_highp,
            !self.term_input_highp.model().inputting ==> r == &self.term_input_lowp,
    {
        if self.term_input_highp.is_inputting() {
            &self.term_input_highp
        } else {
            &self.term_input_lowp
        }
    }

    /// The logs a frame displays, left to right.
    pub fn get_log_bufs(&self) -> (r: Vec<&Log>)
        ensures
            r@.len() == 2,
            r@[0] == &self.main_log,
            r@[1] == &self.server_log,
    {
        let mut r: Vec<&Log> = Vec::new();
        r.push(&self.main_log);
        r.push(&self.server_log);
        r
    }
}

} // verus!
