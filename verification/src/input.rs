//! The prioritized input endpoint: a serialized state machine that collects
//! one line, secret, or acknowledgement at a time from delivered key events.

use vstd::prelude::*;

verus! {

use crate::keys::{Key, RequestMode};

/// The character echoed for every accepted character of a secret.
pub open spec fn mask_char() -> char {
    '*'
}

/// The full abstract state of an input channel.
#[verifier::ext_equal]
pub ghost struct InputModel {
    /// Who asked the active request.
    pub requester: Seq<char>,
    /// The prompt shown for the active request.
    pub prompt: Seq<char>,
    /// The displayed buffer (mask characters in secret mode).
    pub buffer: Seq<char>,
    /// The real characters typed in secret mode.
    pub secret: Seq<char>,
    /// Cursor offset into the displayed buffer.
    pub pos: int,
    /// What kind of answer the active request collects.
    pub mode: RequestMode,
    /// Is a request active?
    pub inputting: bool,
    /// Must this channel leave all keys alone right now?
    pub disabled: bool,
    /// Keys delivered but not yet consumed.
    pub pending: Seq<Key>,
}

/// The state right after a request starts: a cleared buffer, a drained
/// pending queue, and the new request parameters.  Only the disabled flag
/// survives from the previous state.
pub open spec fn begin_model(
    m: InputModel,
    requester: Seq<char>,
    prompt: Seq<char>,
    mode: RequestMode,
) -> InputModel {
    InputModel {
        requester: requester,
        prompt: prompt,
        buffer: Seq::empty(),
        secret: Seq::empty(),
        pos: 0,
        mode: mode,
        inputting: true,
        disabled: m.disabled,
        pending: Seq::empty(),
    }
}

/// How one consumed key transforms the state of an active request.
pub open spec fn apply_key(m: InputModel, k: Key) -> InputModel {
    match k {
        Key::Char(c) => match m.mode {
            RequestMode::Line => InputModel {
                buffer: m.buffer.push(c),
                pos: m.pos + 1,
                ..m
            },
            RequestMode::Secret => InputModel {
                buffer: m.buffer.push(mask_char()),
                secret: m.secret.push(c),
                pos: m.pos + 1,
                ..m
            },
            RequestMode::Acknowledge => m,
        },
        Key::Backspace => match m.mode {
            RequestMode::Line => if m.buffer.len() > 0 {
                InputModel { buffer: m.buffer.drop_last(), pos: m.pos - 1, ..m }
            } else {
                m
            },
            RequestMode::Secret => if m.buffer.len() > 0 {
                InputModel {
                    buffer: m.buffer.drop_last(),
                    secret: m.secret.drop_last(),
                    pos: m.pos - 1,
                    ..m
                }
            } else {
                m
            },
            RequestMode::Acknowledge => m,
        },
        Key::Enter => InputModel { inputting: false, ..m },
        Key::Other => m,
    }
}

/// Feed a sequence of keys to an active request, stopping once it completes.
pub open spec fn run_model(m: InputModel, ks: Seq<Key>) -> InputModel
    decreases ks.len(),
{
    if ks.len() == 0 || !m.inputting {
        m
    } else {
        run_model(apply_key(m, ks[0]), ks.drop_first())
    }
}

/// The answer a completed request hands back: the typed secret in secret
/// mode, the visible buffer for a line, nothing for an acknowledgement.
pub open spec fn result_of(m: InputModel) -> Seq<char> {
    match m.mode {
        RequestMode::Line => m.buffer,
        RequestMode::Secret => m.secret,
        RequestMode::Acknowledge => Seq::empty(),
    }
}

/// What `step` did.
#[derive(Clone, Copy, PartialEq, Eq, Structural, Debug)]
pub enum StepOutcome {
    /// Nothing to consume: the queue is empty or the channel is disabled.
    NoKey,
    /// One key was consumed; the request is still active.
    Consumed,
    /// The acknowledgement key was consumed; the request is complete.
    Completed,
}

/// A prioritized, serialized endpoint for blocking user-input requests.
pub struct Input {
    requester: Vec<char>,
    prompt: Vec<char>,
    buffer: Vec<char>,
    secret: Vec<char>,
    pos: usize,
    mode: RequestMode,
    inputting: bool,
    disabled: bool,
    pending: Vec<Key>,
}

impl Input {
    /// The abstract state.
    pub closed spec fn model(&self) -> InputModel {
        InputModel {
            requester: self.requester@,
            prompt: self.prompt@,
            buffer: self.buffer@,
            secret: self.secret@,
            pos: self.pos as int,
            mode: self.mode,
            inputting: self.inputting,
            disabled: self.disabled,
            pending: self.pending@,
        }
    }

    /// Structural invariant: the cursor sits at the end of the displayed
    /// buffer, and in secret mode the displayed buffer is one mask character
    /// per retained secret character; outside secret mode no secret is held.
    pub closed spec fn wf(&self) -> bool {
        &&& self.pos == self.buffer@.len()
        &&& (self.mode is Secret ==> self.buffer@ =~= Seq::new(
            self.secret@.len(),
            |i: int| mask_char(),
        ))
        &&& (!(self.mode is Secret) ==> self.secret@.len() == 0)
    }

    /// A fresh, idle, enabled channel.
    pub fn new() -> (r: Input)
        ensures
            r.wf(),
            r.model() == (InputModel {
                requester: Seq::empty(),
                prompt: Seq::empty(),
                buffer: Seq::empty(),
                secret: Seq::empty(),
                pos: 0,
                mode: RequestMode::Line,
                inputting: false,
                disabled: false,
                pending: Seq::empty(),
            }),
    {
        let r = Input {
            requester: Vec::new(),
            prompt: Vec::new(),
            buffer: Vec::new(),
            secret: Vec::new(),
            pos: 0,
            mode: RequestMode::Line,
            inputting: false,
            disabled: false,
            pending: Vec::new(),
        };
        proof {
            assert(r.model() =~= (InputModel {
                requester: Seq::empty(),
                prompt: Seq::empty(),
                buffer: Seq::empty(),
                secret: Seq::empty(),
                pos: 0,
                mode: RequestMode::Line,
                inputting: false,
                disabled: false,
                pending: Seq::empty(),
            }));
        }
        r
    }

    /// Mark whether a request is active.
    pub fn set_inputting(&mut self, to: bool)
        ensures
            final(self).model() == (InputModel { inputting: to, ..old(self).model() }),
            final(self).wf() == old(self).wf(),
    {
        self.inputting = to;
        proof {
            assert(self.model() =~= (InputModel { inputting: to, ..old(self).model() }));
        }
    }

    /// Is a request active?
    pub fn is_inputting(&self) -> (r: bool)
        ensures
            r == self.model().inputting,
    {
        self.inputting
    }

    /// Gate or release this channel's key consumption.
    pub fn set_disabled(&mut self, to: bool)
        ensures
            final(self).model() == (InputModel { disabled: to, ..old(self).model() }),
            final(self).wf() == old(self).wf(),
    {
        self.disabled = to;
        proof {
            assert(self.model() =~= (InputModel { disabled: to, ..old(self).model() }));
        }
    }

    /// Must this channel leave all keys alone right now?
    pub fn is_disabled(&self) -> (r: bool)
        ensures
            r == self.model().disabled,
    {
        self.disabled
    }

    /// Hand one key to this channel.  A disabled channel discards it; an
    /// enabled one queues it for consumption.
    pub fn deliver(&mut self, k: Key)
        ensures
            old(self).model().disabled ==> final(self).model() == old(self).model(),
            !old(self).model().disabled ==> final(self).model() == (InputModel {
                pending: old(self).model().pending.push(k),
                ..old(self).model()
            }),
            final(self).wf() == old(self).wf(),
    {
        if !self.disabled {
            self.pending.push(k);
            proof {
                assert(self.model() =~= (InputModel {
                    pending: old(self).model().pending.push(k),
                    ..old(self).model()
                }));
            }
        }
    }

    /// Start a new request.  Any keys that arrived before this moment are
    /// drained away; the buffer, secret, and cursor start empty.
    pub fn begin_request(&mut self, requester: &str, prompt: &str, mode: RequestMode)
        requires
            !old(self).model().inputting,
        ensures
            final(self).wf(),
            final(self).model() == begin_model(old(self).model(), requester@, prompt@, mode),
    {
        self.pending = Vec::new();
        self.requester = crate::text::chars_of(requester);
        self.prompt = crate::text::chars_of(prompt);
        self.buffer = Vec::new();
        self.secret = Vec::new();
        self.pos = 0;
        self.mode = mode;
        self.inputting = true;
        proof {
            assert(self.model() =~= begin_model(old(self).model(), requester@, prompt@, mode));
            assert(self.buffer@ =~= Seq::new(self.secret@.len(), |i: int| mask_char()));
        }
    }

    /// Consume one key of an active request, applying `apply_key`.
    /// Returns whether the request completed.
    fn consume(&mut self, k: Key) -> (done: bool)
        requires
            old(self).wf(),
            old(self).model().inputting,
        ensures
            final(self).wf(),
            final(self).model() == apply_key(old(self).model(), k),
            done == !final(self).model().inputting,
    {
        match k {
            Key::Char(c) => {
                match self.mode {
                    RequestMode::Line => {
                        self.buffer.push(c);
                        self.pos = self.buffer.len();
                    },
                    RequestMode::Secret => {
                        self.buffer.push('*');
                        self.secret.push(c);
                        self.pos = self.buffer.len();
                        proof {
                            assert(self.buffer@ =~= Seq::new(
                                self.secret@.len(),
                                |i: int| mask_char(),
                            ));
                        }
                    },
                    RequestMode::Acknowledge => {},
                }
                proof {
                    assert(self.model() =~= apply_key(old(self).model(), k));
                }
                false
            },
            Key::Backspace => {
                match self.mode {
                    RequestMode::Line => {
                        if self.buffer.len() > 0 {
                            self.buffer.pop();
                            self.pos = self.buffer.len();
                        }
                    },
                    RequestMode::Secret => {
                        if self.buffer.len() > 0 {
                            self.buffer.pop();
                            self.secret.pop();
                            self.pos = self.buffer.len();
                            proof {
                                assert(self.buffer@ =~= Seq::new(
                                    self.secret@.len(),
                                    |i: int| mask_char(),
                                ));
                            }
                        }
                    },
                    RequestMode::Acknowledge => {},
                }
                proof {
                    assert(self.model() =~= apply_key(old(self).model(), k));
                }
                false
            },
            Key::Enter => {
                self.inputting = false;
                proof {
                    assert(self.model() =~= apply_key(old(self).model(), k));
                }
                true
            },
            Key::Other => {
                proof {
                    assert(self.model() =~= apply_key(old(self).model(), k));
                }
                false
            },
        }
    }

    /// Try to consume the oldest queued key of an active request.  A
    /// disabled channel consumes nothing at all.
    pub fn step(&mut self) -> (outcome: StepOutcome)
        requires
            old(self).wf(),
            old(self).model().inputting,
        ensures
            final(self).wf(),
            (old(self).model().disabled || old(self).model().pending.len() == 0) ==> (
            final(self).model() == old(self).model() && outcome == StepOutcome::NoKey),
            !(old(self).model().disabled || old(self).model().pending.len() == 0) ==> ({
                let consumed = apply_key(
                    InputModel {
                        pending: old(self).model().pending.drop_first(),
                        ..old(self).model()
                    },
                    old(self).model().pending[0],
                );
                &&& final(self).model() == consumed
                &&& outcome == (if consumed.inputting {
                    StepOutcome::Consumed
                } else {
                    StepOutcome::Completed
                })
            }),
    {
        if self.disabled || self.pending.len() == 0 {
            return StepOutcome::NoKey;
        }
        let k = self.pending.remove(0);
        proof {
            assert(self.pending@ =~= old(self).model().pending.drop_first());
            assert(self.model() =~= (InputModel {
                pending: old(self).model().pending.drop_first(),
                ..old(self).model()
            }));
        }
        let done = self.consume(k);
        if done {
            StepOutcome::Completed
        } else {
            StepOutcome::Consumed
        }
    }

    /// Who asked the active request.
    pub fn requester_chars(&self) -> (r: &Vec<char>)
        ensures
            r@ == self.model().requester,
    {
        &self.requester
    }

    /// The prompt of the active request.
    pub fn prompt_chars(&self) -> (r: &Vec<char>)
        ensures
            r@ == self.model().prompt,
    {
        &self.prompt
    }

    /// The displayed buffer (mask characters in secret mode).
    pub fn buffer_chars(&self) -> (r: &Vec<char>)
        ensures
            r@ == self.model().buffer,
    {
        &self.buffer
    }

    /// The real characters typed so far in secret mode.
    pub fn secret_chars(&self) -> (r: &Vec<char>)
        ensures
            r@ == self.model().secret,
    {
        &self.secret
    }

    /// Cursor offset into the displayed buffer.
    pub fn cursor_pos(&self) -> (r: usize)
        ensures
            r as int == self.model().pos,
    {
        self.pos
    }

    /// The answer of the current or just-completed request, as `result_of`
    /// describes it.
    pub fn result_text(&self) -> (r: String)
        ensures
            r@ == result_of(self.model()),
    {
        match self.mode {
            RequestMode::Line => crate::text::string_from_chars(&self.buffer),
            RequestMode::Secret => crate::text::string_from_chars(&self.secret),
            RequestMode::Acknowledge => String::new(),
        }
    }

    /// Run one whole request against a fixed key sequence: begin, consume
    /// keys in order until one completes the request, and hand back the
    /// answer, or nothing if the keys ran out first.
    pub fn run_request(&mut self, requester: &str, prompt: &str, mode: RequestMode, keys: &Vec<
        Key,
    >) -> (r: Option<String>)
        requires
            !old(self).model().inputting,
        ensures
            final(self).wf(),
            final(self).model() == run_model(
                begin_model(old(self).model(), requester@, prompt@, mode),
                keys@,
            ),
            match r {
                Some(s) => !final(self).model().inputting && s@ == result_of(final(self).model()),
                None => final(self).model().inputting,
            },
    {
        self.begin_request(requester, prompt, mode);
        let mut i: usize = 0;
        proof {
            assert(keys@.skip(0) =~= keys@);
        }
        while i < keys.len()
            invariant
                i <= keys@.len(),
                self.wf(),
                self.model().inputting,
                run_model(begin_model(old(self).model(), requester@, prompt@, mode), keys@)
                    == run_model(self.model(), keys@.skip(i as int)),
            decreases keys@.len() - i,
        {
            let ghost pre = self.model();
            let done = self.consume(keys[i]);
            proof {
                let rest = keys@.skip(i as int);
                assert(rest[0] == keys@[i as int]);
                assert(rest.drop_first() =~= keys@.skip(i + 1));
                assert(run_model(pre, rest) == run_model(
                    apply_key(pre, rest[0]),
                    rest.drop_first(),
                ));
            }
            i = i + 1;
            if done {
                proof {
                    assert(run_model(self.model(), keys@.skip(i as int)) == self.model());
                }
                return Some(self.result_text());
            }
        }
        proof {
            assert(keys@.skip(keys@.len() as int) =~= Seq::<Key>::empty());
        }
        None
    }
}

impl Input {
    /// One whole line request against a fixed key sequence.
    pub fn request_string(&mut self, requester: &str, prompt: &str, keys: &Vec<Key>) -> (r: Option<
        String,
    >)
        requires
            !old(self).model().inputting,
        ensures
            final(self).wf(),
            final(self).model() == run_model(
                begin_model(old(self).model(), requester@, prompt@, RequestMode::Line),
                keys@,
            ),
            match r {
                Some(s) => !final(self).model().inputting && s@ == result_of(final(self).model()),
                None => final(self).model().inputting,
            },
    {
        self.run_request(requester, prompt, RequestMode::Line, keys)
    }

    /// One whole secret request against a fixed key sequence.
    pub fn request_password(&mut self, requester: &str, prompt: &str, keys: &Vec<Key>) -> (r:
        Option<String>)
        requires
            !old(self).model().inputting,
        ensures
            final(self).wf(),
            final(self).model() == run_model(
                begin_model(old(self).model(), requester@, prompt@, RequestMode::Secret),
                keys@,
            ),
            match r {
                Some(s) => !final(self).model().inputting && s@ == result_of(final(self).model()),
                None => final(self).model().inputting,
            },
    {
        self.run_request(requester, prompt, RequestMode::Secret, keys)
    }

    /// One whole acknowledgement request against a fixed key sequence:
    /// everything but the acknowledgement key is discarded.
    pub fn wait_for_enter(&mut self, requester: &str, prompt: &str, keys: &Vec<Key>) -> (r: Option<
        String,
    >)
        requires
            !old(self).model().inputting,
        ensures
            final(self).wf(),
            final(self).model() == run_model(
                begin_model(old(self).model(), requester@, prompt@, RequestMode::Acknowledge),
                keys@,
            ),
            match r {
                Some(s) => !final(self).model().inputting && s@.len() == 0,
                None => final(self).model().inputting,
            },
    {
        proof {
            lemma_run_model_keeps_request(
                begin_model(old(self).model(), requester@, prompt@, RequestMode::Acknowledge),
                keys@,
            );
        }
        self.run_request(requester, prompt, RequestMode::Acknowledge, keys)
    }
}

/// Consuming keys never changes what is being asked: the requester, prompt,
/// mode, and disabled flag survive any key sequence.
pub proof fn lemma_run_model_keeps_request(m: InputModel, ks: Seq<Key>)
    ensures
        run_model(m, ks).mode == m.mode,
        run_model(m, ks).requester == m.requester,
        run_model(m, ks).prompt == m.prompt,
        run_model(m, ks).disabled == m.disabled,
    decreases ks.len(),
{
    if ks.len() > 0 && m.inputting {
        lemma_run_model_keeps_request(apply_key(m, ks[0]), ks.drop_first());
    }
}

/// Starting a new request flushes everything but the disabled flag: whatever
/// two channels held before — stale queued keys included — they behave
/// identically from the moment equal requests begin on them.
pub proof fn lemma_stale_keys_cannot_leak(
    m1: InputModel,
    m2: InputModel,
    requester: Seq<char>,
    prompt: Seq<char>,
    mode: RequestMode,
    keys: Seq<Key>,
)
    requires
        m1.disabled == m2.disabled,
    ensures
        run_model(begin_model(m1, requester, prompt, mode), keys) == run_model(
            begin_model(m2, requester, prompt, mode),
            keys,
        ),
{
    assert(begin_model(m1, requester, prompt, mode) =~= begin_model(m2, requester, prompt, mode));
}

} // verus!
