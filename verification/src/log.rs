//! A named, bounded, append-only line buffer.  Messages arrive with a level,
//! are split into lines, given a styled level prefix on the first line and
//! blank padding on continuation lines, tab-expanded, and pushed into a
//! fixed-capacity ring of the most recent entries.  An optional disk mirror
//! receives every message's raw bytes, unstyled.

use vstd::prelude::*;

verus! {

use crate::ring_buffer::RingBuffer;
use crate::style;
use crate::text;
use vstd::string::StrSliceExecFns;
use vstd::string::StringSliceAdditionalSpecFns;

/// The closed set of message levels.
#[derive(Clone, Copy, PartialEq, Eq, Structural, Debug)]
pub enum LogLevel {
    Info,
    Warn,
    Error,
    Success,
}

/// The unstyled prefix tag of each level.
pub open spec fn prefix_text(level: LogLevel) -> Seq<char> {
    match level {
        LogLevel::Info => "   INFO:"@,
        LogLevel::Warn => "   WARN:"@,
        LogLevel::Error => "  ERROR:"@,
        LogLevel::Success => "SUCCESS:"@,
    }
}

/// One named, styled, optionally disk-mirrored line buffer.
pub struct Log {
    title: String,
    lines: RingBuffer<String, 256>,
    disk_log_path: Option<String>,
}

impl Log {
    /// The immutable title.
    pub closed spec fn title_text(&self) -> Seq<char> {
        self.title@
    }

    /// Every entry ever pushed into the ring, oldest first.
    pub closed spec fn recorded(&self) -> Seq<Seq<char>> {
        self.lines.pushes().map_values(|s: String| s@)
    }

    /// The ring's current slot contents, most recent first.
    pub closed spec fn slots(&self) -> Seq<Seq<char>> {
        self.lines.ordered().map_values(|s: String| s@)
    }

    /// The configured mirror directory, if any.
    pub closed spec fn disk_dir(&self) -> Option<Seq<char>> {
        match self.disk_log_path {
            Some(ref p) => Some(p@),
            None => None,
        }
    }

    /// Structural invariant.
    pub closed spec fn wf(&self) -> bool {
        self.lines.wf()
    }

    /// A fresh, unmirrored log whose ring slots all hold empty lines.
    pub fn new(name: &str) -> (r: Log)
        ensures
            r.wf(),
            r.title_text() == name@,
            r.recorded() == Seq::<Seq<char>>::empty(),
            r.disk_dir() is None,
            forall|i: int| 0 <= i < 256 ==> #[trigger] r.slots()[i] == Seq::<char>::empty(),
    {
        let r = Log { title: name.to_owned(), lines: RingBuffer::new(), disk_log_path: None };
        proof {
            assert(r.recorded() =~= Seq::<Seq<char>>::empty());
            crate::ring_buffer::lemma_ordered_len(&r.lines);
            assert forall|i: int| 0 <= i < 256 implies #[trigger] r.slots()[i]
                == Seq::<char>::empty() by {
                let s = r.lines.ordered()[i];
                assert(call_ensures(String::default, (), s));
            }
        }
        r
    }

    /// The same log, mirroring every message's raw bytes under `path`.
    pub fn with_disk_log(self, path: &str) -> (r: Log)
        requires
            self.wf(),
        ensures
            r.wf(),
            r.title_text() == self.title_text(),
            r.recorded() == self.recorded(),
            r.slots() == self.slots(),
            r.disk_dir() == Some(path@),
    {
        Log { disk_log_path: Some(path.to_owned()), ..self }
    }

    /// The title.
    pub fn name(&self) -> (r: String)
        ensures
            r@ == self.title_text(),
    {
        self.title.clone()
    }

    /// The configured mirror directory, if any.
    pub fn disk_log_dir(&self) -> (r: &Option<String>)
        ensures
            match r {
                Some(p) => self.disk_dir() == Some(p@),
                None => self.disk_dir() is None,
            },
    {
        &self.disk_log_path
    }

    /// The `n` most recent ring entries, most recent first.
    pub fn recent_lines(&self, n: usize) -> (r: Vec<&String>)
        requires
            self.wf(),
            n <= 256,
        ensures
            r@.len() == n,
            forall|i: int| 0 <= i < n ==> #[trigger] r@[i]@ == self.slots()[i],
    {
        proof {
            crate::ring_buffer::lemma_ordered_len(&self.lines);
        }
        self.lines.peek_last_n(n)
    }

    /// The raw bytes that the disk mirror must receive for `msg`: exactly the
    /// message's bytes, unstyled, or nothing when no mirror is configured.
    pub fn mirror_payload(&self, msg: &str) -> (r: Option<Vec<u8>>)
        ensures
            self.disk_dir() is Some ==> (r is Some && r.unwrap()@ == msg.spec_bytes()),
            self.disk_dir() is None ==> r is None,
    {
        match &self.disk_log_path {
            Some(_) => Some(msg.as_bytes_vec()),
            None => None,
        }
    }

    /// Push one entry per body: the first behind `prefix`, the rest behind
    /// `pad`, each followed by one space and its body, tabs expanded.
    pub fn append_styled(&mut self, prefix: &str, pad: &str, bodies: &Vec<String>)
        requires
            old(self).wf(),
        ensures
            final(self).wf(),
            final(self).title_text() == old(self).title_text(),
            final(self).disk_dir() == old(self).disk_dir(),
            final(self).recorded().len() == old(self).recorded().len() + bodies@.len(),
            forall|i: int|
                0 <= i < old(self).recorded().len() ==> #[trigger] final(self).recorded()[i] == old(
                    self,
                ).recorded()[i],
            forall|i: int|
                0 <= i < bodies@.len() ==> #[trigger] final(self).recorded()[old(
                    self,
                ).recorded().len() + i] == text::tab_expanded(
                    ((if i == 0 {
                        prefix@
                    } else {
                        pad@
                    }) + " "@) + bodies@[i]@,
                ),
    {
        let ghost base = old(self).recorded().len() as int;
        let mut i: usize = 0;
        while i < bodies.len()
            invariant
                i <= bodies@.len(),
                self.wf(),
                self.title_text() == old(self).title_text(),
                self.disk_dir() == old(self).disk_dir(),
                base == old(self).recorded().len(),
                self.recorded().len() == base + i,
                forall|j: int|
                    0 <= j < base ==> #[trigger] self.recorded()[j] == old(self).recorded()[j],
                forall|j: int|
                    0 <= j < i ==> #[trigger] self.recorded()[base + j] == text::tab_expanded(
                        ((if j == 0 {
                            prefix@
                        } else {
                            pad@
                        }) + " "@) + bodies@[j]@,
                    ),
            decreases bodies@.len() - i,
        {
            let mut v: Vec<char> = if i == 0 {
                text::chars_of(prefix)
            } else {
                text::chars_of(pad)
            };
            text::push_str_chars(&mut v, " ");
            text::push_str_chars(&mut v, bodies[i].as_str());
            let expanded = text::tab_expand(&v);
            let line = text::string_from_chars(&expanded);
            let ghost pre_pushes = self.lines.pushes();
            self.lines.push(line);
            proof {
                assert(self.recorded() =~= pre_pushes.map_values(|s: String| s@).push(line@));
            }
            i = i + 1;
        }
    }

    /// Append a (possibly multi-line) message at `level`: one ring entry per
    /// message line, each embedding that tab-expanded line behind a styled
    /// prefix (first line) or blank padding (continuation lines).
    pub fn append(&mut self, msg: &str, level: LogLevel)
        requires
            old(self).wf(),
        ensures
            append_post(*old(self), *final(self), msg@, level),
    {
        let msg_chars = text::chars_of(msg);
        let line_vecs = text::lines_of(&msg_chars);
        let mut bodies: Vec<String> = Vec::new();
        let mut i: usize = 0;
        while i < line_vecs.len()
            invariant
                i <= line_vecs@.len(),
                line_vecs@.len() == text::spec_lines(msg@).len(),
                forall|j: int|
                    0 <= j < line_vecs@.len() ==> #[trigger] line_vecs@[j]@ == text::spec_lines(
                        msg@,
                    )[j],
                bodies@.len() == i,
                forall|j: int|
                    0 <= j < i ==> text::embeds(
                        #[trigger] bodies@[j]@,
                        text::spec_lines(msg@)[j],
                    ),
            decreases line_vecs@.len() - i,
        {
            let line_str = text::string_from_chars(&line_vecs[i]);
            let body = match level {
                LogLevel::Info => style::style_white(line_str.as_str()),
                LogLevel::Warn => style::style_yellow(line_str.as_str()),
                LogLevel::Error => style::style_red(line_str.as_str()),
                LogLevel::Success => style::style_green(line_str.as_str()),
            };
            proof {
                text::lemma_embeds_inline_embeds(body@, line_str@);
            }
            bodies.push(body);
            i = i + 1;
        }
        let prefix_styled = match level {
            LogLevel::Info => style::style_bold_black_on_white("   INFO:"),
            LogLevel::Warn => style::style_bold_black_on_yellow("   WARN:"),
            LogLevel::Error => style::style_bold_white_on_red("  ERROR:"),
            LogLevel::Success => style::style_bold_black_on_green("SUCCESS:"),
        };
        let pad_len = style::text_width(prefix_styled.as_str());
        let pad = text::repeat_char(' ', pad_len);
        let ghost before = *self;
        self.append_styled(prefix_styled.as_str(), pad.as_str(), &bodies);
        proof {
            let lines = text::spec_lines(msg@);
            assert forall|i2: int| 0 <= i2 < lines.len() implies text::embeds(
                #[trigger] final(self).recorded()[before.recorded().len() + i2],
                text::tab_expanded(lines[i2]),
            ) by {
                let sel = if i2 == 0 {
                    prefix_styled@
                } else {
                    pad@
                };
                let entry = final(self).recorded()[before.recorded().len() + i2];
                assert(entry == text::tab_expanded((sel + " "@) + bodies@[i2]@));
                let (a0, b0) = choose|a0: Seq<char>, b0: Seq<char>|
                    bodies@[i2]@ == a0 + lines[i2] + b0;
                text::lemma_tab_expanded_concat(sel + " "@, bodies@[i2]@);
                text::lemma_tab_expanded_concat(a0 + lines[i2], b0);
                text::lemma_tab_expanded_concat(a0, lines[i2]);
                let head = text::tab_expanded(sel + " "@) + text::tab_expanded(a0);
                let tail = text::tab_expanded(b0);
                assert(entry =~= head + text::tab_expanded(lines[i2]) + tail);
                assert(text::embeds(entry, text::tab_expanded(lines[i2])));
            }
            if lines.len() > 0 {
                assert(text::embeds_inline(prefix_styled@, prefix_text(level)));
                text::lemma_embeds_inline_embeds(prefix_styled@, prefix_text(level));
                let entry0 = final(self).recorded()[before.recorded().len() as int];
                assert(final(self).recorded()[before.recorded().len() + 0int] == text::tab_expanded(
                    ((if 0int == 0 {
                        prefix_styled@
                    } else {
                        pad@
                    }) + " "@) + bodies@[0]@,
                ));
                assert(entry0 == text::tab_expanded((prefix_styled@ + " "@) + bodies@[0]@));
                let (a1, b1) = choose|a1: Seq<char>, b1: Seq<char>|
                    prefix_styled@ == a1 + prefix_text(level) + b1;
                text::lemma_tab_expanded_concat((prefix_styled@ + " "@), bodies@[0]@);
                text::lemma_tab_expanded_concat(prefix_styled@, " "@);
                text::lemma_tab_expanded_concat(a1 + prefix_text(level), b1);
                text::lemma_tab_expanded_concat(a1, prefix_text(level));
                let rest = (text::tab_expanded(b1) + text::tab_expanded(" "@))
                    + text::tab_expanded(bodies@[0]@);
                assert(entry0 =~= text::tab_expanded(a1) + text::tab_expanded(prefix_text(level))
                    + rest);
                assert(text::embeds(entry0, text::tab_expanded(prefix_text(level))));
            }
        }
    }

    /// Append at the informational level.
    pub fn log(&mut self, msg: &str)
        requires
            old(self).wf(),
        ensures
            append_post(*old(self), *final(self), msg@, LogLevel::Info),
    {
        self.append(msg, LogLevel::Info);
    }

    /// Append at the warning level.
    pub fn log_warn(&mut self, msg: &str)
        requires
            old(self).wf(),
        ensures
            append_post(*old(self), *final(self), msg@, LogLevel::Warn),
    {
        self.append(msg, LogLevel::Warn);
    }

    /// Append at the error level.
    pub fn log_err(&mut self, msg: &str)
        requires
            old(self).wf(),
        ensures
            append_post(*old(self), *final(self), msg@, LogLevel::Error),
    {
        self.append(msg, LogLevel::Error);
    }

    /// Append at the success level.
    pub fn log_success(&mut self, msg: &str)
        requires
            old(self).wf(),
        ensures
            append_post(*old(self), *final(self), msg@, LogLevel::Success),
    {
        self.append(msg, LogLevel::Success);
    }
}

/// What a frame shows is what was appended: slot `i` of a log is its `i`-th
/// most recent recorded entry, for as many slots as entries exist.
pub proof fn lemma_slots_show_latest(log: &Log)
    requires
        log.wf(),
    ensures
        forall|i: int|
            0 <= i < log.recorded().len() && i < 256 ==> #[trigger] log.slots()[i]
                == log.recorded()[log.recorded().len() - 1 - i],
{
    crate::ring_buffer::lemma_retained_are_latest(&log.lines);
    crate::ring_buffer::lemma_ordered_len(&log.lines);
}

/// What one `append` of `msg` at `level` guarantees: the title and mirror
/// stay as they were, exactly one ring entry per message line arrives after
/// the existing entries, each new entry embeds its tab-expanded message
/// line, and the first new entry also embeds the level's prefix tag.
pub open spec fn append_post(pre: Log, post: Log, msg: Seq<char>, level: LogLevel) -> bool {
    &&& post.wf()
    &&& post.title_text() == pre.title_text()
    &&& post.disk_dir() == pre.disk_dir()
    &&& post.recorded().len() == pre.recorded().len() + text::spec_lines(msg).len()
    &&& forall|i: int|
        0 <= i < pre.recorded().len() ==> #[trigger] post.recorded()[i] == pre.recorded()[i]
    &&& forall|i: int|
        0 <= i < text::spec_lines(msg).len() ==> text::embeds(
            #[trigger] post.recorded()[pre.recorded().len() + i],
            text::tab_expanded(text::spec_lines(msg)[i]),
        )
    &&& (text::spec_lines(msg).len() > 0 ==> text::embeds(
        post.recorded()[pre.recorded().len() as int],
        text::tab_expanded(prefix_text(level)),
    ))
}

} // verus!
