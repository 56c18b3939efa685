//! The transcript buffer: it gathers the final segments of a transcript and
//! decides when the gathered text goes to translation.

use crate::clock::{Duration, Instant};
use crate::text::{char_is_white, chars_of, trim_text};
use vstd::prelude::*;
use vstd::string::*;

verus! {

broadcast use vstd::string::group_string_axioms;

/// When the buffer flushes.
#[derive(Debug, Clone, Copy)]
pub struct TranscriptBufferConfig {
    /// Flush if the buffer ends in `.`/`?`/`!`/`…` and holds at least this
    /// many characters.
    pub min_chars_for_punct_flush: usize,
    /// Flush at this many characters even without punctuation. Prevents
    /// runaway accumulation on a long monologue.
    pub max_chars_before_flush: usize,
    /// Flush if no new word arrived for this long.
    pub silence_flush: Duration,
    /// Always flush at the end of an utterance.
    pub flush_on_utterance_end: bool,
}

impl Default for TranscriptBufferConfig {
    fn default() -> (r: Self)
        ensures
            r.min_chars_for_punct_flush == 30,
            r.max_chars_before_flush == 240,
            r.silence_flush.nanos == 1_500_000_000,
            r.flush_on_utterance_end,
    {
        TranscriptBufferConfig {
            min_chars_for_punct_flush: 30,
            max_chars_before_flush: 240,
            silence_flush: Duration::from_millis(1500),
            flush_on_utterance_end: true,
        }
    }
}

/// Why the buffer flushed.
#[derive(Debug, Clone, Copy, PartialEq, Eq, Structural)]
pub enum FlushReason {
    Punctuation,
    MaxChars,
    Silence,
    UtteranceEnd,
    Manual,
}

/// The label of a flush reason.
pub open spec fn reason_label(reason: FlushReason) -> Seq<char> {
    match reason {
        FlushReason::Punctuation => "punctuation"@,
        FlushReason::MaxChars => "max-chars"@,
        FlushReason::Silence => "silence"@,
        FlushReason::UtteranceEnd => "utterance-end"@,
        FlushReason::Manual => "manual"@,
    }
}

impl FlushReason {
    /// The label of the reason, for logs.
    pub fn as_str(self) -> (r: &'static str)
        ensures
            r@ == reason_label(self),
    {
        match self {
            FlushReason::Punctuation => "punctuation",
            FlushReason::MaxChars => "max-chars",
            FlushReason::Silence => "silence",
            FlushReason::UtteranceEnd => "utterance-end",
            FlushReason::Manual => "manual",
        }
    }
}

/// Output of a single buffer step.
#[derive(Debug, Clone, PartialEq, Eq)]
pub enum BufferOutput {
    /// A final landed and was appended; nothing flushed yet.
    Finalised { text: String },
    /// Flush triggered. `text` is the full accumulated buffer, which is
    /// empty after this output.
    Flushed { text: String, reason: FlushReason },
}

/// What a [`BufferOutput`] says.
pub enum OutputModel {
    Finalised { text: Seq<char> },
    Flushed { text: Seq<char>, reason: FlushReason },
}

impl View for BufferOutput {
    type V = OutputModel;

    open spec fn view(&self) -> OutputModel {
        match self {
            BufferOutput::Finalised { text } => OutputModel::Finalised { text: text@ },
            BufferOutput::Flushed { text, reason } => OutputModel::Flushed {
                text: text@,
                reason: *reason,
            },
        }
    }
}

/// What a [`TranscriptBuffer`] holds.
pub struct BufferModel {
    pub cfg: TranscriptBufferConfig,
    pub text: Seq<char>,
    pub last_word_at: Option<Instant>,
    pub partial: Seq<char>,
}

/// The buffer text once a final segment has been appended: a space stands
/// between the two unless the buffer is empty or ends in one.
pub open spec fn appended(text: Seq<char>, segment: Seq<char>) -> Seq<char> {
    if text.len() == 0 || text.last() == ' ' {
        text + crate::text::trimmed(segment)
    } else {
        text.push(' ') + crate::text::trimmed(segment)
    }
}

/// Whether `c` ends a sentence.
pub open spec fn is_terminal(c: char) -> bool {
    c == '.' || c == '?' || c == '!' || c == '…'
}

/// Whether `text` ends in sentence-terminal punctuation, trailing whitespace aside.
pub open spec fn ends_sentence(text: Seq<char>) -> bool {
    let t = crate::text::trim_end(text);
    t.len() > 0 && is_terminal(t.last())
}

/// Why a buffer that holds `text` flushes after a final segment, if it does.
pub open spec fn final_reason(cfg: TranscriptBufferConfig, text: Seq<char>) -> Option<FlushReason> {
    if text.len() >= cfg.min_chars_for_punct_flush && ends_sentence(text) {
        Some(FlushReason::Punctuation)
    } else if text.len() >= cfg.max_chars_before_flush {
        Some(FlushReason::MaxChars)
    } else {
        None
    }
}

impl BufferModel {
    /// A buffer that nothing has arrived in.
    pub open spec fn fresh(cfg: TranscriptBufferConfig) -> BufferModel {
        BufferModel { cfg, text: Seq::empty(), last_word_at: None, partial: Seq::empty() }
    }

    /// The buffer after a flush: no text and no last word.
    pub open spec fn emptied(self) -> BufferModel {
        BufferModel { text: Seq::empty(), last_word_at: None, ..self }
    }

    /// The step that flushes the buffer.
    pub open spec fn flush(self, reason: FlushReason) -> (BufferModel, Option<OutputModel>) {
        (self.emptied(), Some(OutputModel::Flushed { text: self.text, reason }))
    }

    /// The step for a partial.
    pub open spec fn with_partial(self, text: Seq<char>) -> BufferModel {
        BufferModel { partial: text, ..self }
    }

    /// The step for a final segment.
    pub open spec fn after_final(self, text: Seq<char>, now: Instant) -> (
        BufferModel,
        Option<OutputModel>,
    ) {
        if crate::text::blank(text) {
            (self, None)
        } else {
            let next = BufferModel {
                text: appended(self.text, text),
                last_word_at: Some(now),
                partial: Seq::empty(),
                ..self
            };
            match final_reason(self.cfg, next.text) {
                Some(reason) => next.flush(reason),
                None => (next, None),
            }
        }
    }

    /// The step for the end of an utterance.
    pub open spec fn after_utterance_end(self) -> (BufferModel, Option<OutputModel>) {
        if self.cfg.flush_on_utterance_end && self.text.len() > 0 {
            self.flush(FlushReason::UtteranceEnd)
        } else {
            (self, None)
        }
    }

    /// The step for a tick of the clock.
    pub open spec fn after_tick(self, now: Instant) -> (BufferModel, Option<OutputModel>) {
        match self.last_word_at {
            Some(last) => if self.text.len() > 0 && crate::clock::elapsed(now, last)
                >= self.cfg.silence_flush.nanos {
                self.flush(FlushReason::Silence)
            } else {
                (self, None)
            },
            None => (self, None),
        }
    }

    /// The step for a flush by hand.
    pub open spec fn after_flush_now(self) -> (BufferModel, Option<OutputModel>) {
        if self.text.len() > 0 {
            self.flush(FlushReason::Manual)
        } else {
            (self, None)
        }
    }
}

/// State machine. Holds the running text, the time of the last word, and the
/// latest partial.
pub struct TranscriptBuffer {
    cfg: TranscriptBufferConfig,
    buf: String,
    last_word_at: Option<Instant>,
    last_partial: String,
}

impl View for TranscriptBuffer {
    type V = BufferModel;

    closed spec fn view(&self) -> BufferModel {
        BufferModel {
            cfg: self.cfg,
            text: self.buf@,
            last_word_at: self.last_word_at,
            partial: self.last_partial@,
        }
    }
}

/// What an optional output says.
pub open spec fn output_model(out: Option<BufferOutput>) -> Option<OutputModel> {
    match out {
        Some(o) => Some(o@),
        None => None,
    }
}

impl TranscriptBuffer {
    /// An empty buffer.
    pub fn new(cfg: TranscriptBufferConfig) -> (r: TranscriptBuffer)
        ensures
            r@ == BufferModel::fresh(cfg),
    {
        TranscriptBuffer {
            cfg,
            buf: String::new(),
            last_word_at: None,
            last_partial: String::new(),
        }
    }

    /// The thresholds of this buffer.
    pub fn config(&self) -> (r: &TranscriptBufferConfig)
        ensures
            *r == self@.cfg,
    {
        &self.cfg
    }

    /// Current accumulated text.
    pub fn current(&self) -> (r: &str)
        ensures
            r@ == self@.text,
    {
        self.buf.as_str()
    }

    /// Latest partial. Cleared whenever a final lands.
    pub fn latest_partial(&self) -> (r: &str)
        ensures
            r@ == self@.partial,
    {
        self.last_partial.as_str()
    }

    /// Update the latest partial. Returns the new partial as a borrow.
    pub fn on_partial(&mut self, text: String) -> (r: &str)
        ensures
            r@ == text@,
            final(self)@ == old(self)@.with_partial(text@),
    {
        self.last_partial = text;
        self.last_partial.as_str()
    }

    /// Append a final segment. Flushes when the buffer ends with
    /// sentence-terminal punctuation and is long enough, or reaches the
    /// maximum length.
    pub fn on_final(&mut self, text: &str, now: Instant) -> (out: Vec<BufferOutput>)
        ensures
            out@.len() <= 1,
            ({
                let (next, output) = old(self)@.after_final(text@, now);
                &&& final(self)@ == next
                &&& output == if out@.len() == 1 {
                    Some(out@[0]@)
                } else {
                    None
                }
            }),
    {
        let mut out: Vec<BufferOutput> = Vec::new();
        let segment: String = trim_text(text);
        if segment.as_str().is_empty() {
            return out;
        }
        self.last_partial = String::new();
        let chars: Vec<char> = chars_of(self.buf.as_str());
        if chars.len() > 0 && chars[chars.len() - 1] != ' ' {
            self.buf.push(' ');
        }
        self.buf.append(segment.as_str());
        self.last_word_at = Some(now);
        proof {
            let t = old(self)@.text;
            assert(self.buf@ =~= appended(t, text@));
        }
        if self.should_flush_on_punct() {
            out.push(self.take_flush(FlushReason::Punctuation));
        } else if self.buf.as_str().unicode_len() >= self.cfg.max_chars_before_flush {
            out.push(self.take_flush(FlushReason::MaxChars));
        }
        out
    }

    fn should_flush_on_punct(&self) -> (r: bool)
        ensures
            r == (self@.text.len() >= self@.cfg.min_chars_for_punct_flush && ends_sentence(
                self@.text,
            )),
    {
        if self.buf.as_str().unicode_len() < self.cfg.min_chars_for_punct_flush {
            return false;
        }
        let chars: Vec<char> = chars_of(self.buf.as_str());
        let mut n: usize = chars.len();
        assert(chars@.take(n as int) =~= self.buf@);
        while n > 0 && char_is_white(chars[n - 1])
            invariant
                n <= chars@.len(),
                crate::text::trim_end(self.buf@) == crate::text::trim_end(chars@.take(n as int)),
            ensures
                n <= chars@.len(),
                crate::text::trim_end(self.buf@) == chars@.take(n as int),
            decreases n,
        {
            assert(chars@.take(n as int).drop_last() =~= chars@.take(n - 1));
            n = n - 1;
        }
        if n == 0 {
            return false;
        }
        let c: char = chars[n - 1];
        c == '.' || c == '?' || c == '!' || c == '…'
    }

    /// Hard end of speech.
    pub fn on_utterance_end(&mut self) -> (out: Option<BufferOutput>)
        ensures
            (final(self)@, output_model(out)) == old(self)@.after_utterance_end(),
    {
        if self.cfg.flush_on_utterance_end && !self.buf.as_str().is_empty() {
            Some(self.take_flush(FlushReason::UtteranceEnd))
        } else {
            None
        }
    }

    /// Periodic tick. Triggers a silence flush if `silence_flush` elapsed
    /// since the last word.
    pub fn on_tick(&mut self, now: Instant) -> (out: Option<BufferOutput>)
        ensures
            (final(self)@, output_model(out)) == old(self)@.after_tick(now),
    {
        match self.last_word_at {
            None => None,
            Some(last) => {
                if self.buf.as_str().is_empty() {
                    None
                } else if now.duration_since(last).nanos >= self.cfg.silence_flush.nanos {
                    Some(self.take_flush(FlushReason::Silence))
                } else {
                    None
                }
            },
        }
    }

    /// Manual flush.
    pub fn flush_now(&mut self) -> (out: Option<BufferOutput>)
        ensures
            (final(self)@, output_model(out)) == old(self)@.after_flush_now(),
    {
        if self.buf.as_str().is_empty() {
            None
        } else {
            Some(self.take_flush(FlushReason::Manual))
        }
    }

    fn take_flush(&mut self, reason: FlushReason) -> (out: BufferOutput)
        ensures
            final(self)@ == old(self)@.emptied(),
            out@ == (OutputModel::Flushed { text: old(self)@.text, reason }),
    {
        let mut text: String = String::new();
        std::mem::swap(&mut text, &mut self.buf);
        self.last_word_at = None;
        BufferOutput::Flushed { text, reason }
    }
}

/// Something that arrives at a transcript buffer.
pub enum BufferInput {
    Partial(Seq<char>),
    Final(Seq<char>, Instant),
    UtteranceEnd,
    Tick(Instant),
    FlushNow,
}

/// One step of the buffer.
pub open spec fn buffer_step(m: BufferModel, input: BufferInput) -> (
    BufferModel,
    Option<OutputModel>,
) {
    match input {
        BufferInput::Partial(text) => (m.with_partial(text), None),
        BufferInput::Final(text, now) => m.after_final(text, now),
        BufferInput::UtteranceEnd => m.after_utterance_end(),
        BufferInput::Tick(now) => m.after_tick(now),
        BufferInput::FlushNow => m.after_flush_now(),
    }
}

/// The buffer and its outputs after a sequence of inputs, from an empty buffer.
pub open spec fn buffer_run(cfg: TranscriptBufferConfig, inputs: Seq<BufferInput>) -> (
    BufferModel,
    Seq<OutputModel>,
)
    decreases inputs.len(),
{
    if inputs.len() == 0 {
        (BufferModel::fresh(cfg), Seq::empty())
    } else {
        let (m, outs) = buffer_run(cfg, inputs.drop_last());
        let (next, out) = buffer_step(m, inputs.last());
        (
            next,
            match out {
                Some(o) => outs.push(o),
                None => outs,
            },
        )
    }
}

/// The segments that were said: the final segments that hold more than
/// whitespace, trimmed.
pub open spec fn said(inputs: Seq<BufferInput>) -> Seq<Seq<char>>
    decreases inputs.len(),
{
    if inputs.len() == 0 {
        Seq::empty()
    } else {
        let before = said(inputs.drop_last());
        match inputs.last() {
            BufferInput::Final(text, _) => if crate::text::blank(text) {
                before
            } else {
                before.push(crate::text::trimmed(text))
            },
            _ => before,
        }
    }
}

/// The text of an output.
pub open spec fn output_text(out: OutputModel) -> Seq<char> {
    match out {
        OutputModel::Finalised { text } => text,
        OutputModel::Flushed { text, .. } => text,
    }
}

/// The texts that went out, and behind them the text that still waits.
pub open spec fn told(m: BufferModel, outs: Seq<OutputModel>) -> Seq<Seq<char>> {
    let gone = outs.map_values(|o: OutputModel| output_text(o));
    if m.text.len() == 0 {
        gone
    } else {
        gone.push(m.text)
    }
}

/// What holds of a buffer in every state that inputs lead to.
pub open spec fn buffer_settled(m: BufferModel) -> bool {
    &&& m.text.len() > 0 ==> !crate::text::is_white(m.text.last())
    &&& m.text.len() > 0 ==> m.text.len() < m.cfg.max_chars_before_flush
    &&& m.text.len() > 0 <==> m.last_word_at is Some
}

/// The thresholds never change; the waiting text stays shorter than the
/// maximum, ends in no whitespace, and waits exactly while a last word is on
/// record; every flushed text holds something.
pub proof fn buffer_stays_settled(cfg: TranscriptBufferConfig, inputs: Seq<BufferInput>)
    ensures
        ({
            let (m, outs) = buffer_run(cfg, inputs);
            &&& m.cfg == cfg
            &&& buffer_settled(m)
            &&& forall|i: int|
                0 <= i < outs.len() ==> #[trigger] outs[i] is Flushed && output_text(outs[i]).len()
                    > 0
        }),
    decreases inputs.len(),
{
    if inputs.len() > 0 {
        buffer_stays_settled(cfg, inputs.drop_last());
        let (m, outs) = buffer_run(cfg, inputs.drop_last());
        if let BufferInput::Final(text, now) = inputs.last() {
            crate::text::lemma_trimmed_ends(text);
            if !crate::text::blank(text) {
                assert(appended(m.text, text).last() == crate::text::trimmed(text).last());
            }
        }
    }
}

/// No word is lost, doubled or put out of order: whatever arrives, the flushed
/// texts and the waiting text, joined by spaces, are the trimmed final segments
/// joined by spaces.
pub proof fn buffer_keeps_every_word(cfg: TranscriptBufferConfig, inputs: Seq<BufferInput>)
    ensures
        ({
            let (m, outs) = buffer_run(cfg, inputs);
            crate::text::joined(told(m, outs), seq![' ']) == crate::text::joined(
                said(inputs),
                seq![' '],
            )
        }),
        ({
            let (m, outs) = buffer_run(cfg, inputs);
            told(m, outs).len() == 0 <==> said(inputs).len() == 0
        }),
    decreases inputs.len(),
{
    let sp = seq![' '];
    if inputs.len() == 0 {
        let (m, outs) = buffer_run(cfg, inputs);
        assert(told(m, outs) =~= Seq::empty());
    } else {
        buffer_keeps_every_word(cfg, inputs.drop_last());
        buffer_stays_settled(cfg, inputs.drop_last());
        let (m, outs) = buffer_run(cfg, inputs.drop_last());
        let (next, out) = buffer_step(m, inputs.last());
        let outs2 = match out {
            Some(o) => outs.push(o),
            None => outs,
        };
        let gone = outs.map_values(|o: OutputModel| output_text(o));
        let gone2 = outs2.map_values(|o: OutputModel| output_text(o));
        if out is Some {
            assert(gone2 =~= gone.push(output_text(out->0)));
        }
        match inputs.last() {
            BufferInput::Final(text, now) => {
                if !crate::text::blank(text) {
                    let t = crate::text::trimmed(text);
                    let whole = appended(m.text, text);
                    crate::text::lemma_trimmed_ends(text);
                    crate::text::lemma_joined_push(said(inputs.drop_last()), sp, t);
                    assert(told(next, outs2) =~= gone.push(whole));
                    let before = told(m, outs);
                    if m.text.len() == 0 {
                        assert(whole =~= t);
                        crate::text::lemma_joined_push(gone, sp, t);
                    } else {
                        assert(m.text.last() != ' ');
                        assert(whole =~= m.text + (sp + t));
                        assert(before.drop_last() =~= gone);
                        crate::text::lemma_joined_extend_last(before, sp, sp + t);
                        assert(crate::text::joined(before, sp) + (sp + t) =~= crate::text::joined(
                            before,
                            sp,
                        ) + sp + t);
                    }
                } else {
                    assert(told(next, outs2) =~= told(m, outs));
                }
            },
            _ => {
                assert(told(next, outs2) =~= told(m, outs));
            },
        }
    }
}

/// A flush leaves nothing to flush: a second flush by hand gives nothing.
pub proof fn flush_now_twice(m: BufferModel)
    ensures
        m.after_flush_now().0.text.len() == 0,
        m.after_flush_now().0.after_flush_now() == (m.after_flush_now().0, None::<OutputModel>),
{
}

/// A partial changes nothing but the partial, and the next final segment
/// that holds more than whitespace clears it.
pub proof fn partial_is_only_shown(m: BufferModel, partial: Seq<char>, text: Seq<char>, now: Instant)
    ensures
        m.with_partial(partial).text == m.text,
        m.with_partial(partial).last_word_at == m.last_word_at,
        m.with_partial(partial).cfg == m.cfg,
        !crate::text::blank(text) ==> m.with_partial(partial).after_final(text, now)
            == m.after_final(text, now) && m.after_final(text, now).0.partial.len() == 0,
{
}

/// What a final segment does, whatever whitespace stands around it. It joins
/// the waiting text, behind a space where none is there. Where the whole has
/// as many characters as the least number says and ends in `.`, `?`, `!` or
/// `…`, it is flushed at once for its punctuation; else where it has as many
/// as the greatest number says, for its length; else it waits, and nothing is
/// told.
pub proof fn final_segment_waits_or_is_flushed(
    b: &mut TranscriptBuffer,
    text: &str,
    now: Instant,
    out: Vec<BufferOutput>,
    lead: Seq<char>,
    segment: Seq<char>,
    trail: Seq<char>,
)
    requires
        call_ensures(TranscriptBuffer::on_final, (b, text, now), out),
        text@ == lead + segment + trail,
        crate::text::all_white(lead),
        crate::text::all_white(trail),
        segment.len() > 0,
        crate::text::has_firm_ends(segment),
    ensures
        ({
            let waiting = old(b)@.text;
            let whole = if waiting.len() == 0 || waiting.last() == ' ' {
                waiting + segment
            } else {
                waiting + seq![' '] + segment
            };
            let least = old(b)@.cfg.min_chars_for_punct_flush;
            let most = old(b)@.cfg.max_chars_before_flush;
            let last = segment.last();
            let sentence = last == '.' || last == '?' || last == '!' || last == '…';
            &&& whole.len() >= least && sentence ==> out@.len() == 1 && out@[0]@
                == (OutputModel::Flushed { text: whole, reason: FlushReason::Punctuation })
            &&& !(whole.len() >= least && sentence) && whole.len() >= most ==> out@.len() == 1
                && out@[0]@ == (OutputModel::Flushed { text: whole, reason: FlushReason::MaxChars })
            &&& !(whole.len() >= least && sentence) && whole.len() < most ==> out@.len() == 0
            &&& final(b)@.text == if out@.len() == 0 {
                whole
            } else {
                Seq::empty()
            }
            &&& final(b)@.last_word_at == if out@.len() == 0 {
                Some(now)
            } else {
                None
            }
            &&& final(b)@.partial.len() == 0
            &&& final(b)@.cfg == old(b)@.cfg
        }),
{
    crate::text::lemma_trimmed_body(lead, segment, trail);
    let waiting = old(b)@.text;
    let whole = appended(waiting, text@);
    assert(whole =~= if waiting.len() == 0 || waiting.last() == ' ' {
        waiting + segment
    } else {
        waiting + seq![' '] + segment
    });
    assert(whole.last() == segment.last());
    assert(crate::text::trim_end(whole) == whole);
}

/// A final segment of nothing but whitespace changes nothing and tells nothing.
pub proof fn blank_segment_is_ignored(
    b: &mut TranscriptBuffer,
    text: &str,
    now: Instant,
    out: Vec<BufferOutput>,
)
    requires
        call_ensures(TranscriptBuffer::on_final, (b, text, now), out),
        crate::text::all_white(text@),
    ensures
        out@.len() == 0,
        final(b)@ == old(b)@,
{
    crate::text::lemma_blank_is_white(text@);
}

/// A tick flushes the waiting text for silence exactly where the time since
/// the last word has reached the threshold; else it changes nothing.
pub proof fn silence_flushes_what_waits(
    b: &mut TranscriptBuffer,
    now: Instant,
    out: Option<BufferOutput>,
    last: Instant,
)
    requires
        call_ensures(TranscriptBuffer::on_tick, (b, now), out),
        old(b)@.text.len() > 0,
        old(b)@.last_word_at == Some(last),
    ensures
        ({
            let span = old(b)@.cfg.silence_flush.nanos;
            let silent = span == 0 || now.nanos >= last.nanos + span;
            &&& silent ==> output_model(out) == Some(
                OutputModel::Flushed { text: old(b)@.text, reason: FlushReason::Silence },
            ) && final(b)@.text.len() == 0 && final(b)@.last_word_at is None
            &&& !silent ==> out is None && final(b)@ == old(b)@
            &&& final(b)@.cfg == old(b)@.cfg
            &&& final(b)@.partial == old(b)@.partial
        }),
{
}

/// The end of an utterance flushes the waiting text, unless the settings say
/// otherwise; a flush by hand does so in any case. Where nothing waits, neither
/// does anything, nor does a tick.
pub proof fn ends_and_hands_flush_what_waits(
    ended: &mut TranscriptBuffer,
    end: Option<BufferOutput>,
    pressed: &mut TranscriptBuffer,
    hand: Option<BufferOutput>,
    ticked: &mut TranscriptBuffer,
    now: Instant,
    tick: Option<BufferOutput>,
)
    requires
        call_ensures(TranscriptBuffer::on_utterance_end, (ended,), end),
        call_ensures(TranscriptBuffer::flush_now, (pressed,), hand),
        call_ensures(TranscriptBuffer::on_tick, (ticked, now), tick),
        old(ended)@ == old(pressed)@,
        old(pressed)@ == old(ticked)@,
    ensures
        ({
            let waiting = old(ended)@.text;
            let emptied = (BufferModel {
                text: Seq::empty(),
                last_word_at: None,
                ..old(ended)@
            });
            &&& waiting.len() > 0 && old(ended)@.cfg.flush_on_utterance_end ==> output_model(end)
                == Some(OutputModel::Flushed { text: waiting, reason: FlushReason::UtteranceEnd })
                && final(ended)@ == emptied
            &&& !(waiting.len() > 0 && old(ended)@.cfg.flush_on_utterance_end) ==> end is None
                && final(ended)@ == old(ended)@
            &&& waiting.len() > 0 ==> output_model(hand) == Some(
                OutputModel::Flushed { text: waiting, reason: FlushReason::Manual },
            ) && final(pressed)@ == emptied
            &&& waiting.len() == 0 ==> hand is None && final(pressed)@ == old(pressed)@ && tick
                is None && final(ticked)@ == old(ticked)@
        }),
{
}

/// A new buffer holds nothing and has the thresholds it was given.
pub proof fn new_buffer_is_empty(cfg: TranscriptBufferConfig, b: TranscriptBuffer)
    requires
        call_ensures(TranscriptBuffer::new, (cfg,), b),
    ensures
        b@.text.len() == 0,
        b@.partial.len() == 0,
        b@.last_word_at is None,
        b@.cfg == cfg,
{
}

/// What is waiting and what was last heard can be read off the buffer.
pub proof fn buffer_shows_its_text(b: &TranscriptBuffer, current: &str, partial: &str)
    requires
        call_ensures(TranscriptBuffer::current, (b,), current),
        call_ensures(TranscriptBuffer::latest_partial, (b,), partial),
    ensures
        current@ == b@.text,
        partial@ == b@.partial,
{
}

/// The default thresholds: 30 characters for a sentence, 240 in any case, a
/// second and a half of silence, and the end of an utterance.
pub proof fn default_thresholds_are_documented(r: TranscriptBufferConfig)
    requires
        call_ensures(<TranscriptBufferConfig as Default>::default, (), r),
    ensures
        r.min_chars_for_punct_flush == 30,
        r.max_chars_before_flush == 240,
        r.silence_flush.nanos == 1_500_000_000,
        r.flush_on_utterance_end,
{
}

/// A partial is shown and changes nothing else.
pub proof fn partial_is_shown(b: &mut TranscriptBuffer, text: String, shown: &str)
    requires
        call_ensures(TranscriptBuffer::on_partial, (b, text), shown),
    ensures
        shown@ == text@,
        final(b)@ == (BufferModel { partial: text@, ..old(b)@ }),
{
}

/// Each reason for a flush has a label of its own.
pub proof fn reasons_have_labels(reason: FlushReason, label: &'static str)
    requires
        call_ensures(FlushReason::as_str, (reason,), label),
    ensures
        reason == FlushReason::Punctuation ==> label@ == "punctuation"@,
        reason == FlushReason::MaxChars ==> label@ == "max-chars"@,
        reason == FlushReason::Silence ==> label@ == "silence"@,
        reason == FlushReason::UtteranceEnd ==> label@ == "utterance-end"@,
        reason == FlushReason::Manual ==> label@ == "manual"@,
        label@ == reason_label(reason),
{
}

} // verus!
