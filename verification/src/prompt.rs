//! The read-trim-parse-validate prompting loop, over a substitutable
//! in-memory line source, together with the single-line step it repeats.
//!
//! Each iteration emits a prompt, takes one line, trims it, parses it into
//! the target type, and runs the trimmed text through the validator; a
//! rejected line draws one diagnostic event and the loop moves to the next
//! line. The loop ends on the first accepted line, or with `None` when the
//! source runs out.

use vstd::prelude::*;
use crate::chars::{chars_of, string_from_chars};
use crate::parse::{parse_u32_chars, parses_as_u32, trim_chars, trim_spec, u32_value};
use crate::validator::{all_hold, Predicate, Validator};

verus! {

/// One line of text the loop writes to the output stream.
#[derive(Clone, Copy, PartialEq, Eq, Structural, Debug)]
pub enum LoopEvent {
    /// The prompt, shown once per iteration.
    Prompt,
    /// The diagnostic for a line that parsed but failed validation.
    InvalidInput,
    /// The diagnostic for a line that did not parse into the target type.
    ParseFailed,
}

/// The loop's decision on a single line.
pub enum Verdict<T> {
    /// The line parsed and passed the validator; holds the parsed value.
    Accepted(T),
    /// The line did not parse into the target type.
    ParseFailed,
    /// The line parsed but failed the validator.
    Invalid,
}

/// A substitutable source of input lines, handed out in order; an exhausted
/// source signals the loop's unrecoverable end-of-input.
pub struct LineSource {
    lines: Vec<String>,
}

impl LineSource {
    /// The lines not yet handed out, in order.
    pub closed spec fn remaining(&self) -> Seq<Seq<char>> {
        self.lines@.map_values(|l: String| l@)
    }

    /// A source that will hand out exactly the given lines.
    pub fn new(lines: Vec<String>) -> (r: LineSource)
        ensures
            r.remaining() == lines@.map_values(|l: String| l@),
    {
        LineSource { lines }
    }

    /// Hands out the next line, or `None` when the source is exhausted.
    pub fn next_line(&mut self) -> (r: Option<String>)
        ensures
            match r {
                Some(line) => old(self).remaining().len() > 0 && line@ == old(
                    self,
                ).remaining()[0] && final(self).remaining() == old(self).remaining().drop_first(),
                None => old(self).remaining().len() == 0 && final(self).remaining() == old(
                    self,
                ).remaining(),
            },
    {
        if self.lines.len() > 0 {
            let line = self.lines.remove(0);
            proof {
                assert(self.remaining() =~= old(self).remaining().drop_first());
            }
            Some(line)
        } else {
            None
        }
    }
}

/// A line is accepted for a string target when its trimmed text passes every
/// predicate; a string target parses unconditionally.
pub open spec fn string_line_accepted(ps: Seq<Predicate>, line: Seq<char>) -> bool {
    all_hold(ps, trim_spec(line))
}

/// What the loop returns for a string target fed these lines: the trimmed
/// text of the first accepted line, or `None` when none is accepted.
pub open spec fn string_loop_result(ps: Seq<Predicate>, lines: Seq<Seq<char>>) -> Option<
    Seq<char>,
>
    decreases lines.len(),
{
    if lines.len() == 0 {
        None
    } else if string_line_accepted(ps, lines[0]) {
        Some(trim_spec(lines[0]))
    } else {
        string_loop_result(ps, lines.drop_first())
    }
}

/// The events the loop emits for a string target fed these lines: a prompt
/// per line taken, a diagnostic per rejected line, and one last prompt
/// before the failing read when the source runs out.
pub open spec fn string_loop_events(ps: Seq<Predicate>, lines: Seq<Seq<char>>) -> Seq<LoopEvent>
    decreases lines.len(),
{
    if lines.len() == 0 {
        seq![LoopEvent::Prompt]
    } else if string_line_accepted(ps, lines[0]) {
        seq![LoopEvent::Prompt]
    } else {
        seq![LoopEvent::Prompt, LoopEvent::InvalidInput] + string_loop_events(
            ps,
            lines.drop_first(),
        )
    }
}

/// The lines left in the source after the loop: those after the first
/// accepted one.
pub open spec fn string_loop_rest(ps: Seq<Predicate>, lines: Seq<Seq<char>>) -> Seq<Seq<char>>
    decreases lines.len(),
{
    if lines.len() == 0 {
        lines
    } else if string_line_accepted(ps, lines[0]) {
        lines.drop_first()
    } else {
        string_loop_rest(ps, lines.drop_first())
    }
}

/// A line parses for a `u32` target when its trimmed text reads as a `u32`.
pub open spec fn u32_line_parses(line: Seq<char>) -> bool {
    parses_as_u32(trim_spec(line))
}

/// A line is accepted for a `u32` target when its trimmed text both reads as
/// a `u32` and passes every predicate.
pub open spec fn u32_line_accepted(ps: Seq<Predicate>, line: Seq<char>) -> bool {
    u32_line_parses(line) && all_hold(ps, trim_spec(line))
}

/// The diagnostic a rejected line draws for a `u32` target: a parse failure
/// is reported before validation is tried.
pub open spec fn u32_line_diagnostic(ps: Seq<Predicate>, line: Seq<char>) -> LoopEvent {
    if !u32_line_parses(line) {
        LoopEvent::ParseFailed
    } else {
        LoopEvent::InvalidInput
    }
}

/// What the loop returns for a `u32` target fed these lines: the value of
/// the first accepted line, or `None` when none is accepted.
pub open spec fn u32_loop_result(ps: Seq<Predicate>, lines: Seq<Seq<char>>) -> Option<int>
    decreases lines.len(),
{
    if lines.len() == 0 {
        None
    } else if u32_line_accepted(ps, lines[0]) {
        Some(u32_value(trim_spec(lines[0])))
    } else {
        u32_loop_result(ps, lines.drop_first())
    }
}

/// The events the loop emits for a `u32` target fed these lines.
pub open spec fn u32_loop_events(ps: Seq<Predicate>, lines: Seq<Seq<char>>) -> Seq<LoopEvent>
    decreases lines.len(),
{
    if lines.len() == 0 {
        seq![LoopEvent::Prompt]
    } else if u32_line_accepted(ps, lines[0]) {
        seq![LoopEvent::Prompt]
    } else {
        seq![LoopEvent::Prompt, u32_line_diagnostic(ps, lines[0])] + u32_loop_events(
            ps,
            lines.drop_first(),
        )
    }
}

/// The lines left in the source after the loop for a `u32` target.
pub open spec fn u32_loop_rest(ps: Seq<Predicate>, lines: Seq<Seq<char>>) -> Seq<Seq<char>>
    decreases lines.len(),
{
    if lines.len() == 0 {
        lines
    } else if u32_line_accepted(ps, lines[0]) {
        lines.drop_first()
    } else {
        u32_loop_rest(ps, lines.drop_first())
    }
}

/// One iteration's decision on a raw line for a `u32` target: trims it,
/// parses the trimmed text, and runs that same text through the validator.
pub fn process_line_u32(line: &str, validator: &Validator) -> (r: Verdict<u32>)
    ensures
        match r {
            Verdict::Accepted(value) => u32_line_accepted(validator.preds(), line@) && value
                == u32_value(trim_spec(line@)),
            Verdict::ParseFailed => !u32_line_parses(line@),
            Verdict::Invalid => u32_line_parses(line@) && !all_hold(
                validator.preds(),
                trim_spec(line@),
            ),
        },
{
    let v = chars_of(line);
    let trimmed = trim_chars(&v);
    let value = match parse_u32_chars(&trimmed) {
        Some(value) => value,
        None => {
            return Verdict::ParseFailed;
        },
    };
    let text = string_from_chars(&trimmed);
    if validator.validate(text.as_str()) {
        Verdict::Accepted(value)
    } else {
        Verdict::Invalid
    }
}

/// Prompts and reads until a line's trimmed text parses as a `u32` and
/// passes the validator, and returns the parsed value; returns `None` when
/// the source runs out first. Emits one prompt per line taken plus a final
/// one on exhaustion, and per rejected line one diagnostic telling a parse
/// failure from a validation failure, onto `events`. The prompt text is
/// display only, with no effect on behaviour: each showing of it is recorded
/// as a `Prompt` event.
pub fn read_input_u32(
    _prompt: &str,
    validator: &Validator,
    source: &mut LineSource,
    events: &mut Vec<LoopEvent>,
) -> (r: Option<u32>)
    ensures
        final(events)@ == old(events)@ + u32_loop_events(
            validator.preds(),
            old(source).remaining(),
        ),
        final(source).remaining() == u32_loop_rest(validator.preds(), old(source).remaining()),
        match r {
            Some(value) => u32_loop_result(validator.preds(), old(source).remaining()) == Some(
                value as int,
            ),
            None => u32_loop_result(validator.preds(), old(source).remaining()) is None,
        },
{
    let ghost ps = validator.preds();
    loop
        invariant
            ps == validator.preds(),
            u32_loop_result(ps, source.remaining()) == u32_loop_result(
                ps,
                old(source).remaining(),
            ),
            events@ + u32_loop_events(ps, source.remaining()) == old(events)@ + u32_loop_events(
                ps,
                old(source).remaining(),
            ),
            u32_loop_rest(ps, source.remaining()) == u32_loop_rest(ps, old(source).remaining()),
        decreases source.remaining().len(),
    {
        events.push(LoopEvent::Prompt);
        let ghost lines = source.remaining();
        match source.next_line() {
            None => {
                proof {
                    assert(events@ =~= old(events)@ + u32_loop_events(
                        ps,
                        old(source).remaining(),
                    ));
                }
                return None;
            },
            Some(line) => {
                match process_line_u32(line.as_str(), validator) {
                    Verdict::Accepted(value) => {
                        proof {
                            assert(u32_line_accepted(ps, lines[0]));
                            assert(events@ =~= old(events)@ + u32_loop_events(
                                ps,
                                old(source).remaining(),
                            ));
                        }
                        return Some(value);
                    },
                    Verdict::ParseFailed => {
                        events.push(LoopEvent::ParseFailed);
                        proof {
                            assert(!u32_line_accepted(ps, lines[0]));
                            assert(u32_line_diagnostic(ps, lines[0]) == LoopEvent::ParseFailed);
                            assert(u32_loop_events(ps, lines) == seq![
                                LoopEvent::Prompt,
                                LoopEvent::ParseFailed,
                            ] + u32_loop_events(ps, lines.drop_first()));
                            assert(events@ + u32_loop_events(ps, source.remaining()) =~= old(
                                events,
                            )@ + u32_loop_events(ps, old(source).remaining()));
                        }
                    },
                    Verdict::Invalid => {
                        events.push(LoopEvent::InvalidInput);
                        proof {
                            assert(!u32_line_accepted(ps, lines[0]));
                            assert(u32_line_diagnostic(ps, lines[0]) == LoopEvent::InvalidInput);
                            assert(u32_loop_events(ps, lines) == seq![
                                LoopEvent::Prompt,
                                LoopEvent::InvalidInput,
                            ] + u32_loop_events(ps, lines.drop_first()));
                            assert(events@ + u32_loop_events(ps, source.remaining()) =~= old(
                                events,
                            )@ + u32_loop_events(ps, old(source).remaining()));
                        }
                    },
                }
            },
        }
    }
}

/// One iteration's decision on a raw line for a string target: trims it and
/// runs the trimmed text through the validator.
pub fn process_line_string(line: &str, validator: &Validator) -> (r: Verdict<String>)
    ensures
        match r {
            Verdict::Accepted(value) => string_line_accepted(validator.preds(), line@) && value@
                == trim_spec(line@),
            Verdict::Invalid => !string_line_accepted(validator.preds(), line@),
            Verdict::ParseFailed => false,
        },
{
    let v = chars_of(line);
    let trimmed = trim_chars(&v);
    let text = string_from_chars(&trimmed);
    if validator.validate(text.as_str()) {
        Verdict::Accepted(text)
    } else {
        Verdict::Invalid
    }
}

/// Prompts and reads until a line's trimmed text passes the validator, and
/// returns that text; returns `None` when the source runs out first. Emits
/// one prompt per line taken plus a final one on exhaustion, and one
/// `InvalidInput` diagnostic per rejected line, onto `events`. The prompt
/// text is display only, with no effect on behaviour: each showing of it is
/// recorded as a `Prompt` event.
pub fn read_input_string(
    _prompt: &str,
    validator: &Validator,
    source: &mut LineSource,
    events: &mut Vec<LoopEvent>,
) -> (r: Option<String>)
    ensures
        final(events)@ == old(events)@ + string_loop_events(
            validator.preds(),
            old(source).remaining(),
        ),
        final(source).remaining() == string_loop_rest(validator.preds(), old(source).remaining()),
        match r {
            Some(value) => string_loop_result(validator.preds(), old(source).remaining()) == Some(
                value@,
            ) && all_hold(validator.preds(), value@),
            None => string_loop_result(validator.preds(), old(source).remaining()) is None,
        },
{
    let ghost ps = validator.preds();
    loop
        invariant
            ps == validator.preds(),
            string_loop_result(ps, source.remaining()) == string_loop_result(
                ps,
                old(source).remaining(),
            ),
            events@ + string_loop_events(ps, source.remaining()) == old(events)@
                + string_loop_events(ps, old(source).remaining()),
            string_loop_rest(ps, source.remaining()) == string_loop_rest(
                ps,
                old(source).remaining(),
            ),
        decreases source.remaining().len(),
    {
        events.push(LoopEvent::Prompt);
        let ghost lines = source.remaining();
        match source.next_line() {
            None => {
                proof {
                    assert(events@ =~= old(events)@ + string_loop_events(
                        ps,
                        old(source).remaining(),
                    ));
                }
                return None;
            },
            Some(line) => {
                match process_line_string(line.as_str(), validator) {
                    Verdict::Accepted(value) => {
                        proof {
                            assert(string_line_accepted(ps, lines[0]));
                            assert(events@ =~= old(events)@ + string_loop_events(
                                ps,
                                old(source).remaining(),
                            ));
                        }
                        return Some(value);
                    },
                    _ => {
                        events.push(LoopEvent::InvalidInput);
                        proof {
                            assert(!string_line_accepted(ps, lines[0]));
                            assert(string_loop_events(ps, lines) == seq![
                                LoopEvent::Prompt,
                                LoopEvent::InvalidInput,
                            ] + string_loop_events(ps, lines.drop_first()));
                            assert(events@ + string_loop_events(ps, source.remaining()) =~= old(
                                events,
                            )@ + string_loop_events(ps, old(source).remaining()));
                        }
                    },
                }
            },
        }
    }
}

} // verus!
