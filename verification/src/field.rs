use vstd::prelude::*;
use crate::form::FormError;
use crate::input::Event;
use crate::text::{trim_spec, trim_str};
use crate::validation::{first_failing, rule_message, Validator};
use crate::value::{
    display_chars, is_default_value, parse_value, parseable, parses_to, default_value,
    value_type_of, Value, ValueType,
};

verus! {

/// What a free-text field holds: nothing yet, an explicitly absent optional
/// value, or a parsed value.
#[derive(Debug)]
pub enum TextState {
    /// Not filled yet.
    Unfilled,
    /// Filled from an empty line: the optional value is absent.
    Absent,
    /// Filled with a parsed value.
    Filled(Value),
}

/// A free-text form field: a prompt, an optional chain of validation rules
/// run on the trimmed line before parsing, the type the line is parsed into,
/// whether an empty line may stand for an absent value, and the value once
/// the field has been filled.
#[derive(Debug)]
pub struct Field {
    /// The prompt to display to the user.
    pub prompt: String,
    /// An optional validator for the field.
    pub validator: Option<Validator>,
    /// The type typed-in text is parsed into.
    pub ty: ValueType,
    /// Whether an empty trimmed line stands for an absent value.
    pub optional: bool,
    /// What the field holds.
    pub state: TextState,
}

/// A stored value has the field's type, and only an optional field can hold
/// an absent value.
pub open spec fn field_wf(f: Field) -> bool {
    &&& (f.state matches TextState::Filled(v) ==> value_type_of(v) == f.ty)
    &&& (f.state is Absent ==> f.optional)
}

/// Whether the trimmed line passes the field's validator.
pub open spec fn line_valid(f: Field, t: Seq<char>) -> bool {
    match f.validator {
        Some(v) => first_failing(v.validations@, t) is None,
        None => true,
    }
}

/// Whether the field accepts the trimmed line: it passes the validator, and
/// it is either an empty line for an optional field or text that parses as
/// the field's type.
pub open spec fn line_accepted(f: Field, t: Seq<char>) -> bool {
    line_valid(f, t) && ((f.optional && t.len() == 0) || parseable(f.ty, t))
}

/// The state an accepted trimmed line leaves the field in: absent for an
/// empty optional line, otherwise exactly the parsed value.
pub open spec fn accepted_state(f: Field, t: Seq<char>, st: TextState) -> bool {
    if f.optional && t.len() == 0 {
        st is Absent
    } else {
        st matches TextState::Filled(v) && parses_to(f.ty, t, v)
    }
}

/// Whether some line event from `i` on is accepted by the field, with only
/// line events before it: the condition under which a scripted fill of the
/// field succeeds.
pub open spec fn text_fill_possible(f: Field, ev: Seq<Event>, i: int) -> bool
    decreases ev.len() - i,
{
    0 <= i < ev.len() && match ev[i] {
        Event::Line(l) => line_accepted(f, trim_spec(l@)) || text_fill_possible(f, ev, i + 1),
        Event::Key(_) => false,
    }
}

/// The position just after the first accepted line event from `i` on.
pub open spec fn text_fill_end(f: Field, ev: Seq<Event>, i: int) -> int
    decreases ev.len() - i,
{
    if 0 <= i < ev.len() {
        match ev[i] {
            Event::Line(l) => if line_accepted(f, trim_spec(l@)) {
                i + 1
            } else {
                text_fill_end(f, ev, i + 1)
            },
            Event::Key(_) => i,
        }
    } else {
        i
    }
}

/// How the field answers one submitted line.
#[derive(Debug)]
pub enum SubmitOutcome {
    /// The line was accepted and the value stored.
    Accepted,
    /// A validation rule rejected the line; its message is carried here.
    Invalid(String),
    /// The line passed validation but does not parse as the field's type.
    Unparsable,
}

impl Field {
    /// A fresh, unfilled field.
    pub fn new(prompt: &str, validator: Option<Validator>, ty: ValueType, optional: bool) -> (f:
        Field)
        ensures
            f.prompt@ == prompt@,
            f.validator == validator,
            f.ty == ty,
            f.optional == optional,
            f.state is Unfilled,
            field_wf(f),
    {
        Field {
            prompt: String::from_str(prompt),
            validator,
            ty,
            optional,
            state: TextState::Unfilled,
        }
    }

    /// Offers one typed-in line to the field. The line is trimmed, checked
    /// against the validator, and parsed; the value is stored exactly when
    /// all of that succeeds, and the field is left untouched otherwise, so
    /// the caller can prompt again.
    pub fn submit_line(&mut self, line: &str) -> (r: SubmitOutcome)
        requires
            field_wf(*old(self)),
        ensures
            field_wf(*final(self)),
            final(self).prompt == old(self).prompt,
            final(self).validator == old(self).validator,
            final(self).ty == old(self).ty,
            final(self).optional == old(self).optional,
            match r {
                SubmitOutcome::Accepted => line_accepted(*old(self), trim_spec(line@))
                    && accepted_state(*old(self), trim_spec(line@), final(self).state),
                SubmitOutcome::Invalid(m) => final(self).state == old(self).state && (old(
                    self,
                ).validator matches Some(v) && first_failing(v.validations@, trim_spec(line@))
                    matches Some(j) && m@ == rule_message(v.validations@[j])),
                SubmitOutcome::Unparsable => final(self).state == old(self).state && line_valid(
                    *old(self),
                    trim_spec(line@),
                ) && !(old(self).optional && trim_spec(line@).len() == 0) && !parseable(
                    old(self).ty,
                    trim_spec(line@),
                ),
            },
    {
        let trimmed = trim_str(line);
        let t = trimmed.as_str();
        match &self.validator {
            Option::Some(v) => match v.validate(t) {
                Err(m) => {
                    return SubmitOutcome::Invalid(m);
                },
                Ok(()) => {},
            },
            Option::None => {},
        }
        if self.optional && t.unicode_len() == 0 {
            self.state = TextState::Absent;
            return SubmitOutcome::Accepted;
        }
        match parse_value(self.ty, t) {
            Option::Some(v) => {
                self.state = TextState::Filled(v);
                SubmitOutcome::Accepted
            },
            Option::None => SubmitOutcome::Unparsable,
        }
    }

    /// Fills the field from the supplied events, starting at `pos`: each
    /// line event is offered to the field in turn, a rejected line is simply
    /// passed over (the interactive loop would prompt again), and the first
    /// accepted line fills the field and yields the position after it. Runs
    /// out with an error, leaving the field untouched, when the events end
    /// or a key event comes where a line is needed.
    pub fn fill_from_events(&mut self, events: &Vec<Event>, pos: usize) -> (r: Result<
        usize,
        FormError,
    >)
        requires
            field_wf(*old(self)),
            pos <= events@.len(),
        ensures
            field_wf(*final(self)),
            final(self).prompt == old(self).prompt,
            final(self).validator == old(self).validator,
            final(self).ty == old(self).ty,
            final(self).optional == old(self).optional,
            (r is Ok) == text_fill_possible(*old(self), events@, pos as int),
            r matches Ok(p) ==> pos < p <= events@.len() && p == text_fill_end(
                *old(self),
                events@,
                pos as int,
            ) && (events@[p - 1] matches Event::Line(l) && line_accepted(
                *old(self),
                trim_spec(l@),
            ) && accepted_state(*old(self), trim_spec(l@), final(self).state)),
            r is Err ==> r == Err::<usize, FormError>(FormError::EndOfInput) && *final(self) == *old(
                self,
            ),
    {
        let ghost f0 = *old(self);
        let mut i: usize = pos;
        while i < events.len()
            invariant
                pos <= i <= events@.len(),
                f0 == *old(self),
                *self == f0,
                field_wf(f0),
                text_fill_possible(f0, events@, pos as int) == text_fill_possible(
                    f0,
                    events@,
                    i as int,
                ),
                text_fill_possible(f0, events@, pos as int) ==> text_fill_end(
                    f0,
                    events@,
                    pos as int,
                ) == text_fill_end(f0, events@, i as int),
            decreases events@.len() - i,
        {
            match &events[i] {
                Event::Line(l) => {
                    match self.submit_line(l.as_str()) {
                        SubmitOutcome::Accepted => {
                            return Ok(i + 1);
                        },
                        SubmitOutcome::Invalid(_) => {
                            proof {
                                assert(*self == f0);
                            }
                            i = i + 1;
                        },
                        SubmitOutcome::Unparsable => {
                            proof {
                                assert(*self == f0);
                            }
                            i = i + 1;
                        },
                    }
                },
                Event::Key(_) => {
                    return Err(FormError::EndOfInput);
                },
            }
        }
        Err(FormError::EndOfInput)
    }

    /// The value of the field: the stored one, or the type's default when an
    /// optional field was filled from an empty line. Fails when the field
    /// has not been filled.
    pub fn get_value(&self) -> (r: Result<Value, FormError>)
        ensures
            match self.state {
                TextState::Unfilled => r == Err::<Value, FormError>(FormError::NoValue),
                TextState::Absent => r matches Ok(v) && is_default_value(self.ty, v)
                    && value_type_of(v) == self.ty,
                TextState::Filled(v) => r == Ok::<Value, FormError>(v),
            },
    {
        match &self.state {
            TextState::Unfilled => Err(FormError::NoValue),
            TextState::Absent => Ok(default_value(self.ty)),
            TextState::Filled(v) => Ok(v.duplicate()),
        }
    }

    /// The value of the field as a display string: the stored value
    /// rendered, or `None` for an absent optional value. Fails when the
    /// field has not been filled.
    pub fn get_display_value(&self) -> (r: Result<String, FormError>)
        ensures
            match self.state {
                TextState::Unfilled => r == Err::<String, FormError>(FormError::NoValue),
                TextState::Absent => r matches Ok(s) && s@ == "None"@,
                TextState::Filled(v) => r matches Ok(s) && s@ == display_chars(v),
            },
    {
        match &self.state {
            TextState::Unfilled => Err(FormError::NoValue),
            TextState::Absent => Ok(String::from_str("None")),
            TextState::Filled(v) => Ok(v.display()),
        }
    }
}

} // verus!
