use vstd::prelude::*;
use crate::form::FormError;
use crate::input::{select_commit, select_next, select_wf, Event, SelectWidget};
use crate::value::{display_chars, value_type_of, Value, ValueType};

verus! {

/// Whether some key event from `i` on commits the widget, with only key
/// events before it: the condition under which a scripted fill of a
/// single-select field succeeds.
pub open spec fn select_fill_possible(w: SelectWidget, ev: Seq<Event>, i: int) -> bool
    decreases ev.len() - i,
{
    0 <= i < ev.len() && match ev[i] {
        Event::Key(k) => select_commit(w, k) is Some || select_fill_possible(
            select_next(w, k),
            ev,
            i + 1,
        ),
        Event::Line(_) => false,
    }
}

/// The position just after the first committing key event from `i` on.
pub open spec fn select_fill_end(w: SelectWidget, ev: Seq<Event>, i: int) -> int
    decreases ev.len() - i,
{
    if 0 <= i < ev.len() {
        match ev[i] {
            Event::Key(k) => if select_commit(w, k) is Some {
                i + 1
            } else {
                select_fill_end(select_next(w, k), ev, i + 1)
            },
            Event::Line(_) => i,
        }
    } else {
        i
    }
}

/// The option index the first committing key event from `i` on commits.
pub open spec fn select_fill_choice(w: SelectWidget, ev: Seq<Event>, i: int) -> int
    decreases ev.len() - i,
{
    if 0 <= i < ev.len() {
        match ev[i] {
            Event::Key(k) => if select_commit(w, k) is Some {
                w.cursor as int
            } else {
                select_fill_choice(select_next(w, k), ev, i + 1)
            },
            Event::Line(_) => 0,
        }
    } else {
        0
    }
}

/// A single-select form field: a prompt, an ordered list of value-and-label
/// options of one type, and the index of the committed option once filled.
#[derive(Debug)]
pub struct SelectField {
    /// The prompt to display to the user.
    pub prompt: String,
    /// The type every option value has.
    pub ty: ValueType,
    /// The options available for selection.
    pub options: Vec<(Value, String)>,
    /// The index of the committed option.
    pub value: Option<usize>,
}

/// Every option value has the field's type, and a committed index points at
/// an option.
pub open spec fn select_field_wf(f: SelectField) -> bool {
    &&& forall|i: int|
        0 <= i < f.options@.len() ==> value_type_of(#[trigger] f.options@[i].0) == f.ty
    &&& (f.value matches Some(ix) ==> ix < f.options@.len())
}

/// The value a filled single-select field holds.
pub open spec fn select_value(f: SelectField) -> Value
    recommends
        f.value is Some,
{
    f.options@[f.value->Some_0 as int].0
}

/// A filled single-select field's value is always drawn from the supplied
/// option set, never a value outside it.
pub proof fn lemma_select_value_from_options(f: SelectField)
    requires
        select_field_wf(f),
        f.value is Some,
    ensures
        exists|i: int| 0 <= i < f.options@.len() && (#[trigger] f.options@[i]).0 == select_value(f),
        value_type_of(select_value(f)) == f.ty,
{
    assert(f.options@[f.value->Some_0 as int].0 == select_value(f));
}

impl SelectField {
    /// A fresh, unfilled single-select field.
    pub fn new(prompt: &str, ty: ValueType, options: Vec<(Value, String)>) -> (f: SelectField)
        requires
            forall|i: int| 0 <= i < options@.len() ==> value_type_of(#[trigger] options@[i].0) == ty,
        ensures
            f.prompt@ == prompt@,
            f.ty == ty,
            f.options == options,
            f.value is None,
            select_field_wf(f),
    {
        SelectField { prompt: String::from_str(prompt), ty, options, value: Option::None }
    }

    /// Commits the option at the given index as the field's value.
    pub fn commit(&mut self, ix: usize)
        requires
            select_field_wf(*old(self)),
            ix < old(self).options@.len(),
        ensures
            select_field_wf(*final(self)),
            final(self).prompt == old(self).prompt,
            final(self).ty == old(self).ty,
            final(self).options == old(self).options,
            final(self).value == Some(ix),
    {
        self.value = Option::Some(ix);
    }

    /// Fills the field from the supplied events, starting at `pos`: a fresh
    /// widget walks the options on each key event, and the first enter
    /// commits the option under the cursor and yields the position after it.
    /// Fails, leaving the field untouched, when there are no options at all,
    /// or when the events end or a line event comes where a key is needed.
    pub fn fill_from_events(&mut self, events: &Vec<Event>, pos: usize) -> (r: Result<
        usize,
        FormError,
    >)
        requires
            select_field_wf(*old(self)),
            pos <= events@.len(),
        ensures
            select_field_wf(*final(self)),
            final(self).prompt == old(self).prompt,
            final(self).ty == old(self).ty,
            final(self).options == old(self).options,
            old(self).options@.len() == 0 ==> r == Err::<usize, FormError>(FormError::NoOptions)
                && *final(self) == *old(self),
            old(self).options@.len() > 0 ==> {
                let w0 = SelectWidget { cursor: 0, len: old(self).options@.len() as usize };
                &&& (r is Ok) == select_fill_possible(w0, events@, pos as int)
                &&& (r matches Ok(p) ==> pos < p <= events@.len() && p == select_fill_end(
                    w0,
                    events@,
                    pos as int,
                ) && final(self).value == Some(
                    select_fill_choice(w0, events@, pos as int) as usize,
                ))
                &&& (r is Err ==> r == Err::<usize, FormError>(FormError::EndOfInput)
                    && *final(self) == *old(self))
            },
    {
        let ghost f0 = *old(self);
        let n_opts = self.options.len();
        if n_opts == 0 {
            return Err(FormError::NoOptions);
        }
        let mut w = SelectWidget::new(n_opts);
        let ghost w0 = w;
        let mut i: usize = pos;
        while i < events.len()
            invariant
                pos <= i <= events@.len(),
                f0 == *old(self),
                *self == f0,
                select_field_wf(f0),
                select_wf(w),
                w.len == n_opts,
                n_opts == f0.options@.len(),
                n_opts > 0,
                w0 == (SelectWidget { cursor: 0usize, len: n_opts }),
                select_fill_possible(w0, events@, pos as int) == select_fill_possible(
                    w,
                    events@,
                    i as int,
                ),
                select_fill_possible(w0, events@, pos as int) ==> select_fill_end(
                    w0,
                    events@,
                    pos as int,
                ) == select_fill_end(w, events@, i as int) && select_fill_choice(
                    w0,
                    events@,
                    pos as int,
                ) == select_fill_choice(w, events@, i as int),
            decreases events@.len() - i,
        {
            match &events[i] {
                Event::Key(k) => {
                    match w.step(*k) {
                        Option::Some(ix) => {
                            self.commit(ix);
                            return Ok(i + 1);
                        },
                        Option::None => {
                            i = i + 1;
                        },
                    }
                },
                Event::Line(_) => {
                    return Err(FormError::EndOfInput);
                },
            }
        }
        Err(FormError::EndOfInput)
    }

    /// The committed value. Fails when the field has not been filled.
    pub fn get_value(&self) -> (r: Result<Value, FormError>)
        requires
            select_field_wf(*self),
        ensures
            match self.value {
                None => r == Err::<Value, FormError>(FormError::NoValue),
                Some(_) => r == Ok::<Value, FormError>(select_value(*self)),
            },
    {
        match self.value {
            Option::None => Err(FormError::NoValue),
            Option::Some(ix) => Ok(self.options[ix].0.duplicate()),
        }
    }

    /// The committed value as a display string. Fails when the field has not
    /// been filled.
    pub fn get_display_value(&self) -> (r: Result<String, FormError>)
        requires
            select_field_wf(*self),
        ensures
            match self.value {
                None => r == Err::<String, FormError>(FormError::NoValue),
                Some(_) => r matches Ok(s) && s@ == display_chars(select_value(*self)),
            },
    {
        match self.value {
            Option::None => Err(FormError::NoValue),
            Option::Some(ix) => Ok(self.options[ix].0.display()),
        }
    }
}

} // verus!
