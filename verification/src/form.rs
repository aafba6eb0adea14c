use vstd::prelude::*;
use crate::field::{
    accepted_state, field_wf, line_accepted, text_fill_end, text_fill_possible, Field, TextState,
};
use crate::input::{Event, SelectWidget};
use crate::multiselect_field::{
    multi_field_wf, multi_fill_chosen, multi_fill_end, multi_fill_possible, multi_values,
    MultiselectField,
};
use crate::select_field::{
    select_field_wf, select_fill_choice, select_fill_end, select_fill_possible, select_value,
    SelectField,
};
use crate::text::{str_eq, trim_spec};
use crate::value::{is_default_value, Value, ValueType};

verus! {

/// Why a form operation failed.
#[derive(Clone, Copy, Debug, PartialEq, Eq, Structural)]
pub enum FormError {
    /// No field of the requested name exists.
    NotFound,
    /// The field exists but does not hold the requested type.
    WrongType,
    /// The field has not been filled yet.
    NoValue,
    /// A selection field has no options to choose from.
    NoOptions,
    /// The supplied events ran out, or one of the wrong kind came, before
    /// the fill was done.
    EndOfInput,
}

impl FormError {
    /// A short description of the failure.
    pub fn message(&self) -> (r: String)
        ensures
            match *self {
                FormError::NotFound => r@ == "field not found"@,
                FormError::WrongType => r@ == "field has incorrect type"@,
                FormError::NoValue => r@ == "field has no value"@,
                FormError::NoOptions => r@ == "field has no options"@,
                FormError::EndOfInput => r@ == "input ended before the form was filled"@,
            },
    {
        match self {
            FormError::NotFound => String::from_str("field not found"),
            FormError::WrongType => String::from_str("field has incorrect type"),
            FormError::NoValue => String::from_str("field has no value"),
            FormError::NoOptions => String::from_str("field has no options"),
            FormError::EndOfInput => String::from_str("input ended before the form was filled"),
        }
    }
}

/// One form field of any kind.
#[derive(Debug)]
pub enum FormField {
    /// A free-text field.
    Text(Field),
    /// A single-select field.
    Select(SelectField),
    /// A multi-select field.
    Multi(MultiselectField),
}

/// Whether the field of any kind is well formed.
pub open spec fn form_field_wf(f: FormField) -> bool {
    match f {
        FormField::Text(tf) => field_wf(tf),
        FormField::Select(sf) => select_field_wf(sf),
        FormField::Multi(mf) => multi_field_wf(mf),
    }
}

/// One named entry of a form, in declaration order.
#[derive(Debug)]
pub struct FormEntry {
    /// The name the field is looked up by.
    pub name: String,
    /// The field itself.
    pub field: FormField,
}

/// An ordered, name-keyed collection of fields. Fields are filled in the
/// exact order they were declared; lookup returns the first entry whose name
/// matches, so names should be kept unique by convention.
#[derive(Debug)]
pub struct Form {
    /// The entries, in declaration order.
    pub fields: Vec<FormEntry>,
}

/// Whether every field of the form is well formed.
pub open spec fn form_wf(f: Form) -> bool {
    forall|i: int| 0 <= i < f.fields@.len() ==> form_field_wf((#[trigger] f.fields@[i]).field)
}

/// The index of the first entry at or after `i` whose name matches, if any.
pub open spec fn find_entry_from(fields: Seq<FormEntry>, name: Seq<char>, i: int) -> Option<int>
    decreases fields.len() - i,
{
    if i < 0 || i >= fields.len() {
        None
    } else if fields[i].name@ == name {
        Some(i)
    } else {
        find_entry_from(fields, name, i + 1)
    }
}

/// The index of the first entry whose name matches, if any.
pub open spec fn find_entry(fields: Seq<FormEntry>, name: Seq<char>) -> Option<int> {
    find_entry_from(fields, name, 0)
}

/// What retrieving one value from a field of the requested type yields:
/// relates the field, the requested type, and the result. Exactly one
/// outcome is allowed: a type mismatch, a missing value, or the single value
/// the field holds (the default of the type for an absent optional value,
/// and the first committed value of a multi-select).
pub open spec fn field_value_result(f: FormField, ty: ValueType, r: Result<Value, FormError>) -> bool {
    match f {
        FormField::Text(tf) => if tf.ty != ty {
            r == Err::<Value, FormError>(FormError::WrongType)
        } else {
            match tf.state {
                TextState::Unfilled => r == Err::<Value, FormError>(FormError::NoValue),
                TextState::Absent => r matches Ok(v) && is_default_value(ty, v),
                TextState::Filled(v) => r == Ok::<Value, FormError>(v),
            }
        },
        FormField::Select(sf) => if sf.ty != ty {
            r == Err::<Value, FormError>(FormError::WrongType)
        } else if sf.value is None {
            r == Err::<Value, FormError>(FormError::NoValue)
        } else {
            r == Ok::<Value, FormError>(select_value(sf))
        },
        FormField::Multi(mf) => if mf.ty != ty {
            r == Err::<Value, FormError>(FormError::WrongType)
        } else if mf.value@.len() == 0 {
            r == Err::<Value, FormError>(FormError::NoValue)
        } else {
            r == Ok::<Value, FormError>(multi_values(mf)[0])
        },
    }
}

/// What retrieving the value list from a field of the requested type yields:
/// one-element lists for the single-valued kinds, all committed values for a
/// multi-select.
pub open spec fn field_values_result(
    f: FormField,
    ty: ValueType,
    r: Result<Seq<Value>, FormError>,
) -> bool {
    match f {
        FormField::Multi(mf) => if mf.ty != ty {
            r == Err::<Seq<Value>, FormError>(FormError::WrongType)
        } else if mf.value@.len() == 0 {
            r == Err::<Seq<Value>, FormError>(FormError::NoValue)
        } else {
            r matches Ok(vs) && vs == multi_values(mf)
        },
        _ => match r {
            Ok(vs) => vs.len() == 1 && field_value_result(f, ty, Ok(vs[0])),
            Err(e) => field_value_result(f, ty, Err(e)),
        },
    }
}

/// The toggles of a fresh multi-select widget: one per option, all off.
pub open spec fn fresh_toggles(n: nat) -> Seq<bool> {
    Seq::new(n, |j: int| false)
}

/// A fresh single-select widget over `n` options.
pub open spec fn fresh_select_widget(n: nat) -> SelectWidget {
    SelectWidget { cursor: 0usize, len: n as usize }
}

/// Whether a scripted fill of the field can succeed from position `i`.
pub open spec fn field_fill_possible(f: FormField, ev: Seq<Event>, i: int) -> bool {
    match f {
        FormField::Text(tf) => text_fill_possible(tf, ev, i),
        FormField::Select(sf) => sf.options@.len() > 0 && select_fill_possible(
            fresh_select_widget(sf.options@.len()),
            ev,
            i,
        ),
        FormField::Multi(mf) => mf.options@.len() > 0 && multi_fill_possible(
            0,
            fresh_toggles(mf.options@.len()),
            mf.limit,
            ev,
            i,
        ),
    }
}

/// The position just after the events a scripted fill of the field consumes.
pub open spec fn field_fill_end(f: FormField, ev: Seq<Event>, i: int) -> int {
    match f {
        FormField::Text(tf) => text_fill_end(tf, ev, i),
        FormField::Select(sf) => select_fill_end(fresh_select_widget(sf.options@.len()), ev, i),
        FormField::Multi(mf) => multi_fill_end(
            0,
            fresh_toggles(mf.options@.len()),
            mf.limit,
            ev,
            i,
        ),
    }
}

/// The error a field whose scripted fill cannot succeed reports: no options
/// for an optionless selection, and otherwise the end of the events.
pub open spec fn field_fill_error(f: FormField, ev: Seq<Event>, i: int) -> FormError {
    match f {
        FormField::Text(_) => FormError::EndOfInput,
        FormField::Select(sf) => if sf.options@.len() == 0 {
            FormError::NoOptions
        } else {
            FormError::EndOfInput
        },
        FormField::Multi(mf) => if mf.options@.len() == 0 {
            FormError::NoOptions
        } else {
            FormError::EndOfInput
        },
    }
}

/// Whether the two fields are of the same kind with the same configuration:
/// prompt, validator, type, options and limit; only the stored value may
/// differ.
pub open spec fn field_config_eq(f: FormField, f2: FormField) -> bool {
    match (f, f2) {
        (FormField::Text(a), FormField::Text(b)) => a.prompt == b.prompt && a.validator
            == b.validator && a.ty == b.ty && a.optional == b.optional,
        (FormField::Select(a), FormField::Select(b)) => a.prompt == b.prompt && a.ty == b.ty
            && a.options == b.options,
        (FormField::Multi(a), FormField::Multi(b)) => a.prompt == b.prompt && a.ty == b.ty
            && a.options == b.options && a.limit == b.limit,
        _ => false,
    }
}

/// Whether `f2` is exactly the field a scripted fill of `f` from position
/// `i` leaves behind: the configuration is untouched and the value is the
/// one the event machine commits.
pub open spec fn field_filled_to(f: FormField, ev: Seq<Event>, i: int, f2: FormField) -> bool {
    field_config_eq(f, f2) && match f {
        FormField::Text(tf) => f2 matches FormField::Text(tf2) && (ev[field_fill_end(f, ev, i)
            - 1] matches Event::Line(l) && line_accepted(tf, trim_spec(l@)) && accepted_state(
            tf,
            trim_spec(l@),
            tf2.state,
        )),
        FormField::Select(sf) => f2 matches FormField::Select(sf2) && sf2.value == Some(
            select_fill_choice(fresh_select_widget(sf.options@.len()), ev, i) as usize,
        ),
        FormField::Multi(mf) => f2 matches FormField::Multi(mf2) && mf2.value@ == multi_fill_chosen(
            0,
            fresh_toggles(mf.options@.len()),
            mf.limit,
            ev,
            i,
        ),
    }
}

/// Whether a scripted fill of the fields from `k` on, starting at position
/// `i`, can succeed.
pub open spec fn form_fill_possible(fs: Seq<FormEntry>, ev: Seq<Event>, i: int, k: int) -> bool
    decreases fs.len() - k,
{
    if k < 0 || k >= fs.len() {
        true
    } else {
        field_fill_possible(fs[k].field, ev, i) && form_fill_possible(
            fs,
            ev,
            field_fill_end(fs[k].field, ev, i),
            k + 1,
        )
    }
}

/// The position a scripted fill stands at just before field `k`, having
/// started at position `i` before field zero.
pub open spec fn form_fill_pos(fs: Seq<FormEntry>, ev: Seq<Event>, i: int, k: int) -> int
    decreases k,
{
    if k <= 0 {
        i
    } else {
        field_fill_end(fs[k - 1].field, ev, form_fill_pos(fs, ev, i, k - 1))
    }
}

/// The error the first field whose scripted fill cannot succeed reports.
pub open spec fn form_fill_error(fs: Seq<FormEntry>, ev: Seq<Event>, i: int, k: int) -> FormError
    decreases fs.len() - k,
{
    if k < 0 || k >= fs.len() {
        FormError::EndOfInput
    } else if !field_fill_possible(fs[k].field, ev, i) {
        field_fill_error(fs[k].field, ev, i)
    } else {
        form_fill_error(fs, ev, field_fill_end(fs[k].field, ev, i), k + 1)
    }
}

/// The index of the first field whose scripted fill cannot succeed.
pub open spec fn form_fill_fail_k(fs: Seq<FormEntry>, ev: Seq<Event>, i: int, k: int) -> int
    decreases fs.len() - k,
{
    if k < 0 || k >= fs.len() {
        k
    } else if !field_fill_possible(fs[k].field, ev, i) {
        k
    } else {
        form_fill_fail_k(fs, ev, field_fill_end(fs[k].field, ev, i), k + 1)
    }
}

/// Fills one field of any kind from the supplied events.
fn fill_form_field(f: &mut FormField, events: &Vec<Event>, pos: usize) -> (r: Result<
    usize,
    FormError,
>)
    requires
        form_field_wf(*old(f)),
        pos <= events@.len(),
    ensures
        form_field_wf(*final(f)),
        field_config_eq(*old(f), *final(f)),
        (r is Ok) == field_fill_possible(*old(f), events@, pos as int),
        r matches Ok(p) ==> pos < p <= events@.len() && p == field_fill_end(
            *old(f),
            events@,
            pos as int,
        ) && field_filled_to(*old(f), events@, pos as int, *final(f)),
        r matches Err(e) ==> e == field_fill_error(*old(f), events@, pos as int) && *final(f)
            == *old(f),
{
    match f {
        FormField::Text(tf) => tf.fill_from_events(events, pos),
        FormField::Select(sf) => sf.fill_from_events(events, pos),
        FormField::Multi(mf) => mf.fill_from_events(events, pos),
    }
}

impl Form {
    /// Fills every field, in the exact order they were declared, from the
    /// supplied events: line events feed text fields and key events drive
    /// the selection widgets. A rejected line only repeats its field's turn,
    /// exactly as an interactive loop would prompt again. The first field
    /// that cannot be completed aborts the whole fill with its error; the
    /// fields before it keep the values they were just given.
    pub fn fill(&mut self, events: &Vec<Event>) -> (r: Result<(), FormError>)
        requires
            form_wf(*old(self)),
        ensures
            form_wf(*final(self)),
            final(self).fields@.len() == old(self).fields@.len(),
            forall|k: int|
                0 <= k < old(self).fields@.len() ==> (#[trigger] final(self).fields@[k]).name
                    == old(self).fields@[k].name && field_config_eq(
                    old(self).fields@[k].field,
                    final(self).fields@[k].field,
                ),
            (r is Ok) == form_fill_possible(old(self).fields@, events@, 0, 0),
            r is Ok ==> forall|k: int|
                0 <= k < old(self).fields@.len() ==> field_filled_to(
                    old(self).fields@[k].field,
                    events@,
                    form_fill_pos(old(self).fields@, events@, 0, k),
                    (#[trigger] final(self).fields@[k]).field,
                ),
            r matches Err(e) ==> e == form_fill_error(old(self).fields@, events@, 0, 0) && {
                let kf = form_fill_fail_k(old(self).fields@, events@, 0, 0);
                &&& 0 <= kf < old(self).fields@.len()
                &&& forall|j: int|
                    0 <= j < kf ==> field_filled_to(
                        old(self).fields@[j].field,
                        events@,
                        form_fill_pos(old(self).fields@, events@, 0, j),
                        (#[trigger] final(self).fields@[j]).field,
                    )
                &&& forall|j: int|
                    kf <= j < old(self).fields@.len() ==> #[trigger] final(self).fields@[j] == old(
                        self,
                    ).fields@[j]
            },
    {
        let ghost fs0 = old(self).fields@;
        let mut pos: usize = 0;
        let mut k: usize = 0;
        while k < self.fields.len()
            invariant
                fs0 == old(self).fields@,
                k <= self.fields@.len(),
                self.fields@.len() == fs0.len(),
                pos <= events@.len(),
                forall|j: int| k <= j < fs0.len() ==> #[trigger] self.fields@[j] == fs0[j],
                forall|j: int|
                    0 <= j < k ==> (#[trigger] self.fields@[j]).name == fs0[j].name
                        && form_field_wf(self.fields@[j].field) && field_config_eq(
                        fs0[j].field,
                        self.fields@[j].field,
                    ) && field_filled_to(
                        fs0[j].field,
                        events@,
                        form_fill_pos(fs0, events@, 0, j),
                        self.fields@[j].field,
                    ),
                form_wf(*old(self)),
                pos as int == form_fill_pos(fs0, events@, 0, k as int),
                form_fill_possible(fs0, events@, 0, 0) == form_fill_possible(
                    fs0,
                    events@,
                    pos as int,
                    k as int,
                ),
                !form_fill_possible(fs0, events@, 0, 0) ==> form_fill_error(fs0, events@, 0, 0)
                    == form_fill_error(fs0, events@, pos as int, k as int) && form_fill_fail_k(
                    fs0,
                    events@,
                    0,
                    0,
                ) == form_fill_fail_k(fs0, events@, pos as int, k as int),
            decreases self.fields@.len() - k,
        {
            let ghost fields_before = self.fields@;
            let mut entry = self.fields.remove(k);
            let res = fill_form_field(&mut entry.field, events, pos);
            self.fields.insert(k, entry);
            proof {
                assert(self.fields@ =~= fields_before.update(
                    k as int,
                    FormEntry { name: fields_before[k as int].name, field: self.fields@[k as int].field },
                ));
            }
            match res {
                Ok(p) => {
                    pos = p;
                    k = k + 1;
                },
                Err(e) => {
                    return Err(e);
                },
            }
        }
        Ok(())
    }

    /// The value of the first field of the given name, checked against the
    /// requested type. Fails when no field has the name, when the field does
    /// not hold the requested type, or when it has not been filled.
    pub fn get_value(&self, name: &str, ty: ValueType) -> (r: Result<Value, FormError>)
        requires
            form_wf(*self),
        ensures
            match find_entry(self.fields@, name@) {
                None => r == Err::<Value, FormError>(FormError::NotFound),
                Some(i) => field_value_result(self.fields@[i].field, ty, r),
            },
    {
        let n = self.fields.len();
        let mut i: usize = 0;
        while i < n
            invariant
                i <= n,
                n == self.fields@.len(),
                form_wf(*self),
                find_entry(self.fields@, name@) == find_entry_from(self.fields@, name@, i as int),
            decreases n - i,
        {
            let entry = &self.fields[i];
            if str_eq(entry.name.as_str(), name) {
                return match &entry.field {
                    FormField::Text(tf) => if tf.ty == ty {
                        tf.get_value()
                    } else {
                        Err(FormError::WrongType)
                    },
                    FormField::Select(sf) => if sf.ty == ty {
                        sf.get_value()
                    } else {
                        Err(FormError::WrongType)
                    },
                    FormField::Multi(mf) => if mf.ty == ty {
                        mf.get_value()
                    } else {
                        Err(FormError::WrongType)
                    },
                };
            }
            i = i + 1;
        }
        Err(FormError::NotFound)
    }

    /// The values of the first field of the given name, checked against the
    /// requested type, always as a list: one element for a text or
    /// single-select field, every committed element for a multi-select.
    pub fn get_value_vec(&self, name: &str, ty: ValueType) -> (r: Result<Vec<Value>, FormError>)
        requires
            form_wf(*self),
        ensures
            match find_entry(self.fields@, name@) {
                None => r == Err::<Vec<Value>, FormError>(FormError::NotFound),
                Some(i) => match r {
                    Ok(vs) => field_values_result(self.fields@[i].field, ty, Ok(vs@)),
                    Err(e) => field_values_result(self.fields@[i].field, ty, Err(e)),
                },
            },
    {
        let n = self.fields.len();
        let mut i: usize = 0;
        while i < n
            invariant
                i <= n,
                n == self.fields@.len(),
                form_wf(*self),
                find_entry(self.fields@, name@) == find_entry_from(self.fields@, name@, i as int),
            decreases n - i,
        {
            let entry = &self.fields[i];
            if str_eq(entry.name.as_str(), name) {
                return match &entry.field {
                    FormField::Text(tf) => if tf.ty == ty {
                        match tf.get_value() {
                            Ok(v) => {
                                let mut vs: Vec<Value> = Vec::new();
                                vs.push(v);
                                Ok(vs)
                            },
                            Err(e) => Err(e),
                        }
                    } else {
                        Err(FormError::WrongType)
                    },
                    FormField::Select(sf) => if sf.ty == ty {
                        match sf.get_value() {
                            Ok(v) => {
                                let mut vs: Vec<Value> = Vec::new();
                                vs.push(v);
                                Ok(vs)
                            },
                            Err(e) => Err(e),
                        }
                    } else {
                        Err(FormError::WrongType)
                    },
                    FormField::Multi(mf) => if mf.ty == ty {
                        mf.get_values()
                    } else {
                        Err(FormError::WrongType)
                    },
                };
            }
            i = i + 1;
        }
        Err(FormError::NotFound)
    }
}

/// An optional text field filled from an empty trimmed line yields the
/// type's default value on retrieval, not an error.
pub proof fn lemma_optional_empty_yields_default(
    f: Field,
    st: TextState,
    r: Result<Value, FormError>,
)
    requires
        f.optional,
        accepted_state(f, Seq::<char>::empty(), st),
        field_value_result(FormField::Text(Field { state: st, ..f }), f.ty, r),
    ensures
        r matches Ok(v) && is_default_value(f.ty, v),
{
}

} // verus!
