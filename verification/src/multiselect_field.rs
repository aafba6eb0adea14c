use vstd::prelude::*;
use crate::form::FormError;
use crate::input::{
    count_toggled, lemma_toggled_indices, multi_commit, multi_next_cursor, multi_next_toggles,
    multi_wf, toggled_indices, Event, MultiselectWidget,
};
use crate::value::{display_chars, display_list_chars, value_type_of, Value, ValueType};

verus! {

/// Whether some key event from `i` on commits a non-empty toggled set, with
/// only key events before it: the condition under which a scripted fill of a
/// multi-select field succeeds. The widget state is carried as the cursor
/// and the toggles.
pub open spec fn multi_fill_possible(
    cursor: int,
    toggles: Seq<bool>,
    limit: Option<usize>,
    ev: Seq<Event>,
    i: int,
) -> bool
    decreases ev.len() - i,
{
    0 <= i < ev.len() && match ev[i] {
        Event::Key(k) => multi_commit(toggles, k) is Some || multi_fill_possible(
            multi_next_cursor(cursor, toggles.len() as int, k),
            multi_next_toggles(cursor, toggles, limit, k),
            limit,
            ev,
            i + 1,
        ),
        Event::Line(_) => false,
    }
}

/// The position just after the first committing key event from `i` on.
pub open spec fn multi_fill_end(
    cursor: int,
    toggles: Seq<bool>,
    limit: Option<usize>,
    ev: Seq<Event>,
    i: int,
) -> int
    decreases ev.len() - i,
{
    if 0 <= i < ev.len() {
        match ev[i] {
            Event::Key(k) => if multi_commit(toggles, k) is Some {
                i + 1
            } else {
                multi_fill_end(
                    multi_next_cursor(cursor, toggles.len() as int, k),
                    multi_next_toggles(cursor, toggles, limit, k),
                    limit,
                    ev,
                    i + 1,
                )
            },
            Event::Line(_) => i,
        }
    } else {
        i
    }
}

/// The option indices the first committing key event from `i` on commits.
pub open spec fn multi_fill_chosen(
    cursor: int,
    toggles: Seq<bool>,
    limit: Option<usize>,
    ev: Seq<Event>,
    i: int,
) -> Seq<usize>
    decreases ev.len() - i,
{
    if 0 <= i < ev.len() {
        match ev[i] {
            Event::Key(k) => if multi_commit(toggles, k) is Some {
                toggled_indices(toggles)
            } else {
                multi_fill_chosen(
                    multi_next_cursor(cursor, toggles.len() as int, k),
                    multi_next_toggles(cursor, toggles, limit, k),
                    limit,
                    ev,
                    i + 1,
                )
            },
            Event::Line(_) => Seq::empty(),
        }
    } else {
        Seq::empty()
    }
}

/// A multi-select form field: a prompt, an ordered list of value-and-label
/// options of one type, an optional upper bound on how many may be chosen,
/// and the indices of the committed options. The list stays empty until the
/// field is filled, and a commit is never empty, so a non-empty list means
/// the field has been filled.
#[derive(Debug)]
pub struct MultiselectField {
    /// The prompt to display to the user.
    pub prompt: String,
    /// The type every option value has.
    pub ty: ValueType,
    /// The options available for selection.
    pub options: Vec<(Value, String)>,
    /// The optional limit on the number of selections.
    pub limit: Option<usize>,
    /// The indices of the committed options, in ascending order.
    pub value: Vec<usize>,
}

/// Every option value has the field's type, every committed index points at
/// an option, and the committed set never exceeds the limit.
pub open spec fn multi_field_wf(f: MultiselectField) -> bool {
    &&& forall|i: int|
        0 <= i < f.options@.len() ==> value_type_of(#[trigger] f.options@[i].0) == f.ty
    &&& forall|j: int| 0 <= j < f.value@.len() ==> (#[trigger] f.value@[j]) < f.options@.len()
    &&& (f.limit matches Some(l) ==> f.value@.len() <= l)
}

/// The values a multi-select field holds, in committed order.
pub open spec fn multi_values(f: MultiselectField) -> Seq<Value> {
    Seq::new(f.value@.len(), |j: int| f.options@[f.value@[j] as int].0)
}

/// Whether the value is one of the field's option values.
pub open spec fn drawn_from_options(f: MultiselectField, v: Value) -> bool {
    exists|i: int| 0 <= i < f.options@.len() && (#[trigger] f.options@[i]).0 == v
}

/// A filled multi-select field never holds more values than its limit, and
/// every one of them is drawn from the supplied option set.
pub proof fn lemma_multi_values_within_limit(f: MultiselectField)
    requires
        multi_field_wf(f),
    ensures
        f.limit matches Some(l) ==> multi_values(f).len() <= l,
        forall|j: int|
            0 <= j < multi_values(f).len() ==> #[trigger] drawn_from_options(
                f,
                multi_values(f)[j],
            ),
{
    assert forall|j: int| 0 <= j < multi_values(f).len() implies #[trigger] drawn_from_options(
        f,
        multi_values(f)[j],
    ) by {
        let i0 = f.value@[j] as int;
        assert(0 <= i0 < f.options@.len());
        assert(f.options@[i0].0 == multi_values(f)[j]);
    }
}

impl MultiselectField {
    /// A fresh, unfilled multi-select field.
    pub fn new(prompt: &str, ty: ValueType, options: Vec<(Value, String)>, limit: Option<usize>)
        -> (f: MultiselectField)
        requires
            forall|i: int| 0 <= i < options@.len() ==> value_type_of(#[trigger] options@[i].0) == ty,
        ensures
            f.prompt@ == prompt@,
            f.ty == ty,
            f.options == options,
            f.limit == limit,
            f.value@ == Seq::<usize>::empty(),
            multi_field_wf(f),
    {
        let f = MultiselectField {
            prompt: String::from_str(prompt),
            ty,
            options,
            limit,
            value: Vec::new(),
        };
        f
    }

    /// Commits a non-empty set of option indices as the field's value.
    pub fn commit(&mut self, chosen: Vec<usize>)
        requires
            multi_field_wf(*old(self)),
            chosen@.len() > 0,
            forall|j: int| 0 <= j < chosen@.len() ==> (#[trigger] chosen@[j]) < old(
                self,
            ).options@.len(),
            old(self).limit matches Some(l) ==> chosen@.len() <= l,
        ensures
            multi_field_wf(*final(self)),
            final(self).prompt == old(self).prompt,
            final(self).ty == old(self).ty,
            final(self).options == old(self).options,
            final(self).limit == old(self).limit,
            final(self).value == chosen,
    {
        self.value = chosen;
    }

    /// Fills the field from the supplied events, starting at `pos`: a fresh
    /// widget walks the options and toggles them on each key event, and the
    /// first enter with a non-empty toggled set commits those options and
    /// yields the position after it. Fails, leaving the field untouched,
    /// when there are no options at all, or when the events end or a line
    /// event comes where a key is needed.
    pub fn fill_from_events(&mut self, events: &Vec<Event>, pos: usize) -> (r: Result<
        usize,
        FormError,
    >)
        requires
            multi_field_wf(*old(self)),
            pos <= events@.len(),
        ensures
            multi_field_wf(*final(self)),
            final(self).prompt == old(self).prompt,
            final(self).ty == old(self).ty,
            final(self).options == old(self).options,
            final(self).limit == old(self).limit,
            old(self).options@.len() == 0 ==> r == Err::<usize, FormError>(FormError::NoOptions)
                && *final(self) == *old(self),
            old(self).options@.len() > 0 ==> {
                let t0 = Seq::new(old(self).options@.len(), |j: int| false);
                &&& (r is Ok) == multi_fill_possible(0, t0, old(self).limit, events@, pos as int)
                &&& (r matches Ok(p) ==> pos < p <= events@.len() && p == multi_fill_end(
                    0,
                    t0,
                    old(self).limit,
                    events@,
                    pos as int,
                ) && final(self).value@ == multi_fill_chosen(
                    0,
                    t0,
                    old(self).limit,
                    events@,
                    pos as int,
                ))
                &&& (r is Err ==> r == Err::<usize, FormError>(FormError::EndOfInput)
                    && *final(self) == *old(self))
            },
    {
        let ghost f0 = *old(self);
        let n_opts = self.options.len();
        if n_opts == 0 {
            return Err(FormError::NoOptions);
        }
        let mut w = MultiselectWidget::new(n_opts, self.limit);
        let mut i: usize = pos;
        while i < events.len()
            invariant
                pos <= i <= events@.len(),
                f0 == *old(self),
                *self == f0,
                multi_field_wf(f0),
                multi_wf(w),
                w.limit == f0.limit,
                w.toggles@.len() == n_opts,
                n_opts == f0.options@.len(),
                n_opts > 0,
                multi_fill_possible(
                    0,
                    Seq::new(n_opts as nat, |j: int| false),
                    f0.limit,
                    events@,
                    pos as int,
                ) == multi_fill_possible(w.cursor as int, w.toggles@, f0.limit, events@, i as int),
                multi_fill_possible(
                    0,
                    Seq::new(n_opts as nat, |j: int| false),
                    f0.limit,
                    events@,
                    pos as int,
                ) ==> multi_fill_end(
                    0,
                    Seq::new(n_opts as nat, |j: int| false),
                    f0.limit,
                    events@,
                    pos as int,
                ) == multi_fill_end(w.cursor as int, w.toggles@, f0.limit, events@, i as int)
                    && multi_fill_chosen(
                    0,
                    Seq::new(n_opts as nat, |j: int| false),
                    f0.limit,
                    events@,
                    pos as int,
                ) == multi_fill_chosen(w.cursor as int, w.toggles@, f0.limit, events@, i as int),
            decreases events@.len() - i,
        {
            match &events[i] {
                Event::Key(k) => {
                    let ghost toggles_before = w.toggles@;
                    match w.step(*k) {
                        Option::Some(chosen) => {
                            proof {
                                lemma_toggled_indices(toggles_before);
                            }
                            self.commit(chosen);
                            return Ok(i + 1);
                        },
                        Option::None => {
                            i = i + 1;
                        },
                    }
                },
                Event::Line(_) => {
                    return Err(FormError::EndOfInput);
                },
            }
        }
        Err(FormError::EndOfInput)
    }

    /// One committed value: the first of the committed set. Fails when the
    /// field has not been filled.
    pub fn get_value(&self) -> (r: Result<Value, FormError>)
        requires
            multi_field_wf(*self),
        ensures
            self.value@.len() == 0 ==> r == Err::<Value, FormError>(FormError::NoValue),
            self.value@.len() > 0 ==> r == Ok::<Value, FormError>(multi_values(*self)[0]),
    {
        if self.value.len() == 0 {
            Err(FormError::NoValue)
        } else {
            let ix = self.value[0];
            Ok(self.options[ix].0.duplicate())
        }
    }

    /// All committed values, in committed order. Fails when the field has
    /// not been filled.
    pub fn get_values(&self) -> (r: Result<Vec<Value>, FormError>)
        requires
            multi_field_wf(*self),
        ensures
            self.value@.len() == 0 ==> r == Err::<Vec<Value>, FormError>(FormError::NoValue),
            self.value@.len() > 0 ==> (r matches Ok(vs) && vs@ == multi_values(*self)),
    {
        if self.value.len() == 0 {
            return Err(FormError::NoValue);
        }
        let mut vs: Vec<Value> = Vec::new();
        let mut j: usize = 0;
        while j < self.value.len()
            invariant
                j <= self.value@.len(),
                multi_field_wf(*self),
                vs@ =~= multi_values(*self).subrange(0, j as int),
            decreases self.value@.len() - j,
        {
            let ix = self.value[j];
            vs.push(self.options[ix].0.duplicate());
            proof {
                assert(vs@ =~= multi_values(*self).subrange(0, j + 1));
            }
            j = j + 1;
        }
        proof {
            assert(multi_values(*self).subrange(0, self.value@.len() as int) =~= multi_values(
                *self,
            ));
        }
        Ok(vs)
    }

    /// The committed values as one display string: the renderings joined by
    /// commas inside square brackets. Fails when the field has not been
    /// filled.
    pub fn get_display_value(&self) -> (r: Result<String, FormError>)
        requires
            multi_field_wf(*self),
        ensures
            self.value@.len() == 0 ==> r == Err::<String, FormError>(FormError::NoValue),
            self.value@.len() > 0 ==> (r matches Ok(s) && s@ == "["@ + display_list_chars(
                multi_values(*self),
            ) + "]"@),
    {
        if self.value.len() == 0 {
            return Err(FormError::NoValue);
        }
        let mut s = String::from_str("[");
        let mut j: usize = 0;
        while j < self.value.len()
            invariant
                j <= self.value@.len(),
                multi_field_wf(*self),
                s@ == "["@ + display_list_chars(multi_values(*self).subrange(0, j as int)),
            decreases self.value@.len() - j,
        {
            if j > 0 {
                s.append(", ");
            }
            let ix = self.value[j];
            let d = self.options[ix].0.display();
            s.append(d.as_str());
            proof {
                let vals = multi_values(*self);
                let pre = vals.subrange(0, j + 1);
                assert(pre.drop_last() =~= vals.subrange(0, j as int));
                assert(pre.last() == vals[j as int]);
                if j == 0 {
                    assert(vals.subrange(0, 0) =~= Seq::<Value>::empty());
                    assert(display_list_chars(pre) == display_chars(vals[0]));
                    assert(s@ =~= "["@ + display_list_chars(pre));
                } else {
                    assert(display_list_chars(pre) == display_list_chars(pre.drop_last()) + ", "@
                        + display_chars(pre.last()));
                    assert(s@ =~= "["@ + display_list_chars(pre));
                }
            }
            j = j + 1;
        }
        proof {
            assert(multi_values(*self).subrange(0, self.value@.len() as int) =~= multi_values(
                *self,
            ));
        }
        s.append("]");
        Ok(s)
    }
}

} // verus!
