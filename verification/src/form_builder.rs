use vstd::prelude::*;
use crate::field::{Field, TextState};
use crate::multiselect_field::MultiselectField;
use crate::select_field::SelectField;
use crate::validation::Validator;
use crate::value::{value_type_of, Value, ValueType};
pub use crate::form::Form;
use crate::form::{form_field_wf, FormEntry, FormField};

verus! {

/// Whether every entry holds a well-formed field.
pub open spec fn entries_wf(fs: Seq<FormEntry>) -> bool {
    forall|i: int| 0 <= i < fs.len() ==> form_field_wf((#[trigger] fs[i]).field)
}

/// A builder that assembles a form one field at a time, in the order the
/// fields will be filled.
#[derive(Debug)]
pub struct FormBuilder {
    /// The entries added so far, in declaration order.
    pub fields: Vec<FormEntry>,
}

impl FormBuilder {
    /// An empty builder.
    pub fn new() -> (b: Self)
        ensures
            b.fields@ == Seq::<FormEntry>::empty(),
            entries_wf(b.fields@),
    {
        Self { fields: Vec::new() }
    }

    /// Adds a free-text field parsed as the given type, with an optional
    /// validator chain.
    pub fn add_field(self, name: &str, prompt: &str, validator: Option<Validator>, ty: ValueType)
        -> (b: Self)
        ensures
            b.fields@.len() == self.fields@.len() + 1,
            forall|i: int| 0 <= i < self.fields@.len() ==> #[trigger] b.fields@[i]
                == self.fields@[i],
            b.fields@.last().name@ == name@,
            b.fields@.last().field matches FormField::Text(tf) && tf.prompt@ == prompt@
                && tf.validator == validator && tf.ty == ty && !tf.optional && tf.state
                is Unfilled,
            entries_wf(self.fields@) ==> entries_wf(b.fields@),
    {
        let mut fields = self.fields;
        let field = Field::new(prompt, validator, ty, false);
        fields.push(FormEntry { name: String::from_str(name), field: FormField::Text(field) });
        Self { fields }
    }

    /// Adds an optional free-text field parsed as the given type: an empty
    /// trimmed line stands for an absent value, which retrieval turns into
    /// the type's default.
    pub fn add_optional_field(
        self,
        name: &str,
        prompt: &str,
        validator: Option<Validator>,
        ty: ValueType,
    ) -> (b: Self)
        ensures
            b.fields@.len() == self.fields@.len() + 1,
            forall|i: int| 0 <= i < self.fields@.len() ==> #[trigger] b.fields@[i]
                == self.fields@[i],
            b.fields@.last().name@ == name@,
            b.fields@.last().field matches FormField::Text(tf) && tf.prompt@ == prompt@
                && tf.validator == validator && tf.ty == ty && tf.optional && tf.state
                is Unfilled,
            entries_wf(self.fields@) ==> entries_wf(b.fields@),
    {
        let mut fields = self.fields;
        let field = Field::new(prompt, validator, ty, true);
        fields.push(FormEntry { name: String::from_str(name), field: FormField::Text(field) });
        Self { fields }
    }

    /// Adds a single-select field over the given value-and-label options,
    /// all of one type.
    pub fn add_select(self, name: &str, prompt: &str, ty: ValueType, options: Vec<(Value, String)>)
        -> (b: Self)
        requires
            forall|i: int| 0 <= i < options@.len() ==> value_type_of(#[trigger] options@[i].0) == ty,
        ensures
            b.fields@.len() == self.fields@.len() + 1,
            forall|i: int| 0 <= i < self.fields@.len() ==> #[trigger] b.fields@[i]
                == self.fields@[i],
            b.fields@.last().name@ == name@,
            b.fields@.last().field matches FormField::Select(sf) && sf.prompt@ == prompt@ && sf.ty
                == ty && sf.options == options && sf.value is None,
            entries_wf(self.fields@) ==> entries_wf(b.fields@),
    {
        let mut fields = self.fields;
        let field = SelectField::new(prompt, ty, options);
        fields.push(FormEntry { name: String::from_str(name), field: FormField::Select(field) });
        Self { fields }
    }

    /// Adds a multi-select field over the given value-and-label options, all
    /// of one type, with an optional upper bound on how many may be chosen.
    pub fn add_multiselect(
        self,
        name: &str,
        prompt: &str,
        ty: ValueType,
        options: Vec<(Value, String)>,
        limit: Option<usize>,
    ) -> (b: Self)
        requires
            forall|i: int| 0 <= i < options@.len() ==> value_type_of(#[trigger] options@[i].0) == ty,
        ensures
            b.fields@.len() == self.fields@.len() + 1,
            forall|i: int| 0 <= i < self.fields@.len() ==> #[trigger] b.fields@[i]
                == self.fields@[i],
            b.fields@.last().name@ == name@,
            b.fields@.last().field matches FormField::Multi(mf) && mf.prompt@ == prompt@ && mf.ty
                == ty && mf.options == options && mf.limit == limit && mf.value@
                == Seq::<usize>::empty(),
            entries_wf(self.fields@) ==> entries_wf(b.fields@),
    {
        let mut fields = self.fields;
        let field = MultiselectField::new(prompt, ty, options, limit);
        fields.push(FormEntry { name: String::from_str(name), field: FormField::Multi(field) });
        Self { fields }
    }

    /// The finished form, with the fields in the order they were added.
    pub fn build(self) -> (f: Form)
        ensures
            f.fields == self.fields,
    {
        Form { fields: self.fields }
    }
}

} // verus!
