//! Forms: field values, errors and touched flags kept in one hook cell,
//! with validation by field validators and a submit handler.
use crate::batch::StateBatch;
use crate::fiber::FiberId;
use crate::fiber_tree::FiberTree;
use crate::hooks::validator::{can_check, message_view, outcome, Validator};
use crate::slot::Slot;
use crate::string_map::{
    assoc_insert, assoc_remove, flag_entries, lookup, same_lookups, text_entries, FlagMap, StringMap,
};
use vstd::prelude::*;

verus! {

/// The tag of form cells.
pub const FORM_TAG: u64 = 0x464f_524d_5354_4154u64;

/// The state of a form.
#[derive(Debug)]
pub struct FormState {
    pub values: StringMap,
    pub errors: StringMap,
    pub touched: FlagMap,
    pub is_submitting: bool,
    pub is_valid: bool,
}

/// A form state as text.
pub struct FormModel {
    pub values: Seq<(Seq<char>, Seq<char>)>,
    pub errors: Seq<(Seq<char>, Seq<char>)>,
    pub touched: Seq<(Seq<char>, bool)>,
    pub is_submitting: bool,
    pub is_valid: bool,
}

impl View for FormState {
    type V = FormModel;

    open spec fn view(&self) -> FormModel {
        FormModel {
            values: self.values@,
            errors: self.errors@,
            touched: self.touched@,
            is_submitting: self.is_submitting,
            is_valid: self.is_valid,
        }
    }
}

/// The cell list of text pairs.
pub open spec fn text_list(v: Seq<(String, String)>) -> Slot
    decreases v.len(),
{
    if v.len() == 0 {
        Slot::Nil
    } else {
        Slot::Cons(
            Box::new(Slot::Pair(Box::new(Slot::Text(v[0].0)), Box::new(Slot::Text(v[0].1)))),
            Box::new(text_list(v.drop_first())),
        )
    }
}

/// The cell list of text-flag pairs.
pub open spec fn flag_list(v: Seq<(String, bool)>) -> Slot
    decreases v.len(),
{
    if v.len() == 0 {
        Slot::Nil
    } else {
        Slot::Cons(
            Box::new(Slot::Pair(Box::new(Slot::Text(v[0].0)), Box::new(Slot::Bool(v[0].1)))),
            Box::new(flag_list(v.drop_first())),
        )
    }
}

/// The text pairs a cell list holds.
pub open spec fn text_list_of(s: Slot) -> Option<Seq<(Seq<char>, Seq<char>)>>
    decreases s,
{
    match s {
        Slot::Nil => Some(Seq::empty()),
        Slot::Cons(h, t) => match *h {
            Slot::Pair(a, b) => match (*a, *b) {
                (Slot::Text(k), Slot::Text(v)) => match text_list_of(*t) {
                    Some(rest) => Some(seq![(k@, v@)] + rest),
                    None => None,
                },
                _ => None,
            },
            _ => None,
        },
        _ => None,
    }
}

/// The text-flag pairs a cell list holds.
pub open spec fn flag_list_of(s: Slot) -> Option<Seq<(Seq<char>, bool)>>
    decreases s,
{
    match s {
        Slot::Nil => Some(Seq::empty()),
        Slot::Cons(h, t) => match *h {
            Slot::Pair(a, b) => match (*a, *b) {
                (Slot::Text(k), Slot::Bool(f)) => match flag_list_of(*t) {
                    Some(rest) => Some(seq![(k@, f)] + rest),
                    None => None,
                },
                _ => None,
            },
            _ => None,
        },
        _ => None,
    }
}

/// The cell of a form state.
pub open spec fn form_cell(st: FormState) -> Slot {
    Slot::Tagged(
        FORM_TAG,
        Box::new(
            Slot::Pair(
                Box::new(text_list(st.values.entries@)),
                Box::new(
                    Slot::Pair(
                        Box::new(text_list(st.errors.entries@)),
                        Box::new(
                            Slot::Pair(
                                Box::new(flag_list(st.touched.entries@)),
                                Box::new(
                                    Slot::Pair(
                                        Box::new(Slot::Bool(st.is_submitting)),
                                        Box::new(Slot::Bool(st.is_valid)),
                                    ),
                                ),
                            ),
                        ),
                    ),
                ),
            ),
        ),
    )
}

/// The form state a cell holds, if it holds one.
pub open spec fn form_of(s: Slot) -> Option<FormModel> {
    match s {
        Slot::Tagged(t, b) => if t != FORM_TAG {
            None
        } else {
            match *b {
                Slot::Pair(vs, r1) => match *r1 {
                    Slot::Pair(es, r2) => match *r2 {
                        Slot::Pair(ts, r3) => match *r3 {
                            Slot::Pair(sb, vb) => match (*sb, *vb) {
                                (Slot::Bool(sub), Slot::Bool(valid)) => match (
                                    text_list_of(*vs),
                                    text_list_of(*es),
                                    flag_list_of(*ts),
                                ) {
                                    (Some(values), Some(errors), Some(touched)) => Some(
                                        FormModel { values, errors, touched, is_submitting: sub, is_valid: valid },
                                    ),
                                    _ => None,
                                },
                                _ => None,
                            },
                            _ => None,
                        },
                        _ => None,
                    },
                    _ => None,
                },
                _ => None,
            }
        },
        _ => None,
    }
}

/// Reading a text list back gives its pairs.
proof fn lemma_text_list(v: Seq<(String, String)>)
    ensures
        text_list_of(text_list(v)) == Some(text_entries(v)),
    decreases v.len(),
{
    if v.len() > 0 {
        lemma_text_list(v.drop_first());
        assert(text_entries(v) =~= seq![(v[0].0@, v[0].1@)] + text_entries(v.drop_first()));
    } else {
        assert(text_entries(v) =~= Seq::<(Seq<char>, Seq<char>)>::empty());
    }
}

/// Reading a flag list back gives its pairs.
proof fn lemma_flag_list(v: Seq<(String, bool)>)
    ensures
        flag_list_of(flag_list(v)) == Some(flag_entries(v)),
    decreases v.len(),
{
    if v.len() > 0 {
        lemma_flag_list(v.drop_first());
        assert(flag_entries(v) =~= seq![(v[0].0@, v[0].1)] + flag_entries(v.drop_first()));
    } else {
        assert(flag_entries(v) =~= Seq::<(Seq<char>, bool)>::empty());
    }
}

/// Reading a form cell back gives the form state.
pub proof fn lemma_form_cell(st: FormState)
    ensures
        form_of(form_cell(st)) == Some(st@),
{
    lemma_text_list(st.values.entries@);
    lemma_text_list(st.errors.entries@);
    lemma_flag_list(st.touched.entries@);
}

/// The cell list of text pairs of `v`.
fn encode_texts(v: &Vec<(String, String)>) -> (r: Slot)
    ensures
        r == text_list(v@),
{
    let mut acc = Slot::Nil;
    let mut i: usize = v.len();
    proof {
        assert(v@.skip(i as int) =~= Seq::<(String, String)>::empty());
    }
    while i > 0
        invariant
            i <= v@.len(),
            acc == text_list(v@.skip(i as int)),
        decreases i,
    {
        let k = v[i - 1].0.clone();
        let x = v[i - 1].1.clone();
        proof {
            assert(v@.skip(i - 1).drop_first() =~= v@.skip(i as int));
            assert(v@.skip(i - 1)[0] == v@[i - 1]);
        }
        acc = Slot::Cons(Box::new(Slot::Pair(Box::new(Slot::Text(k)), Box::new(Slot::Text(x)))), Box::new(acc));
        i = i - 1;
    }
    proof {
        assert(v@.skip(0) =~= v@);
    }
    acc
}

/// The cell list of text-flag pairs of `v`.
fn encode_flags(v: &Vec<(String, bool)>) -> (r: Slot)
    ensures
        r == flag_list(v@),
{
    let mut acc = Slot::Nil;
    let mut i: usize = v.len();
    proof {
        assert(v@.skip(i as int) =~= Seq::<(String, bool)>::empty());
    }
    while i > 0
        invariant
            i <= v@.len(),
            acc == flag_list(v@.skip(i as int)),
        decreases i,
    {
        let k = v[i - 1].0.clone();
        let f = v[i - 1].1;
        proof {
            assert(v@.skip(i - 1).drop_first() =~= v@.skip(i as int));
            assert(v@.skip(i - 1)[0] == v@[i - 1]);
        }
        acc = Slot::Cons(Box::new(Slot::Pair(Box::new(Slot::Text(k)), Box::new(Slot::Bool(f)))), Box::new(acc));
        i = i - 1;
    }
    proof {
        assert(v@.skip(0) =~= v@);
    }
    acc
}

/// The text pairs of a cell list.
fn decode_texts(s: &Slot) -> (r: Option<Vec<(String, String)>>)
    ensures
        match r {
            Some(v) => text_list_of(*s) == Some(text_entries(v@)),
            None => text_list_of(*s) is None,
        },
    decreases s,
{
    match s {
        Slot::Nil => {
            let v: Vec<(String, String)> = Vec::new();
            proof {
                assert(text_entries(v@) =~= Seq::<(Seq<char>, Seq<char>)>::empty());
            }
            Some(v)
        },
        Slot::Cons(h, t) => match &**h {
            Slot::Pair(a, b) => match (&**a, &**b) {
                (Slot::Text(k), Slot::Text(x)) => match decode_texts(&**t) {
                    Some(mut rest) => {
                        let ghost before = rest@;
                        rest.insert(0, (k.clone(), x.clone()));
                        proof {
                            assert(text_entries(rest@) =~= seq![(k@, x@)] + text_entries(before));
                        }
                        Some(rest)
                    },
                    None => None,
                },
                _ => None,
            },
            _ => None,
        },
        _ => None,
    }
}

/// The text-flag pairs of a cell list.
fn decode_flags(s: &Slot) -> (r: Option<Vec<(String, bool)>>)
    ensures
        match r {
            Some(v) => flag_list_of(*s) == Some(flag_entries(v@)),
            None => flag_list_of(*s) is None,
        },
    decreases s,
{
    match s {
        Slot::Nil => {
            let v: Vec<(String, bool)> = Vec::new();
            proof {
                assert(flag_entries(v@) =~= Seq::<(Seq<char>, bool)>::empty());
            }
            Some(v)
        },
        Slot::Cons(h, t) => match &**h {
            Slot::Pair(a, b) => match (&**a, &**b) {
                (Slot::Text(k), Slot::Bool(f)) => match decode_flags(&**t) {
                    Some(mut rest) => {
                        let ghost before = rest@;
                        rest.insert(0, (k.clone(), *f));
                        proof {
                            assert(flag_entries(rest@) =~= seq![(k@, *f)] + flag_entries(before));
                        }
                        Some(rest)
                    },
                    None => None,
                },
                _ => None,
            },
            _ => None,
        },
        _ => None,
    }
}

impl FormState {
    /// A fresh state with the given values: no errors, nothing touched,
    /// not submitting, valid.
    pub fn new(initial_values: StringMap) -> (r: Self)
        ensures
            r.values@ == initial_values@,
            r.errors@.len() == 0,
            r.touched@.len() == 0,
            !r.is_submitting,
            r.is_valid,
    {
        FormState {
            values: initial_values,
            errors: StringMap::new(),
            touched: FlagMap::new(),
            is_submitting: false,
            is_valid: true,
        }
    }

    /// The cell holding this state.
    pub fn encode(&self) -> (r: Slot)
        ensures
            r == form_cell(*self),
    {
        let vs = encode_texts(&self.values.entries);
        let es = encode_texts(&self.errors.entries);
        let ts = encode_flags(&self.touched.entries);
        Slot::Tagged(
            FORM_TAG,
            Box::new(
                Slot::Pair(
                    Box::new(vs),
                    Box::new(
                        Slot::Pair(
                            Box::new(es),
                            Box::new(
                                Slot::Pair(
                                    Box::new(ts),
                                    Box::new(
                                        Slot::Pair(
                                            Box::new(Slot::Bool(self.is_submitting)),
                                            Box::new(Slot::Bool(self.is_valid)),
                                        ),
                                    ),
                                ),
                            ),
                        ),
                    ),
                ),
            ),
        )
    }

    /// The state a cell holds, if it holds one.
    pub fn decode(s: &Slot) -> (r: Option<FormState>)
        ensures
            match r {
                Some(st) => form_of(*s) == Some(st@),
                None => form_of(*s) is None,
            },
    {
        match s {
            Slot::Tagged(t, b) => {
                if *t != FORM_TAG {
                    return None;
                }
                match &**b {
                    Slot::Pair(vs, r1) => match &**r1 {
                        Slot::Pair(es, r2) => match &**r2 {
                            Slot::Pair(ts, r3) => match &**r3 {
                                Slot::Pair(sb, vb) => match (&**sb, &**vb) {
                                    (Slot::Bool(sub), Slot::Bool(valid)) => {
                                        match (decode_texts(&**vs), decode_texts(&**es), decode_flags(&**ts)) {
                                            (Some(values), Some(errors), Some(touched)) => Some(
                                                FormState {
                                                    values: StringMap { entries: values },
                                                    errors: StringMap { entries: errors },
                                                    touched: FlagMap { entries: touched },
                                                    is_submitting: *sub,
                                                    is_valid: *valid,
                                                },
                                            ),
                                            _ => None,
                                        }
                                    },
                                    _ => None,
                                },
                                _ => None,
                            },
                            _ => None,
                        },
                        _ => None,
                    },
                    _ => None,
                }
            },
            _ => None,
        }
    }
}


/// `r` is a possible result of running the validators in order on
/// `value`: the message of the first one that reports, or none.
pub open spec fn first_error<F: Fn(&str) -> Option<String>>(vs: Seq<Validator<F>>, value: &str, r: Option<String>) -> bool
    decreases vs.len(),
{
    if vs.len() == 0 {
        r is None
    } else {
        ||| (r is Some && outcome(vs[0], value, r))
        ||| (outcome(vs[0], value, None) && first_error(vs.drop_first(), value, r))
    }
}

/// Every validator can run on `value`.
pub open spec fn all_can_check<F: Fn(&str) -> Option<String>>(vs: Seq<Validator<F>>, value: &str) -> bool {
    forall|i: int| 0 <= i < vs.len() ==> can_check(#[trigger] vs[i], value)
}

/// Run `vs[i..]` on `value`: the first reported message, or none.
fn run_validators_from<F: Fn(&str) -> Option<String>>(vs: &Vec<Validator<F>>, i: usize, value: &str) -> (r: Option<String>)
    requires
        i <= vs@.len(),
        all_can_check(vs@, value),
    ensures
        first_error(vs@.skip(i as int), value, r),
    decreases vs@.len() - i,
{
    if i == vs.len() {
        return None;
    }
    proof {
        assert(vs@.skip(i as int)[0] == vs@[i as int]);
        assert(vs@.skip(i as int).drop_first() =~= vs@.skip(i + 1));
    }
    let r0 = vs[i].validate(value);
    match r0 {
        Some(m) => Some(m),
        None => run_validators_from(vs, i + 1, value),
    }
}

/// Run the validators on `value` in order.
pub fn run_validators<F: Fn(&str) -> Option<String>>(vs: &Vec<Validator<F>>, value: &str) -> (r: Option<String>)
    requires
        all_can_check(vs@, value),
    ensures
        first_error(vs@, value, r),
{
    proof {
        assert(vs@.skip(0) =~= vs@);
    }
    run_validators_from(vs, 0, value)
}

/// The validators of each field.
pub struct FieldValidators<F> {
    pub entries: Vec<(String, Vec<Validator<F>>)>,
}

/// The field validators keyed by field name.
pub open spec fn keyed_validators<F>(v: Seq<(String, Vec<Validator<F>>)>) -> Seq<(Seq<char>, Seq<Validator<F>>)> {
    v.map_values(|e: (String, Vec<Validator<F>>)| (e.0@, e.1@))
}

impl<F> FieldValidators<F> {
    /// The validators of fields, keyed by name.
    pub open spec fn view_keyed(&self) -> Seq<(Seq<char>, Seq<Validator<F>>)> {
        keyed_validators(self.entries@)
    }

    /// The validators of the field `name` (none when it has none).
    pub open spec fn of(&self, name: Seq<char>) -> Seq<Validator<F>> {
        match lookup(self.view_keyed(), name) {
            Some(vs) => vs,
            None => Seq::empty(),
        }
    }

    /// No validators.
    pub fn new() -> (r: Self)
        ensures
            r.view_keyed().len() == 0,
    {
        FieldValidators { entries: Vec::new() }
    }

    /// The position of the last entry of `name`.
    fn find(&self, name: &str) -> (r: Option<usize>)
        ensures
            r is Some <==> crate::string_map::key_pos(self.view_keyed(), name@) is Some,
            r is Some ==> r->0 == crate::string_map::key_pos(self.view_keyed(), name@)->0,
            r is Some ==> r->0 < self.entries@.len(),
    {
        let mut i: usize = self.entries.len();
        let ghost s = self.view_keyed();
        proof {
            assert(s.take(i as int) =~= s);
        }
        while i > 0
            invariant
                i <= s.len(),
                s == self.view_keyed(),
                crate::string_map::key_pos(s, name@) == crate::string_map::key_pos(s.take(i as int), name@),
            decreases i,
        {
            proof {
                assert(s.take(i as int).drop_last() =~= s.take(i - 1));
            }
            if crate::string_map::str_eq(self.entries[i - 1].0.as_str(), name) {
                return Some(i - 1);
            }
            i = i - 1;
        }
        proof {
            assert(s.take(0) =~= Seq::<(Seq<char>, Seq<Validator<F>>)>::empty());
        }
        None
    }

    /// The validators of `name`, if it has an entry.
    pub fn get(&self, name: &str) -> (r: Option<&Vec<Validator<F>>>)
        ensures
            match r {
                Some(vs) => lookup(self.view_keyed(), name@) == Some(vs@),
                None => lookup(self.view_keyed(), name@) is None,
            },
    {
        match self.find(name) {
            Some(i) => Some(&self.entries[i].1),
            None => None,
        }
    }

    /// Give `name` exactly the validators `vs`.
    pub fn set(&mut self, name: String, vs: Vec<Validator<F>>)
        ensures
            final(self).view_keyed() == assoc_insert(old(self).view_keyed(), name@, vs@),
    {
        match self.find(name.as_str()) {
            Some(i) => {
                let ghost before = self.entries@;
                self.entries.set(i, (name, vs));
                proof {
                    assert(self.view_keyed() =~= assoc_insert(keyed_validators(before), name@, vs@));
                }
            },
            None => {
                let ghost before = self.entries@;
                self.entries.push((name, vs));
                proof {
                    assert(self.view_keyed() =~= assoc_insert(keyed_validators(before), name@, vs@));
                }
            },
        }
    }

    /// Add `v` after the validators of `name`.
    pub fn add(&mut self, name: String, v: Validator<F>)
        ensures
            final(self).view_keyed() == assoc_insert(old(self).view_keyed(), name@, old(self).of(name@).push(v)),
    {
        match self.find(name.as_str()) {
            Some(i) => {
                let ghost before = self.entries@;
                let (k, mut list) = self.entries.remove(i);
                list.push(v);
                self.entries.insert(i, (k, list));
                proof {
                    crate::string_map::lemma_key_pos_sound(keyed_validators(before), name@);
                    assert(self.view_keyed() =~= assoc_insert(
                        keyed_validators(before),
                        name@,
                        keyed_validators(before)[i as int].1.push(v),
                    ));
                }
            },
            None => {
                let ghost before = self.entries@;
                let mut list: Vec<Validator<F>> = Vec::new();
                list.push(v);
                self.entries.push((name, list));
                proof {
                    assert(list@ =~= Seq::<Validator<F>>::empty().push(v));
                    assert(self.view_keyed() =~= assoc_insert(keyed_validators(before), name@, list@));
                }
            },
        }
    }
}

/// The configuration of a form: initial values, validators per field and
/// the submit handler (none: submitting does nothing more).
pub struct FormConfig<F, S> {
    pub initial_values: StringMap,
    pub validators: FieldValidators<F>,
    pub on_submit: Option<S>,
}

impl<F, S> FormConfig<F, S> {
    /// A builder with no fields, no validators and no handler.
    pub fn builder() -> (r: FormConfigBuilder<F, S>)
        ensures
            r.initial_values@.len() == 0,
            r.validators.view_keyed().len() == 0,
            r.on_submit is None,
    {
        FormConfigBuilder::new()
    }
}

/// Builds a `FormConfig`.
pub struct FormConfigBuilder<F, S> {
    pub initial_values: StringMap,
    pub validators: FieldValidators<F>,
    pub on_submit: Option<S>,
}

impl<F, S> FormConfigBuilder<F, S> {
    /// An empty builder.
    pub fn new() -> (r: Self)
        ensures
            r.initial_values@.len() == 0,
            r.validators.view_keyed().len() == 0,
            r.on_submit is None,
    {
        FormConfigBuilder { initial_values: StringMap::new(), validators: FieldValidators::new(), on_submit: None }
    }

    /// Add a field with its initial value.
    pub fn field(self, name: &str, initial_value: &str) -> (r: Self)
        ensures
            r.initial_values@ == assoc_insert(self.initial_values@, name@, initial_value@),
            r.validators == self.validators,
            r.on_submit == self.on_submit,
    {
        let mut b = self;
        b.initial_values.insert(name.to_owned(), initial_value.to_owned());
        b
    }

    /// Add several fields with their initial values.
    pub fn fields(self, fields: StringMap) -> (r: Self)
        ensures
            r.initial_values@ == crate::string_map::assoc_insert_all(self.initial_values@, fields@),
            r.validators == self.validators,
            r.on_submit == self.on_submit,
    {
        let mut b = self;
        let mut i: usize = 0;
        while i < fields.entries.len()
            invariant
                0 <= i <= fields@.len(),
                b.initial_values@ == crate::string_map::assoc_insert_all(self.initial_values@, fields@.take(i as int)),
                b.validators == self.validators,
                b.on_submit == self.on_submit,
            decreases fields@.len() - i,
        {
            let k = fields.entries[i].0.clone();
            let v = fields.entries[i].1.clone();
            b.initial_values.insert(k, v);
            proof {
                assert(fields@.take(i + 1).drop_last() =~= fields@.take(i as int));
            }
            i = i + 1;
        }
        proof {
            assert(fields@.take(fields@.len() as int) =~= fields@);
        }
        b
    }

    /// Give a field exactly these validators.
    pub fn validate(self, field: &str, validators: Vec<Validator<F>>) -> (r: Self)
        ensures
            r.validators.view_keyed() == assoc_insert(self.validators.view_keyed(), field@, validators@),
            r.initial_values == self.initial_values,
            r.on_submit == self.on_submit,
    {
        let mut b = self;
        b.validators.set(field.to_owned(), validators);
        b
    }

    /// Add one validator to a field.
    pub fn validator(self, field: &str, validator: Validator<F>) -> (r: Self)
        ensures
            r.validators.view_keyed() == assoc_insert(
                self.validators.view_keyed(),
                field@,
                self.validators.of(field@).push(validator),
            ),
            r.initial_values == self.initial_values,
            r.on_submit == self.on_submit,
    {
        let mut b = self;
        b.validators.add(field.to_owned(), validator);
        b
    }

    /// Set the submit handler.
    pub fn on_submit(self, handler: S) -> (r: Self)
        ensures
            r.on_submit == Some(handler),
            r.initial_values == self.initial_values,
            r.validators == self.validators,
    {
        let mut b = self;
        b.on_submit = Some(handler);
        b
    }

    /// The configuration; a submit handler must have been set.
    pub fn build(self) -> (r: FormConfig<F, S>)
        requires
            self.on_submit is Some,
        ensures
            r.initial_values == self.initial_values,
            r.validators == self.validators,
            r.on_submit == self.on_submit,
    {
        let handler = self.on_submit.expect(
            "on_submit handler must be set. Use build_with_default_submit() for a no-op handler.",
        );
        FormConfig { initial_values: self.initial_values, validators: self.validators, on_submit: Some(handler) }
    }

    /// The configuration, with a handler that does nothing when none was set.
    pub fn build_with_default_submit(self) -> (r: FormConfig<F, S>)
        ensures
            r.initial_values == self.initial_values,
            r.validators == self.validators,
            r.on_submit == self.on_submit,
    {
        FormConfig { initial_values: self.initial_values, validators: self.validators, on_submit: self.on_submit }
    }
}

impl<F, S> Default for FormConfigBuilder<F, S> {
    fn default() -> (r: Self)
        ensures
            r.initial_values@.len() == 0,
            r.validators.view_keyed().len() == 0,
            r.on_submit is None,
    {
        FormConfigBuilder::new()
    }
}

/// What a field needs to render: its name, value, error and touched flag.
#[derive(Debug, Clone)]
pub struct FieldRegistration {
    pub name: String,
    pub value: String,
    pub error: Option<String>,
    pub touched: bool,
}

impl FieldRegistration {
    /// Whether the field has an error.
    pub fn has_error(&self) -> (r: bool)
        ensures
            r == self.error is Some,
    {
        self.error.is_some()
    }

    /// The error message, if any.
    pub fn error_message(&self) -> (r: Option<&str>)
        ensures
            match r {
                Some(m) => self.error is Some && m@ == self.error->0@,
                None => self.error is None,
            },
    {
        match &self.error {
            Some(e) => Some(e.as_str()),
            None => None,
        }
    }
}


/// The text of an optional text.
pub open spec fn text_view(r: Option<String>) -> Option<Seq<char>> {
    match r {
        Some(m) => Some(m@),
        None => None,
    }
}

/// `errors` after recording `e` as the error of `name` (none: cleared).
pub open spec fn with_error(errors: Seq<(Seq<char>, Seq<char>)>, name: Seq<char>, e: Option<Seq<char>>) -> Seq<(Seq<char>, Seq<char>)> {
    match e {
        Some(m) => assoc_insert(errors, name, m),
        None => assoc_remove(errors, name),
    }
}

/// `m` with `e` recorded as the error of `name`.
pub open spec fn model_with_error(m: FormModel, name: Seq<char>, e: Option<Seq<char>>) -> FormModel {
    FormModel { errors: with_error(m.errors, name, e), ..m }
}

/// The tag of form references.
pub const FORM_REF_TAG: u64 = 0x464f_524d_5245_4600u64;

/// The cell of a form: the fiber and the hook that hold its state.
#[derive(Clone, Copy, Debug, PartialEq, Eq, Structural)]
pub struct FormRef {
    pub fiber_id: FiberId,
    pub hook_index: usize,
}

impl crate::slot::HookValue for FormRef {
    open spec fn encoded(&self) -> Slot {
        Slot::Tagged(
            FORM_REF_TAG,
            Box::new(Slot::Pair(Box::new(Slot::U64(self.fiber_id.0)), Box::new(Slot::Usize(self.hook_index)))),
        )
    }

    open spec fn decoded(s: Slot) -> Option<FormRef> {
        match s {
            Slot::Tagged(t, b) => if t == FORM_REF_TAG {
                match *b {
                    Slot::Pair(x, y) => match (*x, *y) {
                        (Slot::U64(f), Slot::Usize(i)) => Some(FormRef { fiber_id: FiberId(f), hook_index: i }),
                        _ => None,
                    },
                    _ => None,
                }
            } else {
                None
            },
            _ => None,
        }
    }

    open spec fn tag() -> u64 {
        FORM_REF_TAG
    }

    proof fn lemma_decode_encode(v: FormRef) {
    }

    fn encode(&self) -> (s: Slot) {
        Slot::Tagged(
            FORM_REF_TAG,
            Box::new(Slot::Pair(Box::new(Slot::U64(self.fiber_id.0)), Box::new(Slot::Usize(self.hook_index)))),
        )
    }

    fn decode(s: &Slot) -> (r: Option<FormRef>) {
        match s {
            Slot::Tagged(t, b) => if *t == FORM_REF_TAG {
                match &**b {
                    Slot::Pair(x, y) => match (&**x, &**y) {
                        (Slot::U64(f), Slot::Usize(i)) => Some(FormRef { fiber_id: FiberId(*f), hook_index: *i }),
                        _ => None,
                    },
                    _ => None,
                }
            } else {
                None
            },
            _ => None,
        }
    }

    fn type_tag() -> (t: u64) {
        FORM_REF_TAG
    }
}

impl FormRef {
    /// The committed state of the form.
    pub open spec fn committed(&self, tree: FiberTree) -> Option<FormModel> {
        match crate::batch::committed_value(tree, self.fiber_id, self.hook_index) {
            Some(s) => form_of(s),
            None => None,
        }
    }

    /// The state of the form with the queued updates applied.
    pub open spec fn latest(&self, batch: StateBatch, tree: FiberTree) -> Option<FormModel> {
        match batch.latest(tree, self.fiber_id, self.hook_index) {
            Some(s) => form_of(s),
            None => None,
        }
    }

    /// `after` is `before` with updates of this form's cell queued, the
    /// form's fiber marked for a re-render where any was queued, and the
    /// form's latest state is `m`.
    pub open spec fn wrote(&self, before: StateBatch, after: StateBatch, tree: FiberTree, m: FormModel) -> bool {
        &&& after.updates@.len() >= before.updates@.len()
        &&& after.updates@.take(before.updates@.len() as int) == before.updates@
        &&& forall|j: int|
            before.updates@.len() <= j < after.updates@.len() ==> (#[trigger] after.updates@[j]).fiber_id
                == self.fiber_id && after.updates@[j].hook_index == self.hook_index
        &&& self.latest(after, tree) == Some(m)
        &&& after.batching == before.batching
        &&& after.dirty@ == (if after.updates@.len() == before.updates@.len() || before.dirty@.contains(
            self.fiber_id,
        ) {
            before.dirty@
        } else {
            before.dirty@.push(self.fiber_id)
        })
    }

    /// The committed state.
    fn read(&self, tree: &FiberTree) -> (r: FormState)
        requires
            self.committed(*tree) is Some,
        ensures
            r@ == self.committed(*tree)->0,
    {
        let f = tree.get(self.fiber_id).unwrap();
        FormState::decode(&f.hooks[self.hook_index]).unwrap()
    }

    /// The latest state.
    fn read_latest(&self, tree: &FiberTree, batch: &StateBatch) -> (r: FormState)
        requires
            self.latest(*batch, *tree) is Some,
        ensures
            r@ == self.latest(*batch, *tree)->0,
    {
        let s = batch.latest_value(tree, self.fiber_id, self.hook_index).unwrap();
        FormState::decode(&s).unwrap()
    }

    /// Queue `st` as the form's state.
    fn write(&self, tree: &FiberTree, batch: &mut StateBatch, st: FormState)
        ensures
            self.wrote(*old(batch), *final(batch), *tree, st@),
    {
        let cell = st.encode();
        batch.queue_value(self.fiber_id, self.hook_index, cell);
        proof {
            lemma_form_cell(st);
            assert(batch.updates@.take(old(batch).updates@.len() as int) =~= old(batch).updates@);
        }
    }

    /// The committed value of a field.
    pub fn get_value(&self, tree: &FiberTree, name: &str) -> (r: Option<String>)
        requires
            self.committed(*tree) is Some,
        ensures
            text_view(r) == lookup(self.committed(*tree)->0.values, name@),
    {
        let st = self.read(tree);
        match st.values.get(name) {
            Some(v) => Some(v.clone()),
            None => None,
        }
    }

    /// The committed error of a field.
    pub fn get_error(&self, tree: &FiberTree, name: &str) -> (r: Option<String>)
        requires
            self.committed(*tree) is Some,
        ensures
            text_view(r) == lookup(self.committed(*tree)->0.errors, name@),
    {
        let st = self.read(tree);
        match st.errors.get(name) {
            Some(v) => Some(v.clone()),
            None => None,
        }
    }

    /// Whether a field is touched.
    pub fn is_touched(&self, tree: &FiberTree, name: &str) -> (r: bool)
        requires
            self.committed(*tree) is Some,
        ensures
            r == (lookup(self.committed(*tree)->0.touched, name@) == Some(true)),
    {
        let st = self.read(tree);
        match st.touched.get(name) {
            Some(b) => b,
            None => false,
        }
    }

    /// Whether the form is submitting.
    pub fn is_submitting(&self, tree: &FiberTree) -> (r: bool)
        requires
            self.committed(*tree) is Some,
        ensures
            r == self.committed(*tree)->0.is_submitting,
    {
        self.read(tree).is_submitting
    }

    /// Whether the last validation of all fields passed.
    pub fn is_valid(&self, tree: &FiberTree) -> (r: bool)
        requires
            self.committed(*tree) is Some,
        ensures
            r == self.committed(*tree)->0.is_valid,
    {
        self.read(tree).is_valid
    }

    /// All committed values.
    pub fn get_values(&self, tree: &FiberTree) -> (r: StringMap)
        requires
            self.committed(*tree) is Some,
        ensures
            r@ == self.committed(*tree)->0.values,
    {
        self.read(tree).values
    }

    /// All committed errors.
    pub fn get_errors(&self, tree: &FiberTree) -> (r: StringMap)
        requires
            self.committed(*tree) is Some,
        ensures
            r@ == self.committed(*tree)->0.errors,
    {
        self.read(tree).errors
    }

    /// Whether any field has an error.
    pub fn has_errors(&self, tree: &FiberTree) -> (r: bool)
        requires
            self.committed(*tree) is Some,
        ensures
            r == (self.committed(*tree)->0.errors.len() > 0),
    {
        !self.read(tree).errors.is_empty()
    }

    /// Whether some field's value differs from its value in `initial`.
    pub fn is_dirty(&self, tree: &FiberTree, initial: &StringMap) -> (r: bool)
        requires
            self.committed(*tree) is Some,
        ensures
            r == !same_lookups(self.committed(*tree)->0.values, initial@),
    {
        !self.read(tree).values.agrees_with(initial)
    }

    /// What a field needs to render: its committed value (empty when it
    /// has none), error and touched flag.
    pub fn register(&self, tree: &FiberTree, name: &str) -> (r: FieldRegistration)
        requires
            self.committed(*tree) is Some,
        ensures
            r.name@ == name@,
            r.value@ == (match lookup(self.committed(*tree)->0.values, name@) {
                Some(v) => v,
                None => Seq::<char>::empty(),
            }),
            text_view(r.error) == lookup(self.committed(*tree)->0.errors, name@),
            r.touched == (lookup(self.committed(*tree)->0.touched, name@) == Some(true)),
    {
        let value = match self.get_value(tree, name) {
            Some(v) => v,
            None => String::new(),
        };
        FieldRegistration {
            name: name.to_owned(),
            value,
            error: self.get_error(tree, name),
            touched: self.is_touched(tree, name),
        }
    }

    /// Record (or clear) the error of a field.
    pub fn set_error(&self, tree: &FiberTree, batch: &mut StateBatch, name: &str, error: Option<String>)
        requires
            self.latest(*old(batch), *tree) is Some,
        ensures
            self.wrote(
                *old(batch),
                *final(batch),
                *tree,
                model_with_error(self.latest(*old(batch), *tree)->0, name@, text_view(error)),
            ),
    {
        let mut st = self.read_latest(tree, batch);
        match error {
            Some(e) => st.errors.insert(name.to_owned(), e),
            None => st.errors.remove(name),
        }
        self.write(tree, batch, st);
    }

    /// Set the touched flag of a field.
    pub fn set_touched(&self, tree: &FiberTree, batch: &mut StateBatch, name: &str, is_touched: bool)
        requires
            self.latest(*old(batch), *tree) is Some,
        ensures
            self.wrote(
                *old(batch),
                *final(batch),
                *tree,
                FormModel {
                    touched: assoc_insert(self.latest(*old(batch), *tree)->0.touched, name@, is_touched),
                    ..self.latest(*old(batch), *tree)->0
                },
            ),
    {
        let mut st = self.read_latest(tree, batch);
        st.touched.insert(name.to_owned(), is_touched);
        self.write(tree, batch, st);
    }

    /// Start over from new initial values.
    pub fn reset(&self, tree: &FiberTree, batch: &mut StateBatch, initial_values: StringMap)
        ensures
            self.wrote(
                *old(batch),
                *final(batch),
                *tree,
                FormModel {
                    values: initial_values@,
                    errors: Seq::empty(),
                    touched: Seq::empty(),
                    is_submitting: false,
                    is_valid: true,
                },
            ),
    {
        let st = FormState::new(initial_values);
        proof {
            assert(st@.errors =~= Seq::<(Seq<char>, Seq<char>)>::empty());
            assert(st@.touched =~= Seq::<(Seq<char>, bool)>::empty());
        }
        self.write(tree, batch, st);
    }
}

/// Writing twice is writing the second state.
pub proof fn lemma_wrote_trans(
    r: FormRef,
    b0: StateBatch,
    b1: StateBatch,
    b2: StateBatch,
    tree: FiberTree,
    m1: FormModel,
    m2: FormModel,
)
    requires
        r.wrote(b0, b1, tree, m1),
        r.wrote(b1, b2, tree, m2),
    ensures
        r.wrote(b0, b2, tree, m2),
{
    let n0 = b0.updates@.len() as int;
    let n1 = b1.updates@.len() as int;
    assert(b2.updates@.take(n0) =~= b2.updates@.take(n1).take(n0));
    assert(b0.dirty@.push(r.fiber_id).contains(r.fiber_id)) by {
        assert(b0.dirty@.push(r.fiber_id)[b0.dirty@.len() as int] == r.fiber_id);
    }
    assert forall|j: int| n0 <= j < b2.updates@.len() implies (#[trigger] b2.updates@[j]).fiber_id
        == r.fiber_id && b2.updates@[j].hook_index == r.hook_index by {
        if j < n1 {
            assert(b2.updates@[j] == b2.updates@.take(n1)[j]);
            assert(b1.updates@[j] == b2.updates@[j]);
        }
    }
}

/// A write of nothing.
pub proof fn lemma_wrote_refl(r: FormRef, b: StateBatch, tree: FiberTree)
    requires
        r.latest(b, tree) is Some,
    ensures
        r.wrote(b, b, tree, r.latest(b, tree)->0),
{
    assert(b.updates@.take(b.updates@.len() as int) =~= b.updates@);
}


/// `e` is a possible result of running the validators `vs` on the text
/// `value`.
pub open spec fn field_error_ok<F: Fn(&str) -> Option<String>>(
    vs: Seq<Validator<F>>,
    value: Seq<char>,
    e: Option<Seq<char>>,
) -> bool {
    exists|s: &str, r: Option<String>| s@ == value && #[trigger] first_error(vs, s, r) && text_view(r) == e
}

/// The validators `vs` can run on every borrow of the text `value`.
pub open spec fn checkable<F: Fn(&str) -> Option<String>>(vs: Seq<Validator<F>>, value: Seq<char>) -> bool {
    forall|s: &str| s@ == value ==> #[trigger] all_can_check(vs, s)
}

/// `errors` after recording, field by field, the results of validating
/// the values.
pub open spec fn errors_after(
    errors: Seq<(Seq<char>, Seq<char>)>,
    values: Seq<(Seq<char>, Seq<char>)>,
    results: Seq<Option<Seq<char>>>,
) -> Seq<(Seq<char>, Seq<char>)>
    decreases values.len(),
{
    if values.len() == 0 {
        errors
    } else {
        with_error(errors_after(errors, values.drop_last(), results.drop_last()), values.last().0, results.last())
    }
}

/// Every field marked touched, in the order of the values.
pub open spec fn all_touched(values: Seq<(Seq<char>, Seq<char>)>) -> Seq<(Seq<char>, bool)>
    decreases values.len(),
{
    if values.len() == 0 {
        Seq::empty()
    } else {
        assoc_insert(all_touched(values.drop_last()), values.last().0, true)
    }
}

/// When the checks passed, the submit handler, if there is one, ran with
/// the form's values.
pub open spec fn submitted<S: Fn(StringMap)>(on_submit: Option<S>, passed: bool, values: Seq<(Seq<char>, Seq<char>)>) -> bool {
    (passed && on_submit is Some) ==> exists|m: StringMap| m@ == values && #[trigger] call_ensures(on_submit->0, (m,), ())
}

/// The validation results of `values` are possible results of their
/// fields' validators.
pub open spec fn results_ok<F: Fn(&str) -> Option<String>>(
    validators: FieldValidators<F>,
    values: Seq<(Seq<char>, Seq<char>)>,
    results: Seq<Option<Seq<char>>>,
) -> bool {
    &&& results.len() == values.len()
    &&& forall|j: int|
        0 <= j < values.len() ==> field_error_ok(validators.of(values[j].0), values[j].1, #[trigger] results[j])
}

/// No result is an error.
pub open spec fn all_passed(results: Seq<Option<Seq<char>>>) -> bool {
    forall|j: int| 0 <= j < results.len() ==> (#[trigger] results[j]) is None
}

/// A form as a component uses it: its cell, its validators and its submit
/// handler.
pub struct FormHandle<F, S> {
    pub fiber_id: FiberId,
    pub hook_index: usize,
    pub validators: FieldValidators<F>,
    pub on_submit: Option<S>,
    /// The values the form started with.
    pub initial_values: StringMap,
}

impl<F, S> FormHandle<F, S> {
    /// The form's cell.
    pub open spec fn cell(&self) -> FormRef {
        FormRef { fiber_id: self.fiber_id, hook_index: self.hook_index }
    }

    /// The form's cell, to share with other components.
    pub fn form_ref(&self) -> (r: FormRef)
        ensures
            r == self.cell(),
    {
        FormRef { fiber_id: self.fiber_id, hook_index: self.hook_index }
    }

    /// The committed value of a field.
    pub fn get_value(&self, tree: &FiberTree, name: &str) -> (r: Option<String>)
        requires
            self.cell().committed(*tree) is Some,
        ensures
            text_view(r) == lookup(self.cell().committed(*tree)->0.values, name@),
    {
        self.form_ref().get_value(tree, name)
    }

    /// The committed error of a field.
    pub fn get_error(&self, tree: &FiberTree, name: &str) -> (r: Option<String>)
        requires
            self.cell().committed(*tree) is Some,
        ensures
            text_view(r) == lookup(self.cell().committed(*tree)->0.errors, name@),
    {
        self.form_ref().get_error(tree, name)
    }

    /// Whether a field is touched.
    pub fn is_touched(&self, tree: &FiberTree, name: &str) -> (r: bool)
        requires
            self.cell().committed(*tree) is Some,
        ensures
            r == (lookup(self.cell().committed(*tree)->0.touched, name@) == Some(true)),
    {
        self.form_ref().is_touched(tree, name)
    }

    /// Whether the form is submitting.
    pub fn is_submitting(&self, tree: &FiberTree) -> (r: bool)
        requires
            self.cell().committed(*tree) is Some,
        ensures
            r == self.cell().committed(*tree)->0.is_submitting,
    {
        self.form_ref().is_submitting(tree)
    }

    /// Whether the last validation of all fields passed.
    pub fn is_valid(&self, tree: &FiberTree) -> (r: bool)
        requires
            self.cell().committed(*tree) is Some,
        ensures
            r == self.cell().committed(*tree)->0.is_valid,
    {
        self.form_ref().is_valid(tree)
    }

    /// All committed values.
    pub fn get_values(&self, tree: &FiberTree) -> (r: StringMap)
        requires
            self.cell().committed(*tree) is Some,
        ensures
            r@ == self.cell().committed(*tree)->0.values,
    {
        self.form_ref().get_values(tree)
    }

    /// All committed errors.
    pub fn get_errors(&self, tree: &FiberTree) -> (r: StringMap)
        requires
            self.cell().committed(*tree) is Some,
        ensures
            r@ == self.cell().committed(*tree)->0.errors,
    {
        self.form_ref().get_errors(tree)
    }

    /// Whether any field has an error.
    pub fn has_errors(&self, tree: &FiberTree) -> (r: bool)
        requires
            self.cell().committed(*tree) is Some,
        ensures
            r == (self.cell().committed(*tree)->0.errors.len() > 0),
    {
        self.form_ref().has_errors(tree)
    }

    /// Whether some field's value differs from its initial value.
    pub fn is_dirty(&self, tree: &FiberTree) -> (r: bool)
        requires
            self.cell().committed(*tree) is Some,
        ensures
            r == !same_lookups(self.cell().committed(*tree)->0.values, self.initial_values@),
    {
        self.form_ref().is_dirty(tree, &self.initial_values)
    }

    /// What a field needs to render.
    pub fn register(&self, tree: &FiberTree, name: &str) -> (r: FieldRegistration)
        requires
            self.cell().committed(*tree) is Some,
        ensures
            r.name@ == name@,
            r.value@ == (match lookup(self.cell().committed(*tree)->0.values, name@) {
                Some(v) => v,
                None => Seq::<char>::empty(),
            }),
            text_view(r.error) == lookup(self.cell().committed(*tree)->0.errors, name@),
            r.touched == (lookup(self.cell().committed(*tree)->0.touched, name@) == Some(true)),
    {
        self.form_ref().register(tree, name)
    }

    /// Record (or clear) the error of a field.
    pub fn set_error(&self, tree: &FiberTree, batch: &mut StateBatch, name: &str, error: Option<String>)
        requires
            self.cell().latest(*old(batch), *tree) is Some,
        ensures
            self.cell().wrote(
                *old(batch),
                *final(batch),
                *tree,
                model_with_error(self.cell().latest(*old(batch), *tree)->0, name@, text_view(error)),
            ),
    {
        self.form_ref().set_error(tree, batch, name, error)
    }

    /// Set the touched flag of a field.
    pub fn set_touched(&self, tree: &FiberTree, batch: &mut StateBatch, name: &str, is_touched: bool)
        requires
            self.cell().latest(*old(batch), *tree) is Some,
        ensures
            self.cell().wrote(
                *old(batch),
                *final(batch),
                *tree,
                FormModel {
                    touched: assoc_insert(self.cell().latest(*old(batch), *tree)->0.touched, name@, is_touched),
                    ..self.cell().latest(*old(batch), *tree)->0
                },
            ),
    {
        self.form_ref().set_touched(tree, batch, name, is_touched)
    }

    /// Start over from new initial values.
    pub fn reset(&self, tree: &FiberTree, batch: &mut StateBatch, initial_values: StringMap)
        ensures
            self.cell().wrote(
                *old(batch),
                *final(batch),
                *tree,
                FormModel {
                    values: initial_values@,
                    errors: Seq::empty(),
                    touched: Seq::empty(),
                    is_submitting: false,
                    is_valid: true,
                },
            ),
    {
        self.form_ref().reset(tree, batch, initial_values)
    }
}

impl<F: Fn(&str) -> Option<String>, S> FormHandle<F, S> {
    /// Run the validators of `name` on `value`.
    fn check_field(&self, name: &str, value: &str) -> (r: Option<String>)
        requires
            all_can_check(self.validators.of(name@), value),
        ensures
            first_error(self.validators.of(name@), value, r),
    {
        match self.validators.get(name) {
            Some(vs) => run_validators(vs, value),
            None => None,
        }
    }

    /// Set the value of a field; a touched field is validated again and its
    /// error recorded or cleared.
    pub fn set_value(&self, tree: &FiberTree, batch: &mut StateBatch, name: &str, value: String)
        requires
            self.cell().latest(*old(batch), *tree) is Some,
            checkable(self.validators.of(name@), value@),
        ensures
            ({
                let m = self.cell().latest(*old(batch), *tree)->0;
                let m1 = FormModel { values: assoc_insert(m.values, name@, value@), ..m };
                &&& lookup(m.touched, name@) == Some(true) ==> exists|e: Option<Seq<char>>|
                    field_error_ok(self.validators.of(name@), value@, e) && #[trigger] self.cell().wrote(
                        *old(batch),
                        *final(batch),
                        *tree,
                        model_with_error(m1, name@, e),
                    )
                &&& lookup(m.touched, name@) != Some(true) ==> self.cell().wrote(*old(batch), *final(batch), *tree, m1)
            }),
    {
        let ghost m = self.cell().latest(*old(batch), *tree)->0;
        let ghost m1 = FormModel { values: assoc_insert(m.values, name@, value@), ..m };
        let mut st = self.form_ref().read_latest(tree, batch);
        let touched = match st.touched.get(name) {
            Some(b) => b,
            None => false,
        };
        let result = if touched {
            let v: &str = value.as_str();
            proof {
                assert(all_can_check(self.validators.of(name@), v));
            }
            Some(self.check_field(name, v))
        } else {
            None
        };
        st.values.insert(name.to_owned(), value);
        match result {
            Some(r) => {
                let ghost e = text_view(r);
                match r {
                    Some(err) => st.errors.insert(name.to_owned(), err),
                    None => st.errors.remove(name),
                }
                proof {
                    assert(st@.values == m1.values);
                    assert(st@.errors == with_error(m.errors, name@, e));
                    assert(st@ == model_with_error(m1, name@, e));
                }
                self.form_ref().write(tree, batch, st);
                proof {
                    assert(field_error_ok(self.validators.of(name@), value@, e));
                    assert(self.cell().wrote(*old(batch), *batch, *tree, model_with_error(m1, name@, e)));
                }
            },
            None => {
                self.form_ref().write(tree, batch, st);
            },
        }
    }

    /// Validate `value` as the field `name`: the error is recorded or
    /// cleared; whether it passed is returned.
    pub fn validate_field(&self, tree: &FiberTree, batch: &mut StateBatch, name: &str, value: &str) -> (ok: bool)
        requires
            self.cell().latest(*old(batch), *tree) is Some,
            all_can_check(self.validators.of(name@), value),
        ensures
            exists|r: Option<String>|
                #[trigger] first_error(self.validators.of(name@), value, r) && ok == r is None && self.cell().wrote(
                    *old(batch),
                    *final(batch),
                    *tree,
                    model_with_error(self.cell().latest(*old(batch), *tree)->0, name@, text_view(r)),
                ),
    {
        let r = self.check_field(name, value);
        let ok = r.is_none();
        let ghost rr = r;
        self.form_ref().set_error(tree, batch, name, r);
        ok
    }

    /// Validate every committed value; the errors are recorded, the form's
    /// validity set, and returned.
    pub fn validate_all(&self, tree: &FiberTree, batch: &mut StateBatch) -> (ok: bool)
        requires
            self.cell().committed(*tree) is Some,
            self.cell().latest(*old(batch), *tree) is Some,
            forall|j: int|
                0 <= j < self.cell().committed(*tree)->0.values.len() ==> checkable(
                    self.validators.of(#[trigger] self.cell().committed(*tree)->0.values[j].0),
                    self.cell().committed(*tree)->0.values[j].1,
                ),
        ensures
            exists|results: Seq<Option<Seq<char>>>|
                #[trigger] results_ok(self.validators, self.cell().committed(*tree)->0.values, results) && ok
                    == all_passed(results) && self.cell().wrote(
                    *old(batch),
                    *final(batch),
                    *tree,
                    FormModel {
                        errors: errors_after(
                            self.cell().latest(*old(batch), *tree)->0.errors,
                            self.cell().committed(*tree)->0.values,
                            results,
                        ),
                        is_valid: ok,
                        ..self.cell().latest(*old(batch), *tree)->0
                    },
                ),
    {
        let ghost m0 = self.cell().latest(*old(batch), *tree)->0;
        let ghost b0 = *old(batch);
        let cell = self.form_ref();
        let st = cell.read(tree);
        let ghost vals = st.values@;
        let mut all_valid = true;
        let ghost mut results: Seq<Option<Seq<char>>> = Seq::empty();
        proof {
            lemma_wrote_refl(cell, *batch, *tree);
            assert(vals.take(0) =~= Seq::<(Seq<char>, Seq<char>)>::empty());
        }
        let mut i: usize = 0;
        while i < st.values.entries.len()
            invariant
                0 <= i <= vals.len(),
                vals == st.values@,
                vals == self.cell().committed(*tree)->0.values,
                cell == self.cell(),
                b0 == *old(batch),
                m0 == self.cell().latest(b0, *tree)->0,
                forall|j: int|
                    0 <= j < vals.len() ==> checkable(self.validators.of(#[trigger] vals[j].0), vals[j].1),
                results_ok(self.validators, vals.take(i as int), results),
                all_valid == all_passed(results),
                cell.wrote(
                    b0,
                    *batch,
                    *tree,
                    FormModel { errors: errors_after(m0.errors, vals.take(i as int), results), ..m0 },
                ),
            decreases vals.len() - i,
        {
            let name = &st.values.entries[i].0;
            let value = &st.values.entries[i].1;
            let ghost before = *batch;
            let vstr: &str = value.as_str();
            proof {
                assert(vals[i as int] == (name@, value@));
                assert(checkable(self.validators.of(vals[i as int].0), vals[i as int].1));
                assert(checkable(self.validators.of(name@), value@));
                assert(all_can_check(self.validators.of(name@), vstr));
            }
            let ok_i = self.validate_field(tree, batch, name.as_str(), vstr);
            proof {
                let r = choose|r: Option<String>|
                    #[trigger] first_error(self.validators.of(name@), vstr, r) && ok_i == r is None
                        && self.cell().wrote(
                        before,
                        *batch,
                        *tree,
                        model_with_error(self.cell().latest(before, *tree)->0, name@, text_view(r)),
                    );
                let e = text_view(r);
                assert(field_error_ok(self.validators.of(name@), value@, e));
                let old_results = results;
                results = results.push(e);
                assert(vals.take(i + 1).drop_last() =~= vals.take(i as int));
                assert(results.drop_last() =~= old_results);
                assert(vals.take(i + 1).last() == vals[i as int]);
                lemma_wrote_trans(
                    cell,
                    b0,
                    before,
                    *batch,
                    *tree,
                    FormModel { errors: errors_after(m0.errors, vals.take(i as int), old_results), ..m0 },
                    model_with_error(self.cell().latest(before, *tree)->0, name@, e),
                );
                assert forall|j: int| 0 <= j < vals.take(i + 1).len() implies field_error_ok(
                    self.validators.of(vals.take(i + 1)[j].0),
                    vals.take(i + 1)[j].1,
                    #[trigger] results[j],
                ) by {
                    if j < i {
                        assert(vals.take(i + 1)[j] == vals.take(i as int)[j]);
                        assert(results[j] == old_results[j]);
                    }
                }
            }
            all_valid = all_valid && ok_i;
            i = i + 1;
        }
        proof {
            assert(vals.take(vals.len() as int) =~= vals);
        }
        let ghost before = *batch;
        let mut last = cell.read_latest(tree, batch);
        last.is_valid = all_valid;
        cell.write(tree, batch, last);
        proof {
            lemma_wrote_trans(
                cell,
                b0,
                before,
                *batch,
                *tree,
                FormModel { errors: errors_after(m0.errors, vals, results), ..m0 },
                FormModel { errors: errors_after(m0.errors, vals, results), is_valid: all_valid, ..m0 },
            );
            assert(results_ok(self.validators, vals, results));
        }
        all_valid
    }
}

impl<F: Fn(&str) -> Option<String>, S: Fn(StringMap)> FormHandle<F, S> {
    /// Submit the form: every field with a value is marked touched (and no
    /// other), all values are validated, and when they pass the handler
    /// runs with the values while the form is marked submitting.
    pub fn submit(&self, tree: &FiberTree, batch: &mut StateBatch)
        requires
            self.cell().committed(*tree) is Some,
            self.cell().latest(*old(batch), *tree) is Some,
            forall|j: int|
                0 <= j < self.cell().committed(*tree)->0.values.len() ==> checkable(
                    self.validators.of(#[trigger] self.cell().committed(*tree)->0.values[j].0),
                    self.cell().committed(*tree)->0.values[j].1,
                ),
            self.on_submit is Some ==> forall|m: StringMap| call_requires(self.on_submit->0, (m,)),
        ensures
            exists|results: Seq<Option<Seq<char>>>|
                #[trigger] results_ok(self.validators, self.cell().committed(*tree)->0.values, results)
                    && self.cell().wrote(
                    *old(batch),
                    *final(batch),
                    *tree,
                    FormModel {
                        touched: all_touched(self.cell().committed(*tree)->0.values),
                        errors: errors_after(
                            self.cell().latest(*old(batch), *tree)->0.errors,
                            self.cell().committed(*tree)->0.values,
                            results,
                        ),
                        is_valid: all_passed(results),
                        is_submitting: if all_passed(results) {
                            false
                        } else {
                            self.cell().latest(*old(batch), *tree)->0.is_submitting
                        },
                        values: self.cell().latest(*old(batch), *tree)->0.values,
                    },
                ) && submitted(self.on_submit, all_passed(results), self.cell().committed(*tree)->0.values),
    {
        let cell = self.form_ref();
        let ghost b0 = *old(batch);
        let ghost m0 = cell.latest(b0, *tree)->0;
        let c = cell.read(tree);
        let ghost vals = c.values@;
        let mut touched = FlagMap::new();
        let mut i: usize = 0;
        proof {
            assert(vals.take(0) =~= Seq::<(Seq<char>, Seq<char>)>::empty());
        }
        while i < c.values.entries.len()
            invariant
                0 <= i <= vals.len(),
                vals == c.values@,
                touched@ == all_touched(vals.take(i as int)),
            decreases vals.len() - i,
        {
            let k = c.values.entries[i].0.clone();
            proof {
                assert(vals.take(i + 1).drop_last() =~= vals.take(i as int));
                assert(vals.take(i + 1).last().0 == k@);
            }
            touched.insert(k, true);
            i = i + 1;
        }
        proof {
            assert(vals.take(vals.len() as int) =~= vals);
        }
        let mut st = cell.read_latest(tree, batch);
        st.touched = touched;
        let ghost m1 = st@;
        cell.write(tree, batch, st);
        let ghost b1 = *batch;
        let ok = self.validate_all(tree, batch);
        let ghost b2 = *batch;
        let ghost results = choose|results: Seq<Option<Seq<char>>>|
            #[trigger] results_ok(self.validators, vals, results) && ok == all_passed(results) && cell.wrote(
                b1,
                b2,
                *tree,
                FormModel { errors: errors_after(m1.errors, vals, results), is_valid: ok, ..m1 },
            );
        proof {
            lemma_wrote_trans(
                cell,
                b0,
                b1,
                b2,
                *tree,
                m1,
                FormModel { errors: errors_after(m1.errors, vals, results), is_valid: ok, ..m1 },
            );
        }
        if ok {
            let ghost ba = *batch;
            let mut st2 = cell.read_latest(tree, batch);
            st2.is_submitting = true;
            let ghost ma = st2@;
            cell.write(tree, batch, st2);
            proof {
                lemma_wrote_trans(cell, b0, ba, *batch, *tree, cell.latest(ba, *tree)->0, ma);
            }
            let values = cell.read(tree).values;
            match &self.on_submit {
                Some(handler) => {
                    let ghost m = values;
                    handler(values);
                    proof {
                        assert(m@ == cell.committed(*tree)->0.values);
                        assert(submitted(self.on_submit, true, cell.committed(*tree)->0.values));
                    }
                },
                None => {},
            }
            let ghost bb = *batch;
            let mut st3 = cell.read_latest(tree, batch);
            st3.is_submitting = false;
            let ghost mb = st3@;
            cell.write(tree, batch, st3);
            proof {
                lemma_wrote_trans(cell, b0, bb, *batch, *tree, ma, mb);
            }
        }
    }
}

/// Keep the form state in the current component: the first render stores
/// a fresh state with the configured initial values, later renders keep
/// the stored state. The form's cell is provided as a context to the
/// components below.
pub fn use_form<F, S>(
    tree: &mut FiberTree,
    contexts: &mut crate::context_stack::ContextStack,
    config: FormConfig<F, S>,
) -> (r: FormHandle<F, S>)
    requires
        old(tree).wf(),
        old(tree).hook_room(2),
    ensures
        final(tree).wf(),
        crate::fiber_tree::same_except_fiber(*old(tree), *final(tree), old(tree).current().unwrap()),
        r.fiber_id == old(tree).current().unwrap(),
        r.hook_index == old(tree).current_hook_index(),
        r.validators == config.validators,
        r.on_submit == config.on_submit,
        r.initial_values@ == config.initial_values@,
        r.cell().committed(*final(tree)) is Some,
        r.cell().committed(*old(tree)) is Some ==> r.cell().committed(*final(tree)) == r.cell().committed(
            *old(tree),
        ),
        r.cell().committed(*old(tree)) is None ==> r.cell().committed(*final(tree)) == Some(
            FormModel {
                values: config.initial_values@,
                errors: Seq::empty(),
                touched: Seq::empty(),
                is_submitting: false,
                is_valid: true,
            },
        ),
        final(tree).fibers@[r.fiber_id.0].hook_index == r.hook_index + 2,
        ({
            let before = old(tree).fibers@[r.fiber_id.0];
            let idx = (r.hook_index + 1) as int;
            &&& before.hook_value::<FormRef>(idx) is Some ==> *final(contexts) == *old(contexts)
            &&& before.hook_value::<FormRef>(idx) is None ==> final(contexts).entries@ == old(
                contexts,
            ).entries@.push(crate::context_stack::entry_of(r.fiber_id, r.cell()))
        }),
{
    let ghost t0 = *tree;
    let (id, idx) = tree.next_hook_untracked();
    let present = {
        let f = tree.get(id).unwrap();
        if idx < f.hooks.len() {
            FormState::decode(&f.hooks[idx]).is_some()
        } else {
            false
        }
    };
    let FormConfig { initial_values, validators, on_submit } = config;
    let start_values = initial_values.duplicate();
    if !present {
        let st = FormState::new(initial_values);
        let cell = st.encode();
        tree.hook_write(id, idx, cell);
        proof {
            lemma_form_cell(st);
            assert(st@.errors =~= Seq::<(Seq<char>, Seq<char>)>::empty());
            assert(st@.touched =~= Seq::<(Seq<char>, bool)>::empty());
        }
    }
    let handle = FormHandle { fiber_id: id, hook_index: idx, validators, on_submit, initial_values: start_values };
    let fref = handle.form_ref();
    let ghost t1 = *tree;
    let _provided = crate::hooks::context::provide_value(tree, contexts, fref);
    proof {
        assert(tree.fibers@[id.0].hooks@[idx as int] == t1.fibers@[id.0].hooks@[idx as int]) by {
            assert(idx < t1.fibers@[id.0].hooks@.len());
        }
    }
    handle
}

/// The form provided by a component above.
pub fn use_form_context(contexts: &crate::context_stack::ContextStack) -> (r: FormRef)
    requires
        crate::context_stack::context_of::<FormRef>(contexts.entries@) is Some,
    ensures
        r == crate::context_stack::context_of::<FormRef>(contexts.entries@)->0,
{
    crate::hooks::context::use_context_v2::<FormRef>(contexts)
}

/// The form provided by a component above, if any.
pub fn try_use_form_context(contexts: &crate::context_stack::ContextStack) -> (r: Option<FormRef>)
    ensures
        r == crate::context_stack::context_of::<FormRef>(contexts.entries@),
{
    crate::hooks::context::try_use_context_v2::<FormRef>(contexts)
}

/// The form state that a watch hook reads: the committed state of the
/// form's own cell, whichever component watches it.
pub open spec fn watched_form(tree: FiberTree, form: FormRef) -> Option<FormModel> {
    form.committed(tree)
}

/// The watched value of a field: its value, or empty.
pub open spec fn watched_value(m: Option<FormModel>, name: Seq<char>) -> Seq<char> {
    match m {
        Some(st) => match lookup(st.values, name) {
            Some(v) => v,
            None => Seq::empty(),
        },
        None => Seq::empty(),
    }
}

/// The watched values of several fields, each present (empty when unset);
/// no fields when there is no form state.
pub open spec fn watched_values(m: Option<FormModel>, names: Seq<Seq<char>>) -> Seq<(Seq<char>, Seq<char>)>
    decreases names.len(),
{
    if names.len() == 0 || m is None {
        Seq::empty()
    } else {
        assoc_insert(watched_values(m, names.drop_last()), names.last(), watched_value(m, names.last()))
    }
}

/// The form state the watch hooks read.
fn read_watched(tree: &FiberTree, form: &FormRef) -> (r: Option<FormState>)
    ensures
        match r {
            Some(st) => watched_form(*tree, *form) == Some(st@),
            None => watched_form(*tree, *form) is None,
        },
{
    match tree.get(form.fiber_id) {
        Some(f) => {
            if form.hook_index < f.hooks.len() {
                FormState::decode(&f.hooks[form.hook_index])
            } else {
                None
            }
        },
        None => None,
    }
}

/// The value of a field of a form, kept in a state cell of the current
/// component so that a change of the value re-renders it.
pub fn use_watch(tree: &mut FiberTree, batch: &mut StateBatch, form: &FormRef, field_name: &str) -> (r: String)
    requires
        old(tree).wf(),
        old(tree).hook_room(1),
    ensures
        final(tree).wf(),
        crate::fiber_tree::same_except_fiber(*old(tree), *final(tree), old(tree).current().unwrap()),
        r@ == watched_value(watched_form(*old(tree), *form), field_name@),
        ({
            let id = old(tree).current().unwrap();
            let idx = old(tree).current_hook_index();
            let stored = final(tree).fibers@[id.0].hook_value::<String>(idx as int);
            &&& final(tree).fibers@[id.0].hook_index == idx + 1
            &&& stored is Some
            &&& stored->0@ != r@ ==> crate::hooks::state::setter_for::<String>(id, idx).queued(*old(batch), *final(batch), r)
            &&& stored->0@ == r@ ==> *final(batch) == *old(batch)
        }),
{
    let current = match read_watched(tree, form) {
        Some(st) => match st.values.get(field_name) {
            Some(v) => v.clone(),
            None => String::new(),
        },
        None => String::new(),
    };
    let (id, idx) = tree.next_hook("use_state");
    let stored: String = tree.hook_get_or_insert(id, idx, current.clone());
    let setter = crate::hooks::state::StateSetter::<String> { fiber_id: id, hook_index: idx, marker: std::marker::PhantomData };
    if !(current == stored) {
        setter.set(batch, current.clone());
    }
    current
}

/// The values of several fields of a form (empty text for an unset
/// field), kept in a state cell of the current component.
pub fn use_watch_multiple(tree: &mut FiberTree, batch: &mut StateBatch, form: &FormRef, field_names: &[&str]) -> (r: StringMap)
    requires
        old(tree).wf(),
        old(tree).hook_room(1),
    ensures
        final(tree).wf(),
        crate::fiber_tree::same_except_fiber(*old(tree), *final(tree), old(tree).current().unwrap()),
        r@ == watched_values(watched_form(*old(tree), *form), field_names@.map_values(|n: &str| n@)),
        ({
            let id = old(tree).current().unwrap();
            let idx = old(tree).current_hook_index();
            let stored = final(tree).fibers@[id.0].hook_value::<Slot>(idx as int);
            &&& final(tree).fibers@[id.0].hook_index == idx + 1
            &&& stored is Some
            &&& !stored->0.same(text_list(r.entries@)) ==> crate::hooks::state::setter_for::<Slot>(id, idx).queued(
                *old(batch),
                *final(batch),
                text_list(r.entries@),
            )
            &&& stored->0.same(text_list(r.entries@)) ==> *final(batch) == *old(batch)
        }),
{
    let ghost names = field_names@.map_values(|n: &str| n@);
    let watched = read_watched(tree, form);
    let mut current = StringMap::new();
    match &watched {
        Some(st) => {
            let mut i: usize = 0;
            while i < field_names.len()
                invariant
                    0 <= i <= field_names@.len(),
                    names == field_names@.map_values(|n: &str| n@),
                    watched_form(*old(tree), *form) == Some(st@),
                    current@ == watched_values(watched_form(*old(tree), *form), names.take(i as int)),
                decreases field_names@.len() - i,
            {
                let name = field_names[i];
                let value = match st.values.get(name) {
                    Some(v) => v.clone(),
                    None => String::new(),
                };
                proof {
                    assert(names.take(i + 1).drop_last() =~= names.take(i as int));
                    assert(names.take(i + 1).last() == name@);
                }
                current.insert(name.to_owned(), value);
                i = i + 1;
            }
            proof {
                assert(names.take(field_names@.len() as int) =~= names);
            }
        },
        None => {
            proof {
                assert(current@ =~= watched_values(watched_form(*old(tree), *form), names));
            }
        },
    }
    let enc = encode_texts(&current.entries);
    let (id, idx) = tree.next_hook("use_state");
    let stored: Slot = tree.hook_get_or_insert(id, idx, enc.duplicate());
    let setter = crate::hooks::state::StateSetter::<Slot> { fiber_id: id, hook_index: idx, marker: std::marker::PhantomData };
    if !stored.same_as(&enc) {
        setter.set(batch, enc);
    }
    current
}

/// All values of a form, kept in a state cell of the current component.
pub fn use_watch_all(tree: &mut FiberTree, batch: &mut StateBatch, form: &FormRef) -> (r: StringMap)
    requires
        old(tree).wf(),
        old(tree).hook_room(1),
    ensures
        final(tree).wf(),
        crate::fiber_tree::same_except_fiber(*old(tree), *final(tree), old(tree).current().unwrap()),
        r@ == (match watched_form(*old(tree), *form) {
            Some(m) => m.values,
            None => Seq::empty(),
        }),
        ({
            let id = old(tree).current().unwrap();
            let idx = old(tree).current_hook_index();
            let stored = final(tree).fibers@[id.0].hook_value::<Slot>(idx as int);
            &&& final(tree).fibers@[id.0].hook_index == idx + 1
            &&& stored is Some
            &&& !stored->0.same(text_list(r.entries@)) ==> crate::hooks::state::setter_for::<Slot>(id, idx).queued(
                *old(batch),
                *final(batch),
                text_list(r.entries@),
            )
            &&& stored->0.same(text_list(r.entries@)) ==> *final(batch) == *old(batch)
        }),
{
    let current = match read_watched(tree, form) {
        Some(st) => st.values,
        None => StringMap::new(),
    };
    let enc = encode_texts(&current.entries);
    let (id, idx) = tree.next_hook("use_state");
    let stored: Slot = tree.hook_get_or_insert(id, idx, enc.duplicate());
    let setter = crate::hooks::state::StateSetter::<Slot> { fiber_id: id, hook_index: idx, marker: std::marker::PhantomData };
    if !stored.same_as(&enc) {
        setter.set(batch, enc);
    }
    current
}

} // verus!
