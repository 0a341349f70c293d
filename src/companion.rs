//! An executable model of the companion that the builder synthesizer emits:
//! one slot per field, one setter per slot, and `build`, which reads the
//! slots without consuming them. All fields hold values of one type `V`.
use vstd::prelude::*;
use crate::builder::{
    all_planned, kind_of, kinds_of, piece, plan_fields, setter_type, FieldPlan, Kind, Part,
};
use crate::schema::{DeriveError, Field};
use crate::text::same_text;

verus! {

/// The value of one field in the record that `build` returns.
pub enum FieldValue<V> {
    /// A mandatory field's value.
    Value(V),
    /// An optional field's value.
    Maybe(Option<V>),
    /// An `each` field's elements, in the order they were added.
    Many(Vec<V>),
}

/// The value of one field, as a value of the model.
pub enum ValueView<V> {
    Value(V),
    Maybe(Option<V>),
    Many(Seq<V>),
}

impl<V> View for FieldValue<V> {
    type V = ValueView<V>;

    open spec fn view(&self) -> ValueView<V> {
        match self {
            FieldValue::Value(v) => ValueView::Value(*v),
            FieldValue::Maybe(o) => ValueView::Maybe(*o),
            FieldValue::Many(l) => ValueView::Many(l@),
        }
    }
}

/// The error of `build` while a mandatory field is unset.
pub struct MissingAttribute {
    pub name: String,
}

impl MissingAttribute {
    /// `missing attribute <field name>`
    pub fn message(&self) -> (r: String)
        ensures
            r@ == "missing attribute "@ + self.name@,
    {
        let mut r = String::from_str("missing attribute ");
        r.append(self.name.as_str());
        r
    }
}

/// The state of a companion: field names, field kinds and slots, in
/// declaration order. An `each` field's slot is its list; every other
/// field's slot is its single optional value.
pub struct CompanionView<V> {
    pub names: Seq<Seq<char>>,
    pub kinds: Seq<Kind>,
    pub singles: Seq<Option<V>>,
    pub lists: Seq<Seq<V>>,
}

impl<V> CompanionView<V> {
    pub open spec fn len(self) -> int {
        self.names.len() as int
    }

    pub open spec fn wf(self) -> bool {
        &&& self.kinds.len() == self.len()
        &&& self.singles.len() == self.len()
        &&& self.lists.len() == self.len()
    }

    /// The name of the setter of field `i`.
    pub open spec fn setter(self, i: int) -> Seq<char> {
        match self.kinds[i] {
            Kind::Each { setter } => setter,
            _ => self.names[i],
        }
    }

    /// The first field at or after `i` whose setter is named `s`, or the
    /// number of fields when there is none.
    pub open spec fn find_setter(self, s: Seq<char>, i: int) -> int
        decreases self.len() - i,
    {
        if i < 0 || i >= self.len() {
            self.len()
        } else if self.setter(i) == s {
            i
        } else {
            self.find_setter(s, i + 1)
        }
    }

    /// Whether some field has a setter named `s`.
    pub open spec fn has_setter(self, s: Seq<char>) -> bool {
        exists|i: int| 0 <= i < self.len() && self.setter(i) == s
    }

    /// What the setter of field `i` does with `v`.
    pub open spec fn apply(self, i: int, v: V) -> Self {
        match self.kinds[i] {
            Kind::Each { .. } => CompanionView { lists: self.lists.update(i, self.lists[i].push(v)), ..self },
            _ => CompanionView { singles: self.singles.update(i, Some(v)), ..self },
        }
    }

    /// Calling the setter named `s` with `v`: the first field with that
    /// setter takes it; with no such setter nothing changes.
    pub open spec fn call(self, s: Seq<char>, v: V) -> Self {
        let i = self.find_setter(s, 0);
        if i < self.len() {
            self.apply(i, v)
        } else {
            self
        }
    }

    /// Calling the setters `setters` with `values`, one pair after the other.
    pub open spec fn call_all(self, setters: Seq<Seq<char>>, values: Seq<V>) -> Self
        decreases setters.len(),
    {
        if setters.len() == 0 || values.len() == 0 {
            self
        } else {
            self.call_all(setters.drop_last(), values.drop_last()).call(
                setters.last(),
                values.last(),
            )
        }
    }

    /// Whether field `i` is mandatory and unset.
    pub open spec fn missing(self, i: int) -> bool {
        self.kinds[i] is Mandatory && self.singles[i] is None
    }

    /// The first missing field at or after `i`, or the number of fields.
    pub open spec fn find_missing(self, i: int) -> int
        decreases self.len() - i,
    {
        if i < 0 || i >= self.len() {
            self.len()
        } else if self.missing(i) {
            i
        } else {
            self.find_missing(i + 1)
        }
    }

    /// The value that `build` gives field `i`.
    pub open spec fn value(self, i: int) -> ValueView<V> {
        match self.kinds[i] {
            Kind::Mandatory => ValueView::Value(self.singles[i]->0),
            Kind::Optional => ValueView::Maybe(self.singles[i]),
            Kind::Each { .. } => ValueView::Many(self.lists[i]),
        }
    }

    /// Finalizing: the name of the first missing field in declaration
    /// order, or the values of all fields.
    pub open spec fn build(self) -> Result<Seq<ValueView<V>>, Seq<char>> {
        let m = self.find_missing(0);
        if m < self.len() {
            Err(self.names[m])
        } else {
            Ok(Seq::new(self.len() as nat, |i: int| self.value(i)))
        }
    }
}

/// The companion as `builder()` makes it: every slot absent or empty.
pub open spec fn fresh<V>(fields: Seq<Field>) -> CompanionView<V> {
    CompanionView {
        names: fields.map_values(|f: Field| f.name@),
        kinds: kinds_of(fields),
        singles: Seq::new(fields.len(), |i: int| None),
        lists: Seq::new(fields.len(), |i: int| Seq::empty()),
    }
}

/// A builder companion at run time.
pub struct Companion<V> {
    names: Vec<String>,
    plans: Vec<FieldPlan>,
    singles: Vec<Option<V>>,
    lists: Vec<Vec<V>>,
}

impl<V: Copy> View for Companion<V> {
    type V = CompanionView<V>;

    closed spec fn view(&self) -> CompanionView<V> {
        CompanionView {
            names: self.names@.map_values(|s: String| s@),
            kinds: self.plans@.map_values(|p: FieldPlan| p@),
            singles: self.singles@,
            lists: self.lists@.map_values(|l: Vec<V>| l@),
        }
    }
}

impl<V: Copy> Companion<V> {
    pub closed spec fn wf(&self) -> bool {
        &&& self.plans@.len() == self.names@.len()
        &&& self.singles@.len() == self.names@.len()
        &&& self.lists@.len() == self.names@.len()
    }

    /// The companion of a record with these fields, every slot absent or
    /// empty; fails on the first malformed annotation.
    pub fn new(fields: &Vec<Field>) -> (r: Result<Self, DeriveError>)
        ensures
            r is Ok <==> all_planned(fields@),
            r is Ok ==> r->Ok_0.wf() && r->Ok_0@ == fresh::<V>(fields@),
    {
        let plans = match plan_fields(fields) {
            Ok(p) => p,
            Err(e) => return Err(e),
        };
        let mut names: Vec<String> = Vec::new();
        let mut singles: Vec<Option<V>> = Vec::new();
        let mut lists: Vec<Vec<V>> = Vec::new();
        let mut i: usize = 0;
        while i < fields.len()
            invariant
                i <= fields.len(),
                names@.len() == i && singles@.len() == i && lists@.len() == i,
                forall|j: int| 0 <= j < i ==> (#[trigger] names@[j])@ == fields@[j].name@,
                forall|j: int| 0 <= j < i ==> (#[trigger] singles@[j]) is None,
                forall|j: int| 0 <= j < i ==> (#[trigger] lists@[j])@.len() == 0,
            decreases fields.len() - i,
        {
            names.push(fields[i].name.clone());
            singles.push(None);
            lists.push(Vec::new());
            i = i + 1;
        }
        let c = Companion { names, plans, singles, lists };
        proof {
            let f = fresh::<V>(fields@);
            assert(c@.names =~= f.names);
            assert(c@.singles =~= f.singles);
            assert forall|j: int| 0 <= j < f.lists.len() implies c@.lists[j] == f.lists[j] by {
                assert(c@.lists[j] =~= f.lists[j]);
            }
            assert(c@.lists =~= f.lists);
            assert(c@.kinds.len() == f.kinds.len());
        }
        Ok(c)
    }

    /// Calls the setter named `setter` with `value`; returns whether such a
    /// setter exists.
    pub fn call(&mut self, setter: &str, value: V) -> (found: bool)
        requires
            old(self).wf(),
        ensures
            final(self).wf(),
            final(self)@ == old(self)@.call(setter@, value),
            found == old(self)@.has_setter(setter@),
    {
        let ghost c = self@;
        let mut i: usize = 0;
        while i < self.names.len()
            invariant
                self.wf(),
                self@ == c,
                c == old(self)@,
                i <= self.names@.len(),
                c.find_setter(setter@, 0) == c.find_setter(setter@, i as int),
                forall|j: int| 0 <= j < i ==> c.setter(j) != setter@,
            decreases self.names.len() - i,
        {
            let hit = match &self.plans[i] {
                FieldPlan::Each { setter: s } => same_text(s, setter),
                _ => same_text(&self.names[i], setter),
            };
            assert(hit == (c.setter(i as int) == setter@));
            if hit {
                assert(c.find_setter(setter@, i as int) == i);
                assert(c.has_setter(setter@));
                match &self.plans[i] {
                    FieldPlan::Each { .. } => {
                        let mut l = self.lists.remove(i);
                        l.push(value);
                        self.lists.insert(i, l);
                    },
                    _ => {
                        self.singles.set(i, Some(value));
                    },
                }
                assert(self@.lists =~= c.apply(i as int, value).lists);
                assert(self@.singles =~= c.apply(i as int, value).singles);
                assert(self@.names =~= c.names);
                assert(self@.kinds =~= c.kinds);
                return true;
            }
            i = i + 1;
        }
        false
    }

    /// Finalizes: fails with the first unset mandatory field in declaration
    /// order; otherwise returns every field's value, leaving the slots as
    /// they are.
    pub fn build(&self) -> (r: Result<Vec<FieldValue<V>>, MissingAttribute>)
        requires
            self.wf(),
        ensures
            match self@.build() {
                Ok(values) => r is Ok && r->Ok_0@.map_values(|v: FieldValue<V>| v@) == values,
                Err(name) => r is Err && r->Err_0.name@ == name,
            },
    {
        let ghost c = self@;
        let mut out: Vec<FieldValue<V>> = Vec::new();
        let mut i: usize = 0;
        while i < self.names.len()
            invariant
                self.wf(),
                c == self@,
                i <= self.names@.len(),
                out@.len() == i,
                c.find_missing(0) == c.find_missing(i as int),
                forall|j: int| 0 <= j < i ==> (#[trigger] out@[j])@ == c.value(j),
            decreases self.names.len() - i,
        {
            let v = match &self.plans[i] {
                FieldPlan::Mandatory => match self.singles[i] {
                    Some(v) => FieldValue::Value(v),
                    None => {
                        return Err(MissingAttribute { name: self.names[i].clone() });
                    },
                },
                FieldPlan::Optional => FieldValue::Maybe(self.singles[i]),
                FieldPlan::Each { .. } => FieldValue::Many(copy_list(&self.lists[i])),
            };
            out.push(v);
            i = i + 1;
        }
        assert(out@.map_values(|v: FieldValue<V>| v@) =~= Seq::new(
            c.len() as nat,
            |i: int| c.value(i),
        ));
        Ok(out)
    }
}

/// A copy of a list of values.
fn copy_list<V: Copy>(l: &Vec<V>) -> (r: Vec<V>)
    ensures
        r@ == l@,
{
    let mut r: Vec<V> = Vec::new();
    let mut i: usize = 0;
    while i < l.len()
        invariant
            i <= l@.len(),
            r@ == l@.take(i as int),
        decreases l.len() - i,
    {
        assert(l@.take(i + 1) =~= l@.take(i as int).push(l@[i as int]));
        r.push(l[i]);
        i = i + 1;
    }
    assert(l@.take(i as int) =~= l@);
    r
}

/// `find_setter` finds the first field at or after `i` whose setter is `s`.
pub proof fn lemma_find_setter<V>(c: CompanionView<V>, s: Seq<char>, i: int)
    requires
        0 <= i <= c.len(),
    ensures
        i <= c.find_setter(s, i) <= c.len(),
        c.find_setter(s, i) < c.len() ==> c.setter(c.find_setter(s, i)) == s,
        forall|j: int| i <= j < c.find_setter(s, i) ==> c.setter(j) != s,
    decreases c.len() - i,
{
    if i < c.len() && c.setter(i) != s {
        lemma_find_setter(c, s, i + 1);
    }
}

/// `find_missing` finds the first missing field at or after `i`.
pub proof fn lemma_find_missing<V>(c: CompanionView<V>, i: int)
    requires
        0 <= i <= c.len(),
    ensures
        i <= c.find_missing(i) <= c.len(),
        c.find_missing(i) < c.len() ==> c.missing(c.find_missing(i)),
        forall|j: int| i <= j < c.find_missing(i) ==> !c.missing(j),
    decreases c.len() - i,
{
    if i < c.len() && !c.missing(i) {
        lemma_find_missing(c, i + 1);
    }
}

/// When field `k` is the only one whose setter is named `s`, calling `s`
/// reaches field `k`.
pub proof fn lemma_unique_setter<V>(c: CompanionView<V>, k: int)
    requires
        c.wf(),
        0 <= k < c.len(),
        forall|j: int| 0 <= j < c.len() && j != k ==> c.setter(j) != c.setter(k),
    ensures
        c.find_setter(c.setter(k), 0) == k,
{
    lemma_find_setter(c, c.setter(k), 0);
}

/// After setting the first `k` fields of an all-mandatory record, the first
/// `k` slots hold their values and the others are still absent.
proof fn lemma_set_prefix<V>(fields: Seq<Field>, values: Seq<V>, k: int)
    requires
        all_planned(fields),
        forall|i: int| 0 <= i < fields.len() ==> kind_of(#[trigger] fields[i]) == Some(Kind::Mandatory),
        forall|i: int, j: int|
            0 <= i < fields.len() && 0 <= j < fields.len() && i != j ==> fields[i].name@
                != fields[j].name@,
        values.len() == fields.len(),
        0 <= k <= fields.len(),
    ensures
        ({
            let c0 = fresh::<V>(fields);
            let c = c0.call_all(fields.map_values(|f: Field| f.name@).take(k), values.take(k));
            &&& c.wf()
            &&& c.names == c0.names
            &&& c.kinds == c0.kinds
            &&& forall|i: int| 0 <= i < k ==> c.singles[i] == Some(values[i])
            &&& forall|i: int| k <= i < fields.len() ==> c.singles[i] is None
        }),
    decreases k,
{
    let c0 = fresh::<V>(fields);
    let names = fields.map_values(|f: Field| f.name@);
    if k > 0 {
        lemma_set_prefix(fields, values, k - 1);
        let c = c0.call_all(names.take(k - 1), values.take(k - 1));
        assert(names.take(k).drop_last() =~= names.take(k - 1));
        assert(values.take(k).drop_last() =~= values.take(k - 1));
        assert forall|j: int| 0 <= j < c.len() implies c.setter(j) == names[j] by {
            assert(kind_of(fields[j]) == Some(Kind::Mandatory));
        }
        lemma_unique_setter(c, k - 1);
    } else {
        assert(names.take(0) =~= Seq::<Seq<char>>::empty());
        assert(values.take(0) =~= Seq::<V>::empty());
    }
}

/// Setting every field of a record whose fields are all mandatory, once
/// each and in declaration order, then finalizing, gives exactly the values
/// that were set, as constructing the record directly would.
pub proof fn law_set_every_field_then_build<V>(fields: Seq<Field>, values: Seq<V>)
    requires
        all_planned(fields),
        forall|i: int| 0 <= i < fields.len() ==> kind_of(#[trigger] fields[i]) == Some(Kind::Mandatory),
        forall|i: int, j: int|
            0 <= i < fields.len() && 0 <= j < fields.len() && i != j ==> fields[i].name@
                != fields[j].name@,
        values.len() == fields.len(),
    ensures
        fresh::<V>(fields).call_all(fields.map_values(|f: Field| f.name@), values).build() == Ok::<
            Seq<ValueView<V>>,
            Seq<char>,
        >(values.map_values(|v: V| ValueView::Value(v))),
{
    let names = fields.map_values(|f: Field| f.name@);
    let n = fields.len() as int;
    lemma_set_prefix(fields, values, n);
    assert(names.take(n) =~= names);
    assert(values.take(n) =~= values);
    let c = fresh::<V>(fields).call_all(names, values);
    lemma_find_missing(c, 0);
    assert forall|i: int| 0 <= i < n implies c.kinds[i] == Kind::Mandatory by {
        assert(kind_of(fields[i]) == Some(Kind::Mandatory));
    }
    assert(c.build()->Ok_0 =~= values.map_values(|v: V| ValueView::Value(v)));
}

/// Finalizing a fresh companion reports the first mandatory field in
/// declaration order as missing, by its exact name.
pub proof fn law_fresh_build_reports_first_mandatory<V>(fields: Seq<Field>, k: int)
    requires
        all_planned(fields),
        0 <= k < fields.len(),
        kind_of(fields[k]) == Some(Kind::Mandatory),
        forall|j: int| 0 <= j < k ==> kind_of(#[trigger] fields[j]) != Some(Kind::Mandatory),
    ensures
        fresh::<V>(fields).build() == Err::<Seq<ValueView<V>>, Seq<char>>(fields[k].name@),
{
    let c = fresh::<V>(fields);
    lemma_find_missing(c, 0);
    let m = c.find_missing(0);
    if m < k {
        assert(kind_of(fields[m]) != Some(Kind::Mandatory));
    }
    assert(c.missing(k));
}

/// An optional field left unset never stops finalizing: once every
/// mandatory field is set, `build` succeeds and gives that field as absent.
pub proof fn law_unset_optional_is_absent<V>(c: CompanionView<V>, i: int)
    requires
        c.wf(),
        0 <= i < c.len(),
        c.kinds[i] == Kind::Optional,
        c.singles[i] is None,
        forall|j: int| 0 <= j < c.len() && (#[trigger] c.kinds[j]) is Mandatory ==> c.singles[j] is Some,
    ensures
        c.build() is Ok,
        c.build()->Ok_0[i] == ValueView::<V>::Maybe(None),
{
    lemma_find_missing(c, 0);
}

/// After `k` calls of the unique setter of `each` field `i`, its list holds
/// the first `k` values.
proof fn lemma_each_prefix<V>(c0: CompanionView<V>, i: int, values: Seq<V>, k: int)
    requires
        c0.wf(),
        0 <= i < c0.len(),
        c0.kinds[i] is Each,
        c0.lists[i] == Seq::<V>::empty(),
        forall|j: int| 0 <= j < c0.len() && j != i ==> c0.setter(j) != c0.setter(i),
        0 <= k <= values.len(),
    ensures
        ({
            let ss = Seq::new(values.len(), |n: int| c0.setter(i));
            let c = c0.call_all(ss.take(k), values.take(k));
            &&& c.wf()
            &&& c.names == c0.names
            &&& c.kinds == c0.kinds
            &&& c.lists[i] == values.take(k)
        }),
    decreases k,
{
    let ss = Seq::new(values.len(), |n: int| c0.setter(i));
    if k > 0 {
        lemma_each_prefix(c0, i, values, k - 1);
        let c = c0.call_all(ss.take(k - 1), values.take(k - 1));
        assert(ss.take(k).drop_last() =~= ss.take(k - 1));
        assert(values.take(k).drop_last() =~= values.take(k - 1));
        assert forall|j: int| 0 <= j < c.len() implies c.setter(j) == c0.setter(j) by {}
        lemma_unique_setter(c, i);
        assert(values.take(k) =~= values.take(k - 1).push(values[k - 1]));
    } else {
        assert(ss.take(0) =~= Seq::<Seq<char>>::empty());
        assert(values.take(0) =~= Seq::<V>::empty());
    }
}

/// Calling the setter of an `each` field with some values, one call per
/// value, gives that field exactly those values in call order; a call
/// named after the field itself never reaches its slot.
pub proof fn law_each_collects_in_call_order<V>(fields: Seq<Field>, i: int, values: Seq<V>)
    requires
        all_planned(fields),
        0 <= i < fields.len(),
        kind_of(fields[i])->0 is Each,
        forall|j: int|
            0 <= j < fields.len() && j != i ==> fresh::<V>(fields).setter(j) != fresh::<V>(
                fields,
            ).setter(i),
    ensures
        ({
            let c = fresh::<V>(fields);
            let after = c.call_all(Seq::new(values.len(), |k: int| c.setter(i)), values);
            &&& after.lists[i] == values
            &&& after.build() is Ok ==> after.build()->Ok_0[i] == ValueView::Many(values)
        }),
        forall|c: CompanionView<V>, v: V|
            c.wf() && 0 <= i < c.len() && c.kinds[i] is Each && c.setter(i) != c.names[i] ==> (
            #[trigger] c.call(c.names[i], v)).lists[i] == c.lists[i] && c.call(c.names[i], v).singles[i]
                == c.singles[i],
{
    let c0 = fresh::<V>(fields);
    let m = values.len() as int;
    lemma_each_prefix(c0, i, values, m);
    let ss = Seq::new(values.len(), |k: int| c0.setter(i));
    assert(ss.take(m) =~= ss);
    assert(values.take(m) =~= values);
    assert forall|c: CompanionView<V>, v: V|
        c.wf() && 0 <= i < c.len() && c.kinds[i] is Each && c.setter(i) != c.names[i] implies (
        #[trigger] c.call(c.names[i], v)).lists[i] == c.lists[i] && c.call(c.names[i], v).singles[i]
            == c.singles[i] by {
        lemma_find_setter(c, c.names[i], 0);
    }
}

/// A sequence is a prefix of itself followed by anything.
proof fn lemma_prefix_of_add(a: Seq<char>, b: Seq<char>)
    ensures
        a.is_prefix_of(a + b),
{
    assert((a + b).subrange(0, a.len() as int) =~= a);
}

/// A prefix stays a prefix when more follows.
proof fn lemma_prefix_extends(a: Seq<char>, b: Seq<char>, c: Seq<char>)
    requires
        a.is_prefix_of(b),
    ensures
        a.is_prefix_of(b + c),
{
    assert((b + c).subrange(0, a.len() as int) =~= b.subrange(0, a.len() as int));
}

/// The model and the emitted source agree: the setter that the model calls
/// for field `i` is the method that the companion's source declares for
/// that field, and a mandatory field's check in `build` fails with the
/// model's message for that field.
pub proof fn law_source_declares_model_setters(fields: Seq<Field>, i: int)
    requires
        all_planned(fields),
        0 <= i < fields.len(),
    ensures
        ("    pub fn "@ + fresh::<u8>(fields).setter(i) + "(&mut self, "@).is_prefix_of(
            piece(Part::Setter, fields[i], kinds_of(fields)[i]),
        ),
        kinds_of(fields)[i] is Mandatory ==> piece(Part::Value, fields[i], kinds_of(fields)[i])
            == "            "@ + fields[i].name@ + ": self."@ + fields[i].name@
            + ".clone().ok_or(\""@ + ("missing attribute "@ + fields[i].name@) + "\")?,\n"@,
{
    let f = fields[i];
    let k = kinds_of(fields)[i];
    let c = fresh::<u8>(fields);
    let n = f.name@;
    assert(c.kinds[i] == k);
    assert(c.names[i] == n);
    let head = "    pub fn "@ + c.setter(i);
    let pre = head + "(&mut self, "@;
    match k {
        Kind::Each { setter } => {
            reveal_strlit("(&mut self, ");
            reveal_strlit("(&mut self, val: ");
            let lit = "(&mut self, val: "@;
            assert("(&mut self, "@.is_prefix_of(lit)) by {
                assert(lit.subrange(0, 12) =~= "(&mut self, "@);
            }
            assert(pre.is_prefix_of(head + lit)) by {
                assert((head + lit).subrange(0, pre.len() as int) =~= pre) by {
                    assert forall|j: int| 0 <= j < pre.len() implies (head + lit)[j] == pre[j] by {
                        if j >= head.len() {
                            assert(lit[j - head.len()] == "(&mut self, "@[j - head.len()]);
                        }
                    }
                }
            }
            let q = head + lit;
            lemma_prefix_extends(pre, q, setter_type(f, k));
            let q = q + setter_type(f, k);
            lemma_prefix_extends(pre, q, ") -> &mut Self {\n        self."@);
            let q = q + ") -> &mut Self {\n        self."@;
            lemma_prefix_extends(pre, q, n);
            let q = q + n;
            lemma_prefix_extends(pre, q, ".push(val);\n        self\n    }\n"@);
            assert(q + ".push(val);\n        self\n    }\n"@ == piece(Part::Setter, f, k));
        },
        _ => {
            lemma_prefix_of_add(pre, n);
            let q = pre + n;
            lemma_prefix_extends(pre, q, ": "@);
            let q = q + ": "@;
            lemma_prefix_extends(pre, q, setter_type(f, k));
            let q = q + setter_type(f, k);
            lemma_prefix_extends(pre, q, ") -> &mut Self {\n        self."@);
            let q = q + ") -> &mut Self {\n        self."@;
            lemma_prefix_extends(pre, q, n);
            let q = q + n;
            lemma_prefix_extends(pre, q, " = ::std::option::Option::Some("@);
            let q = q + " = ::std::option::Option::Some("@;
            lemma_prefix_extends(pre, q, n);
            let q = q + n;
            lemma_prefix_extends(pre, q, ");\n        self\n    }\n"@);
            assert(q + ");\n        self\n    }\n"@ == piece(Part::Setter, f, k));
        },
    }
    if k is Mandatory {
        let x = "            "@ + n + ": self."@ + n;
        let a = ".clone().ok_or(\""@;
        let m = "missing attribute "@;
        let joint = ".clone().ok_or(\"missing attribute "@;
        assert(joint =~= a + m) by {
            reveal_strlit(".clone().ok_or(\"");
            reveal_strlit("missing attribute ");
            reveal_strlit(".clone().ok_or(\"missing attribute ");
        }
        assert(x + a + (m + n) =~= x + joint + n);
    }
}

} // verus!
