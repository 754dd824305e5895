use vstd::prelude::*;
use crate::params::map_of_pairs;

verus! {

/// An `<input>` element of a form: its `name` and `value` attributes.
pub struct HtmlInput {
    pub name: Option<String>,
    pub value: Option<String>,
}

/// A `<form>` element: its `name`, `action` and `method` attributes, and its
/// inputs in document order.
pub struct HtmlForm {
    pub name: Option<String>,
    pub action: Option<String>,
    pub method: Option<String>,
    pub inputs: Vec<HtmlInput>,
}

pub type InputView = (Option<Seq<char>>, Option<Seq<char>>);

pub type FormView = (Option<Seq<char>>, Option<Seq<char>>, Option<Seq<char>>, Seq<InputView>);

pub open spec fn opt_view(o: Option<String>) -> Option<Seq<char>> {
    match o {
        Some(s) => Some(s@),
        None => None,
    }
}

impl HtmlInput {
    pub open spec fn view(&self) -> InputView {
        (opt_view(self.name), opt_view(self.value))
    }
}

impl HtmlForm {
    pub open spec fn view(&self) -> FormView {
        (opt_view(self.name), opt_view(self.action), opt_view(self.method),
         self.inputs@.map_values(|i: HtmlInput| i.view()))
    }
}

pub open spec fn forms_view(v: Seq<HtmlForm>) -> Seq<FormView> {
    v.map_values(|f: HtmlForm| f.view())
}

/// The forms of an HTML document as scraper's parser reads them.
pub uninterp spec fn html_forms_of(text: Seq<char>) -> Seq<FormView>;

/// Relies on scraper's `Html::parse_document`, and on `select` with the
/// selectors `form` and `input` (both valid), which yield elements in the order
/// of scraper's tree; `attr` reads an attribute.
#[verifier::external_body]
pub(crate) fn html_forms(text: &str) -> (r: Vec<HtmlForm>)
    ensures
        forms_view(r@) == html_forms_of(text@),
{
    let doc = scraper::Html::parse_document(text);
    let (form, input) = (scraper::Selector::parse("form").unwrap(), scraper::Selector::parse("input").unwrap());
    let attr = |e: &scraper::ElementRef, n: &str| e.value().attr(n).map(String::from);
    doc.select(&form).map(|f| HtmlForm {
        name: attr(&f, "name"),
        action: attr(&f, "action"),
        method: attr(&f, "method"),
        inputs: f.select(&input).map(|i| HtmlInput { name: attr(&i, "name"), value: attr(&i, "value") }).collect(),
    }).collect()
}

/// The fields that the inputs submit: those with both a name and a value, in
/// order.
pub open spec fn submitted(inputs: Seq<InputView>) -> Seq<(Seq<char>, Seq<char>)>
    decreases inputs.len(),
{
    if inputs.len() == 0 {
        Seq::empty()
    } else {
        let rest = submitted(inputs.drop_last());
        match inputs.last() {
            (Some(n), Some(v)) => rest.push((n, v)),
            _ => rest,
        }
    }
}

/// The index of the first form named `name`.
pub open spec fn first_form_named(forms: Seq<FormView>, name: Seq<char>, k: int) -> Option<int>
    decreases forms.len() - k,
{
    if k < 0 || k >= forms.len() {
        None
    } else if forms[k].0 == Some(name) {
        Some(k)
    } else {
        first_form_named(forms, name, k + 1)
    }
}

/// A form's target, method and submitted fields; keys unique.
pub struct FormFields {
    entries: Vec<(String, String)>,
}

pub open spec fn keys_unique(e: Seq<(Seq<char>, Seq<char>)>) -> bool {
    forall|i: int, j: int| 0 <= i < j < e.len() ==> e[i].0 != e[j].0
}

proof fn lemma_map_update(e: Seq<(Seq<char>, Seq<char>)>, i: int, v: Seq<char>)
    requires
        keys_unique(e),
        0 <= i < e.len(),
    ensures
        map_of_pairs(e.update(i, (e[i].0, v))) == map_of_pairs(e).insert(e[i].0, v),
    decreases e.len(),
{
    let k = e[i].0;
    let u = e.update(i, (k, v));
    if i == e.len() - 1 {
        assert(u.drop_last() =~= e.drop_last());
        assert(map_of_pairs(u) =~= map_of_pairs(e).insert(k, v));
    } else {
        lemma_map_update(e.drop_last(), i, v);
        assert(u.drop_last() =~= e.drop_last().update(i, (k, v)));
        assert(e.last().0 != k);
        assert(map_of_pairs(u) =~= map_of_pairs(e).insert(k, v));
    }
}

proof fn lemma_map_absent(e: Seq<(Seq<char>, Seq<char>)>, k: Seq<char>)
    requires
        forall|i: int| 0 <= i < e.len() ==> #[trigger] e[i].0 != k,
    ensures
        !map_of_pairs(e).contains_key(k),
    decreases e.len(),
{
    if e.len() > 0 {
        lemma_map_absent(e.drop_last(), k);
    }
}

impl FormFields {
    pub closed spec fn pairs(&self) -> Seq<(Seq<char>, Seq<char>)> {
        self.entries@.map_values(|p: (String, String)| (p.0@, p.1@))
    }

    pub open spec fn view(&self) -> Map<Seq<char>, Seq<char>> {
        map_of_pairs(self.pairs())
    }

    pub closed spec fn wf(&self) -> bool {
        keys_unique(self.pairs())
    }

    pub fn new() -> (r: Self)
        ensures
            r.wf(),
            r.view() == Map::<Seq<char>, Seq<char>>::empty(),
    {
        FormFields { entries: Vec::new() }
    }

    pub fn len(&self) -> (r: usize)
        requires
            self.wf(),
        ensures
            r == self.view().len(),
    {
        proof { self.lemma_len(); }
        self.entries.len()
    }

    proof fn lemma_len(&self)
        requires
            self.wf(),
        ensures
            self.view().dom().finite(),
            self.view().len() == self.entries@.len(),
    {
        lemma_unique_len(self.pairs());
    }

    /// Sets `key` to `value`, replacing an earlier value of it.
    pub fn insert(&mut self, key: String, value: String)
        requires
            old(self).wf(),
        ensures
            final(self).wf(),
            final(self).view() == old(self).view().insert(key@, value@),
    {
        let ghost e = self.pairs();
        let ghost kv = key@;
        let ghost vv = value@;
        let mut i: usize = 0;
        while i < self.entries.len()
            invariant
                e == self.pairs(),
                e == old(self).pairs(),
                kv == key@,
                vv == value@,
                keys_unique(e),
                i <= self.entries@.len(),
                forall|j: int| 0 <= j < i ==> #[trigger] e[j].0 != key@,
            decreases self.entries@.len() - i,
        {
            if self.entries[i].0 == key {
                assert(e[i as int].0 == kv);
                proof { lemma_map_update(e, i as int, vv); }
                self.entries.set(i, (key, value));
                assert(self.pairs() =~= e.update(i as int, (kv, vv)));
                return;
            }
            i = i + 1;
        }
        self.entries.push((key, value));
        assert(self.pairs() =~= e.push((key@, value@)));
        assert(self.pairs().drop_last() =~= e);
    }

    /// The fields, one pair per key.
    pub fn entries(&self) -> (r: &Vec<(String, String)>)
        ensures
            r@.map_values(|p: (String, String)| (p.0@, p.1@)) == self.pairs(),
    {
        &self.entries
    }
}

proof fn lemma_unique_len(e: Seq<(Seq<char>, Seq<char>)>)
    requires
        keys_unique(e),
    ensures
        map_of_pairs(e).dom().finite(),
        map_of_pairs(e).len() == e.len(),
    decreases e.len(),
{
    if e.len() > 0 {
        let d = e.drop_last();
        lemma_unique_len(d);
        assert forall|i: int| 0 <= i < d.len() implies #[trigger] d[i].0 != e.last().0 by {
            assert(e[i].0 != e[e.len() - 1].0);
        }
        lemma_map_absent(d, e.last().0);
    }
}

/// What the login form yields.
pub struct FormDescriptor {
    pub action: String,
    pub method: String,
    pub fields: FormFields,
}

pub open spec fn or_empty(o: Option<Seq<char>>) -> Seq<char> {
    match o {
        Some(s) => s,
        None => Seq::empty(),
    }
}

/// The action, method and submitted fields of the first form named `name`.
pub open spec fn form_of(forms: Seq<FormView>, name: Seq<char>) -> Option<(Seq<char>, Seq<char>, Map<Seq<char>, Seq<char>>)> {
    match first_form_named(forms, name, 0) {
        Some(k) => Some((or_empty(forms[k].1), or_empty(forms[k].2), map_of_pairs(submitted(forms[k].3)))),
        None => None,
    }
}

impl FormDescriptor {
    pub open spec fn view(&self) -> (Seq<char>, Seq<char>, Map<Seq<char>, Seq<char>>) {
        (self.action@, self.method@, self.fields.view())
    }
}

fn string_or_empty(o: &Option<String>) -> (r: String)
    ensures
        r@ == or_empty(opt_view(*o)),
{
    match o {
        Some(s) => s.clone(),
        None => String::new(),
    }
}

fn find_form(forms: &Vec<HtmlForm>, form_name: &str) -> (r: Option<usize>)
    ensures
        r is Some <==> first_form_named(forms_view(forms@), form_name@, 0) is Some,
        r is Some ==> r->Some_0 as int == first_form_named(forms_view(forms@), form_name@, 0)->Some_0,
        r is Some ==> r->Some_0 < forms@.len(),
{
    let ghost fv = forms_view(forms@);
    let target = String::from_str(form_name);
    let mut k: usize = 0;
    while k < forms.len()
        invariant
            fv == forms_view(forms@),
            target@ == form_name@,
            k <= forms@.len(),
            first_form_named(fv, form_name@, 0) == first_form_named(fv, form_name@, k as int),
        decreases forms@.len() - k,
    {
        let hit = match &forms[k].name {
            Some(n) => *n == target,
            None => false,
        };
        assert(hit == (fv[k as int].0 == Some(form_name@)));
        if hit {
            return Some(k);
        }
        k = k + 1;
    }
    None
}

/// Finds the first form named `form_name` and reads its action, its method
/// (empty when absent) and the fields of its inputs that carry both a name
/// and a value; a later input overrides an earlier one of the same name.
pub fn extract_form(forms: &Vec<HtmlForm>, form_name: &str) -> (r: Option<FormDescriptor>)
    ensures
        r is Some <==> form_of(forms_view(forms@), form_name@) is Some,
        r is Some ==> r->Some_0.view() == form_of(forms_view(forms@), form_name@)->Some_0,
        r is Some ==> r->Some_0.fields.wf(),
{
    let ghost fv = forms_view(forms@);
    let k = match find_form(forms, form_name) {
        Some(k) => k,
        None => {
            return None;
        },
    };
    let f = &forms[k];
    let ghost iv = fv[k as int].3;
    let mut fields = FormFields::new();
    let mut j: usize = 0;
    while j < f.inputs.len()
        invariant
            iv == f.inputs@.map_values(|i: HtmlInput| i.view()),
            j <= f.inputs@.len(),
            fields.wf(),
            fields.view() == map_of_pairs(submitted(iv.take(j as int))),
        decreases f.inputs@.len() - j,
    {
        assert(iv.take(j + 1).drop_last() =~= iv.take(j as int));
        assert(iv.take(j + 1).last() == f.inputs@[j as int].view());
        match (&f.inputs[j].name, &f.inputs[j].value) {
            (Some(n), Some(v)) => {
                let ghost prev = submitted(iv.take(j as int));
                assert(submitted(iv.take(j + 1)) == prev.push((n@, v@)));
                assert(prev.push((n@, v@)).drop_last() =~= prev);
                fields.insert(n.clone(), v.clone());
            },
            _ => {},
        }
        j = j + 1;
    }
    assert(iv.take(j as int) =~= iv);
    Some(FormDescriptor {
        action: string_or_empty(&f.action),
        method: string_or_empty(&f.method),
        fields,
    })
}

} // verus!
