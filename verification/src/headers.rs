//! Header fields in the order in which they came, each name once.

use vstd::prelude::*;

use crate::http_client::{HeaderName, HeaderValue};
use crate::text::{lowercase, same, to_lower};

verus! {

/// The place of the first field with this name.
pub open spec fn place_of(fields: Seq<(Seq<char>, Seq<char>)>, name: Seq<char>) -> Option<int>
    decreases fields.len(),
{
    if fields.len() == 0 {
        None
    } else if place_of(fields.drop_last(), name) is Some {
        place_of(fields.drop_last(), name)
    } else if fields.last().0 == name {
        Some(fields.len() - 1)
    } else {
        None
    }
}

/// The place of the first field whose name is this one but for the case of
/// its letters.
pub open spec fn place_ignoring_case(
    fields: Seq<(Seq<char>, Seq<char>)>,
    name: Seq<char>,
) -> Option<int>
    decreases fields.len(),
{
    if fields.len() == 0 {
        None
    } else if place_ignoring_case(fields.drop_last(), name) is Some {
        place_ignoring_case(fields.drop_last(), name)
    } else if lowercase(fields.last().0) == lowercase(name) {
        Some(fields.len() - 1)
    } else {
        None
    }
}

/// The value of the field with this name.
pub open spec fn value_of(fields: Seq<(Seq<char>, Seq<char>)>, name: Seq<char>) -> Option<
    Seq<char>,
> {
    match place_of(fields, name) {
        Some(i) => Some(fields[i].1),
        None => None,
    }
}

/// The fields with one of them set: a new name goes to the end, a known one
/// keeps its place.
pub open spec fn with_field(
    fields: Seq<(Seq<char>, Seq<char>)>,
    name: Seq<char>,
    value: Seq<char>,
) -> Seq<(Seq<char>, Seq<char>)> {
    match place_of(fields, name) {
        Some(i) => fields.update(i, (name, value)),
        None => fields.push((name, value)),
    }
}

/// The fields without the one that has this name but for the case of its
/// letters.
pub open spec fn without_field(
    fields: Seq<(Seq<char>, Seq<char>)>,
    name: Seq<char>,
) -> Seq<(Seq<char>, Seq<char>)> {
    match place_ignoring_case(fields, name) {
        Some(i) => fields.remove(i),
        None => fields,
    }
}

/// Whether no name occurs twice.
pub open spec fn names_differ(fields: Seq<(Seq<char>, Seq<char>)>) -> bool {
    forall|i: int, j: int|
        0 <= i < j < fields.len() ==> (#[trigger] fields[i]).0 != (#[trigger] fields[j]).0
}

/// Where a name is found, it stands, and it stands nowhere before.
pub proof fn lemma_place_of(fields: Seq<(Seq<char>, Seq<char>)>, name: Seq<char>)
    ensures
        place_of(fields, name) matches Some(i) ==> 0 <= i < fields.len() && fields[i].0 == name
            && forall|j: int| 0 <= j < i ==> (#[trigger] fields[j]).0 != name,
        place_of(fields, name) is None ==> forall|j: int|
            0 <= j < fields.len() ==> (#[trigger] fields[j]).0 != name,
    decreases fields.len(),
{
    if fields.len() > 0 {
        let rest = fields.drop_last();
        lemma_place_of(rest, name);
        assert forall|j: int| 0 <= j < rest.len() implies (#[trigger] fields[j]) == rest[j] by {}
    }
}

/// Where a name is found but for its case, it stands, and nowhere before.
pub proof fn lemma_place_ignoring_case(fields: Seq<(Seq<char>, Seq<char>)>, name: Seq<char>)
    ensures
        place_ignoring_case(fields, name) matches Some(i) ==> 0 <= i < fields.len() && lowercase(
            fields[i].0,
        ) == lowercase(name) && forall|j: int|
            0 <= j < i ==> lowercase((#[trigger] fields[j]).0) != lowercase(name),
        place_ignoring_case(fields, name) is None ==> forall|j: int|
            0 <= j < fields.len() ==> lowercase((#[trigger] fields[j]).0) != lowercase(name),
    decreases fields.len(),
{
    if fields.len() > 0 {
        let rest = fields.drop_last();
        lemma_place_ignoring_case(rest, name);
        assert forall|j: int| 0 <= j < rest.len() implies (#[trigger] fields[j]) == rest[j] by {}
    }
}

proof fn lemma_place_is(fields: Seq<(Seq<char>, Seq<char>)>, name: Seq<char>, i: int)
    requires
        0 <= i < fields.len(),
        fields[i].0 == name,
        forall|j: int| 0 <= j < i ==> (#[trigger] fields[j]).0 != name,
    ensures
        place_of(fields, name) == Some(i),
{
    lemma_place_of(fields, name);
    let k = place_of(fields, name);
    if k is None {
        assert(fields[i].0 != name);
    } else if k->0 < i {
        assert(fields[k->0].0 != name);
    }
}

proof fn lemma_place_none(fields: Seq<(Seq<char>, Seq<char>)>, name: Seq<char>)
    requires
        forall|j: int| 0 <= j < fields.len() ==> (#[trigger] fields[j]).0 != name,
    ensures
        place_of(fields, name) is None,
{
    lemma_place_of(fields, name);
}

/// Setting a field keeps the names different.
pub proof fn lemma_set_keeps_names_different(
    fields: Seq<(Seq<char>, Seq<char>)>,
    name: Seq<char>,
    value: Seq<char>,
)
    requires
        names_differ(fields),
    ensures
        names_differ(with_field(fields, name, value)),
{
    lemma_place_of(fields, name);
    let set = with_field(fields, name, value);
    assert forall|i: int, j: int| 0 <= i < j < set.len() implies (#[trigger] set[i]).0 != (
    #[trigger] set[j]).0 by {
        if j < fields.len() {
            assert(fields[i].0 != fields[j].0);
            assert(set[i].0 == fields[i].0);
            assert(set[j].0 == fields[j].0);
        } else {
            assert(fields[i].0 != name);
        }
    }
}

/// A field that was set is read back, and the others are as before.
pub proof fn lemma_set_is_read_back(
    fields: Seq<(Seq<char>, Seq<char>)>,
    name: Seq<char>,
    value: Seq<char>,
    other: Seq<char>,
)
    ensures
        value_of(with_field(fields, name, value), name) == Some(value),
        other != name ==> value_of(with_field(fields, name, value), other) == value_of(
            fields,
            other,
        ),
{
    lemma_place_of(fields, name);
    lemma_place_of(fields, other);
    let set = with_field(fields, name, value);
    let at = match place_of(fields, name) {
        Some(i) => i,
        None => fields.len() as int,
    };
    assert forall|j: int| 0 <= j < fields.len() implies (#[trigger] set[j]).0 == fields[j].0 by {}
    lemma_place_is(set, name, at);
    if other != name {
        match place_of(fields, other) {
            Some(i) => {
                assert forall|j: int| 0 <= j < i implies (#[trigger] set[j]).0 != other by {
                    assert(fields[j].0 != other);
                }
                lemma_place_is(set, other, i);
            },
            None => {
                assert forall|j: int| 0 <= j < set.len() implies (#[trigger] set[j]).0 != other by {
                    if j < fields.len() {
                        assert(fields[j].0 != other);
                    }
                }
                lemma_place_none(set, other);
            },
        }
    }
}

/// Setting a field twice is setting it to the later value.
pub proof fn lemma_set_twice(
    fields: Seq<(Seq<char>, Seq<char>)>,
    name: Seq<char>,
    first: Seq<char>,
    second: Seq<char>,
)
    ensures
        with_field(with_field(fields, name, first), name, second) == with_field(
            fields,
            name,
            second,
        ),
{
    lemma_place_of(fields, name);
    let set = with_field(fields, name, first);
    let at = match place_of(fields, name) {
        Some(i) => i,
        None => fields.len() as int,
    };
    assert forall|j: int| 0 <= j < at implies (#[trigger] set[j]).0 != name by {
        assert(fields[j].0 != name);
    }
    lemma_place_is(set, name, at);
    assert(with_field(set, name, second) =~= with_field(fields, name, second));
}

/// Removing a field keeps the names different, and what is left was there.
pub proof fn lemma_remove_keeps_names_different(
    fields: Seq<(Seq<char>, Seq<char>)>,
    name: Seq<char>,
)
    requires
        names_differ(fields),
    ensures
        names_differ(without_field(fields, name)),
{
    lemma_place_ignoring_case(fields, name);
    if let Some(k) = place_ignoring_case(fields, name) {
        let left = without_field(fields, name);
        assert forall|i: int, j: int| 0 <= i < j < left.len() implies (#[trigger] left[i]).0 != (
        #[trigger] left[j]).0 by {
            let a = if i < k {
                i
            } else {
                i + 1
            };
            let b = if j < k {
                j
            } else {
                j + 1
            };
            assert(left[i] == fields[a]);
            assert(left[j] == fields[b]);
        }
    }
}

/// Removing the only field of a name undoes setting it.
pub proof fn lemma_remove_undoes_set(
    fields: Seq<(Seq<char>, Seq<char>)>,
    name: Seq<char>,
    value: Seq<char>,
)
    requires
        place_ignoring_case(fields, name) is None,
    ensures
        without_field(with_field(fields, name, value), name) == fields,
{
    lemma_place_ignoring_case(fields, name);
    lemma_place_of(fields, name);
    if let Some(i) = place_of(fields, name) {
        assert(lowercase(fields[i].0) != lowercase(name));
    }
    let set = with_field(fields, name, value);
    assert(set.drop_last() =~= fields);
    assert(without_field(set, name) =~= fields);
}

/// Header fields, each name once, in the order in which they came.
#[derive(Debug)]
pub struct Headers {
    fields: Vec<(HeaderName, HeaderValue)>,
}

/// The texts of some fields.
pub open spec fn field_texts(fields: Seq<(HeaderName, HeaderValue)>) -> Seq<
    (Seq<char>, Seq<char>),
> {
    Seq::new(fields.len(), |i: int| (fields[i].0@, fields[i].1@))
}

impl View for Headers {
    type V = Seq<(Seq<char>, Seq<char>)>;

    closed spec fn view(&self) -> Seq<(Seq<char>, Seq<char>)> {
        field_texts(self.fields@)
    }
}

impl Headers {
    #[verifier::type_invariant]
    spec fn each_once(self) -> bool {
        names_differ(field_texts(self.fields@))
    }

    /// No fields.
    pub fn new() -> (r: Headers)
        ensures
            r@ == Seq::<(Seq<char>, Seq<char>)>::empty(),
    {
        let r = Headers { fields: Vec::new() };
        proof {
            assert(r@ =~= Seq::<(Seq<char>, Seq<char>)>::empty());
        }
        r
    }

    /// The number of fields.
    pub fn len(&self) -> (n: usize)
        ensures
            n == self@.len(),
            names_differ(self@),
    {
        proof {
            use_type_invariant(self);
        }
        self.fields.len()
    }

    pub fn is_empty(&self) -> (r: bool)
        ensures
            r == (self@.len() == 0),
    {
        self.fields.len() == 0
    }

    /// The name of the `i`-th field.
    pub fn name_at(&self, i: usize) -> (r: &HeaderName)
        requires
            i < self@.len(),
        ensures
            r@ == self@[i as int].0,
    {
        &self.fields[i].0
    }

    /// The value of the `i`-th field.
    pub fn value_at(&self, i: usize) -> (r: &HeaderValue)
        requires
            i < self@.len(),
        ensures
            r@ == self@[i as int].1,
    {
        &self.fields[i].1
    }

    /// Where the field with this name stands.
    fn find(&self, name: &str) -> (r: Option<usize>)
        ensures
            r is Some == place_of(self@, name@) is Some,
            r matches Some(i) ==> place_of(self@, name@) == Some(i as int) && i < self@.len(),
    {
        let ghost all = self@;
        let mut i: usize = 0;
        while i < self.fields.len()
            invariant
                i <= self.fields@.len(),
                all == field_texts(self.fields@),
                all == self@,
                forall|j: int| 0 <= j < i ==> (#[trigger] all[j]).0 != name@,
            decreases self.fields@.len() - i,
        {
            if same(self.fields[i].0.as_str(), name) {
                proof {
                    lemma_place_is(all, name@, i as int);
                }
                return Some(i);
            }
            i = i + 1;
        }
        proof {
            lemma_place_none(all, name@);
        }
        None
    }

    /// The value of the field with this name.
    pub fn get(&self, name: &str) -> (r: Option<&HeaderValue>)
        ensures
            r is Some == value_of(self@, name@) is Some,
            r matches Some(v) ==> value_of(self@, name@) == Some(v@),
    {
        match self.find(name) {
            Some(i) => Some(&self.fields[i].1),
            None => None,
        }
    }

    /// Whether there is a field with this name.
    pub fn contains_key(&self, name: &str) -> (r: bool)
        ensures
            r == value_of(self@, name@) is Some,
    {
        self.find(name).is_some()
    }

    /// Sets a field.
    pub fn insert(&mut self, name: HeaderName, value: HeaderValue)
        ensures
            final(self)@ == with_field(old(self)@, name@, value@),
    {
        proof {
            use_type_invariant(&*self);
        }
        let ghost before = self@;
        let found = self.find(name.as_str());
        let mut fields: Vec<(HeaderName, HeaderValue)> = Vec::new();
        std::mem::swap(&mut fields, &mut self.fields);
        let ghost texts = field_texts(fields@);
        proof {
            lemma_set_keeps_names_different(before, name@, value@);
        }
        match found {
            Some(i) => {
                let ghost field = (name, value);
                fields.set(i, (name, value));
                proof {
                    assert(field_texts(fields@) =~= texts.update(i as int, (field.0@, field.1@)));
                }
            },
            None => {
                let ghost field = (name, value);
                fields.push((name, value));
                proof {
                    assert(field_texts(fields@) =~= texts.push((field.0@, field.1@)));
                }
            },
        }
        self.fields = fields;
    }

    /// Removes the field that has this name but for the case of its letters,
    /// and returns its value.
    pub fn remove_ignoring_case(&mut self, name: &str) -> (r: Option<HeaderValue>)
        ensures
            final(self)@ == without_field(old(self)@, name@),
            r is Some == place_ignoring_case(old(self)@, name@) is Some,
            r matches Some(v) ==> v@ == old(self)@[place_ignoring_case(old(self)@, name@)->0].1,
    {
        proof {
            use_type_invariant(&*self);
        }
        let ghost all = self@;
        let wanted = to_lower(name);
        let mut i: usize = 0;
        while i < self.fields.len() && !same(
            to_lower(self.fields[i].0.as_str()).as_str(),
            wanted.as_str(),
        )
            invariant
                i <= self.fields@.len(),
                all == field_texts(self.fields@),
                wanted@ == lowercase(name@),
                forall|j: int|
                    0 <= j < i ==> lowercase((#[trigger] all[j]).0) != lowercase(name@),
            decreases self.fields@.len() - i,
        {
            i = i + 1;
        }
        proof {
            lemma_place_ignoring_case(all, name@);
            lemma_remove_keeps_names_different(all, name@);
        }
        if i >= self.fields.len() {
            return None;
        }
        proof {
            assert(lowercase(all[i as int].0) == lowercase(name@));
            assert(place_ignoring_case(all, name@) == Some(i as int)) by {
                let k = place_ignoring_case(all, name@);
                if k is None {
                    assert(lowercase(all[i as int].0) != lowercase(name@));
                } else if k->0 < i {
                    assert(lowercase(all[k->0].0) != lowercase(name@));
                }
            }
        }
        let mut fields: Vec<(HeaderName, HeaderValue)> = Vec::new();
        std::mem::swap(&mut fields, &mut self.fields);
        let removed = fields.remove(i);
        proof {
            assert(field_texts(fields@) =~= all.remove(i as int));
        }
        self.fields = fields;
        Some(removed.1)
    }
}

impl Clone for Headers {
    fn clone(&self) -> (r: Headers)
        ensures
            r@ == self@,
    {
        proof {
            use_type_invariant(self);
        }
        let ghost all = self@;
        let mut fields: Vec<(HeaderName, HeaderValue)> = Vec::new();
        let mut i: usize = 0;
        while i < self.fields.len()
            invariant
                i <= self.fields@.len(),
                all == field_texts(self.fields@),
                field_texts(fields@) =~= all.take(i as int),
            decreases self.fields@.len() - i,
        {
            let ghost done = field_texts(fields@);
            let name = self.fields[i].0.clone();
            let value = self.fields[i].1.clone();
            let ghost field = (name, value);
            fields.push((name, value));
            proof {
                assert(field_texts(fields@) =~= done.push((field.0@, field.1@)));
            }
            i = i + 1;
        }
        proof {
            assert(all.take(i as int) =~= all);
        }
        Headers { fields }
    }
}

/// Setting a field leaves it in its place where it is there, with no other field
/// touched, and puts it last where it is not.
pub proof fn lemma_set_keeps_the_order(
    fields: Seq<(Seq<char>, Seq<char>)>,
    name: Seq<char>,
    value: Seq<char>,
)
    ensures
        ({
            let after = with_field(fields, name, value);
            &&& (forall|i: int| 0 <= i < fields.len() ==> (#[trigger] fields[i]).0 != name)
                ==> after == fields.push((name, value))
            &&& forall|i: int|
                0 <= i < fields.len() && (#[trigger] fields[i]).0 != name ==> after[i] == fields[i]
            &&& forall|i: int|
                0 <= i < fields.len() ==> (#[trigger] after[i]).0 == fields[i].0
            &&& (exists|i: int| 0 <= i < fields.len() && (#[trigger] fields[i]).0 == name)
                ==> after.len() == fields.len()
        }),
{
    lemma_place_of(fields, name);
}

/// Removing a field takes away one whose name is the same but for its case, the
/// first of them, and none where there is none; every field whose name is
/// another keeps its value and its order.
pub proof fn lemma_remove_takes_one(
    fields: Seq<(Seq<char>, Seq<char>)>,
    name: Seq<char>,
    i: int,
)
    ensures
        ({
            let left = without_field(fields, name);
            &&& (forall|k: int|
                0 <= k < fields.len() ==> lowercase((#[trigger] fields[k]).0) != lowercase(name))
                ==> left == fields
            &&& 0 <= i < fields.len() && lowercase(fields[i].0) == lowercase(name) && (forall|
                k: int,
            |
                0 <= k < i ==> lowercase((#[trigger] fields[k]).0) != lowercase(name)) ==> left
                == fields.remove(i)
        }),
{
    lemma_place_ignoring_case(fields, name);
    let place = place_ignoring_case(fields, name);
    if 0 <= i < fields.len() && lowercase(fields[i].0) == lowercase(name) && (forall|k: int|
        0 <= k < i ==> lowercase((#[trigger] fields[k]).0) != lowercase(name)) {
        if place is None {
            assert(lowercase(fields[i].0) != lowercase(name));
        } else {
            let p = place->0;
            if p < i {
                assert(lowercase(fields[p].0) != lowercase(name));
            }
            if i < p {
                assert(lowercase(fields[i].0) != lowercase(name));
            }
        }
    }
}

} // verus!
