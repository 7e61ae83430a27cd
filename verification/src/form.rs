//! The fields of a form that a request carries.

use vstd::prelude::*;

use crate::pairs;

verus! {

/// Some fields by name, in no particular order. No name occurs twice.
#[derive(Debug)]
pub struct Form {
    fields: Vec<(String, String)>,
}

/// The names and values of some fields, in order.
pub open spec fn field_texts(fields: Seq<(String, String)>) -> Seq<(Seq<char>, Seq<char>)> {
    fields.map_values(|field: (String, String)| (field.0@, field.1@))
}

/// Whether no name occurs twice.
pub open spec fn distinct_names(fields: Seq<(String, String)>) -> bool {
    forall|i: int, j: int|
        0 <= i < j < fields.len() ==> (#[trigger] fields[i]).0@ != (#[trigger] fields[j]).0@
}

impl View for Form {
    type V = Map<Seq<char>, Seq<char>>;

    closed spec fn view(&self) -> Map<Seq<char>, Seq<char>> {
        pairs::map_of(field_texts(self.fields@))
    }
}

impl Form {
    #[verifier::type_invariant]
    spec fn well_formed(self) -> bool {
        distinct_names(self.fields@)
    }

    /// A form without fields.
    pub fn new() -> (form: Form)
        ensures
            form@ == Map::<Seq<char>, Seq<char>>::empty(),
    {
        let fields: Vec<(String, String)> = Vec::new();
        assert(field_texts(fields@) =~= Seq::empty());
        Form { fields }
    }

    /// Sets a field, in place of an earlier one of that name.
    pub fn insert(&mut self, name: &str, value: &str)
        ensures
            final(self)@ == old(self)@.insert(name@, value@),
    {
        proof {
            use_type_invariant(&*self);
        }
        let name: String = name.to_owned();
        let mut kept: Vec<(String, String)> = Vec::new();
        for i in 0..self.fields.len()
            invariant
                distinct_names(self.fields@),
                distinct_names(kept@),
                forall|j: int|
                    0 <= j < kept.len() ==> (#[trigger] kept[j]).0@ != name@,
                forall|j: int|
                    0 <= j < kept.len() ==> exists|k: int|
                        0 <= k < i && (#[trigger] kept[j]).0@ == (#[trigger] self.fields[k]).0@,
                pairs::map_of(field_texts(kept@)) == pairs::map_of(
                    field_texts(self.fields@.take(i as int)),
                ).remove(name@),
        {
            let ghost before = field_texts(self.fields@.take(i as int));
            let ghost after = field_texts(self.fields@.take(i + 1));
            assert(after.drop_last() =~= before);
            assert(after.last() == (self.fields[i as int].0@, self.fields[i as int].1@));
            if self.fields[i].0 != name {
                let ghost kept_before = field_texts(kept@);
                kept.push((self.fields[i].0.clone(), self.fields[i].1.clone()));
                assert(field_texts(kept@).drop_last() =~= kept_before);
            }
            assert(pairs::map_of(field_texts(kept@)) =~= pairs::map_of(after).remove(name@));
        }
        let ghost kept_before = field_texts(kept@);
        kept.push((name, value.to_owned()));
        assert(field_texts(kept@).drop_last() =~= kept_before);
        assert(self.fields@.take(self.fields@.len() as int) =~= self.fields@);
        self.fields = kept;
        assert(self@ =~= old(self)@.insert(name@, value@));
    }

    /// Hands out the fields.
    pub fn into_fields(self) -> (fields: Vec<(String, String)>)
        ensures
            distinct_names(fields@),
            pairs::map_of(field_texts(fields@)) == self@,
            forall|i: int, j: int|
                0 <= i < j < fields@.len() ==> (#[trigger] fields@[i]).0@ != (
                #[trigger] fields@[j]).0@,
            forall|i: int|
                0 <= i < fields@.len() ==> self@.contains_key((#[trigger] fields@[i]).0@)
                    && self@[fields@[i].0@] == fields@[i].1@,
            forall|name: Seq<char>| #[trigger]
                self@.contains_key(name) ==> exists|i: int|
                    0 <= i < fields@.len() && (#[trigger] fields@[i]).0@ == name,
    {
        proof {
            use_type_invariant(&self);
            let listed = field_texts(self.fields@);
            assert forall|i: int| 0 <= i < listed.len() implies self@.contains_key(
                (#[trigger] self.fields@[i]).0@,
            ) && self@[self.fields@[i].0@] == self.fields@[i].1@ by {
                assert forall|k: int| i < k < listed.len() implies (#[trigger] listed[k]).0
                    != listed[i].0 by {
                    assert(listed[k].0 == self.fields@[k].0@);
                    assert(listed[i].0 == self.fields@[i].0@);
                }
                pairs::lemma_last(listed, i);
                assert(listed[i] == (self.fields@[i].0@, self.fields@[i].1@));
            }
            assert forall|name: Seq<char>| #[trigger] self@.contains_key(name) implies exists|
                i: int,
            |
                0 <= i < self.fields@.len() && (#[trigger] self.fields@[i]).0@ == name by {
                if forall|i: int|
                    0 <= i < self.fields@.len() ==> (#[trigger] self.fields@[i]).0@ != name {
                    assert forall|i: int| 0 <= i < listed.len() implies (#[trigger] listed[i]).0
                        != name by {
                        assert(listed[i].0 == self.fields@[i].0@);
                    }
                    pairs::lemma_absent(listed, name);
                }
            }
        }
        self.fields
    }
}

} // verus!
