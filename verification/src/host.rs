//! Values exchanged with the host runtime: the arguments an entry is
//! handed and the results it hands back, as plain data.

use vstd::prelude::*;

use crate::text::str_eq;

verus! {

/// A host value: what an entry reads of its arguments and what it builds
/// for its result. Kinds the addon never reads are `Other`.
#[derive(Debug)]
pub enum HostValue {
    Int(i64),
    Bool(bool),
    Str(String),
    List(Vec<HostValue>),
    Pack(Vec<HostField>),
    Other,
}

/// One named field of a pack.
#[derive(Debug)]
pub struct HostField {
    pub name: String,
    pub value: HostValue,
}

/// The value of the first field called `name`.
pub open spec fn lookup(fields: Seq<HostField>, name: Seq<char>) -> Option<HostValue>
    decreases fields.len(),
{
    if fields.len() == 0 {
        None
    } else if fields[0].name@ == name {
        Some(fields[0].value)
    } else {
        lookup(fields.drop_first(), name)
    }
}

/// The integer a value holds, if it is one.
pub open spec fn int_of(v: HostValue) -> Option<i64> {
    match v {
        HostValue::Int(i) => Some(i),
        _ => None,
    }
}

/// The text a value holds, if it is a string.
pub open spec fn str_of(v: HostValue) -> Option<Seq<char>> {
    match v {
        HostValue::Str(s) => Some(s@),
        _ => None,
    }
}

/// The boolean a value holds, if it is one.
pub open spec fn bool_of(v: HostValue) -> Option<bool> {
    match v {
        HostValue::Bool(b) => Some(b),
        _ => None,
    }
}

/// The fields of a pack carry exactly these names, in this order.
pub open spec fn names_are(fields: Seq<HostField>, names: Seq<Seq<char>>) -> bool {
    &&& fields.len() == names.len()
    &&& forall|i: int| 0 <= i < fields.len() ==> #[trigger] fields[i].name@ == names[i]
}

/// Looking a name up past fields that carry other names.
pub proof fn lemma_lookup_skip(fields: Seq<HostField>, name: Seq<char>, i: int)
    requires
        0 <= i <= fields.len(),
        forall|j: int| 0 <= j < i ==> #[trigger] fields[j].name@ != name,
    ensures
        lookup(fields, name) == lookup(fields.skip(i), name),
    decreases i,
{
    if i > 0 {
        lemma_lookup_skip(fields, name, i - 1);
        let rest = fields.skip(i - 1);
        assert(fields[i - 1].name@ != name);
        assert(rest.len() > 0);
        assert(rest[0] == fields[i - 1]);
        assert(rest.drop_first() =~= fields.skip(i));
        assert(lookup(rest, name) == lookup(rest.drop_first(), name));
    } else {
        assert(fields.skip(0) =~= fields);
    }
}

/// The first field with a name is found at its position.
pub proof fn lemma_lookup_at(fields: Seq<HostField>, name: Seq<char>, i: int)
    requires
        0 <= i < fields.len(),
        fields[i].name@ == name,
        forall|j: int| 0 <= j < i ==> #[trigger] fields[j].name@ != name,
    ensures
        lookup(fields, name) == Some(fields[i].value),
{
    lemma_lookup_skip(fields, name, i);
    assert(fields.skip(i)[0] == fields[i]);
}

/// Position of the first field called `name`, or `None`.
pub fn find_field(fields: &Vec<HostField>, name: &str) -> (r: Option<usize>)
    ensures
        match r {
            Some(i) => i < fields@.len() && fields@[i as int].name@ == name@ && lookup(fields@, name@)
                == Some(fields@[i as int].value),
            None => lookup(fields@, name@) is None,
        },
{
    let mut i: usize = 0;
    while i < fields.len()
        invariant
            0 <= i <= fields@.len(),
            forall|j: int| 0 <= j < i ==> #[trigger] fields@[j].name@ != name@,
        decreases fields@.len() - i,
    {
        if str_eq(fields[i].name.as_str(), name) {
            proof {
                lemma_lookup_at(fields@, name@, i as int);
            }
            return Some(i);
        }
        i = i + 1;
    }
    proof {
        lemma_lookup_skip(fields@, name@, i as int);
        assert(fields@.skip(i as int).len() == 0);
    }
    None
}

} // verus!
