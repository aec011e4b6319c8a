//! Schemas: ordered lists of named column types in which no name occurs twice.

use vstd::prelude::*;
use vstd::string::*;
use crate::datatypes::DataType;
use crate::datatypes::DataTypeView;
use crate::datatypes::Field;
use crate::error::ApolloError;
use crate::error::ApolloResult;
use crate::error::ErrorKind;
use crate::error::ErrorView;
use crate::text::concat3;

verus! {

/// The mathematical value of a schema: names and types in column order.
pub type SchemaView = Seq<(Seq<char>, DataTypeView)>;

/// The position of the first column called `name` among the first `upto`.
pub open spec fn index_of_name_upto(s: SchemaView, name: Seq<char>, upto: int) -> Option<int>
    decreases upto,
{
    if upto <= 0 {
        None
    } else {
        match index_of_name_upto(s, name, upto - 1) {
            Some(i) => Some(i),
            None => if s[upto - 1].0 == name {
                Some(upto - 1)
            } else {
                None
            },
        }
    }
}

/// The position of the column called `name`, if there is one.
pub open spec fn index_of_name(s: SchemaView, name: Seq<char>) -> Option<int> {
    index_of_name_upto(s, name, s.len() as int)
}

/// No name occurs twice.
pub open spec fn names_unique(s: SchemaView) -> bool {
    forall|i: int, j: int| 0 <= i < j < s.len() ==> s[i].0 != s[j].0
}

/// What `index_of_name_upto` finds is the least position that holds the name.
pub proof fn lemma_index_of_name_upto(s: SchemaView, name: Seq<char>, upto: int)
    requires
        0 <= upto <= s.len(),
    ensures
        match index_of_name_upto(s, name, upto) {
            Some(i) => 0 <= i < upto && s[i].0 == name && forall|k: int|
                0 <= k < i ==> s[k].0 != name,
            None => forall|k: int| 0 <= k < upto ==> s[k].0 != name,
        },
    decreases upto,
{
    if upto > 0 {
        lemma_index_of_name_upto(s, name, upto - 1);
    }
}

/// In a schema a name is found exactly at the position of its column.
pub proof fn lemma_index_of_own_name(s: SchemaView, i: int)
    requires
        names_unique(s),
        0 <= i < s.len(),
    ensures
        index_of_name(s, s[i].0) == Some(i),
{
    lemma_index_of_name_upto(s, s[i].0, s.len() as int);
}

/// The names of the columns, in column order.
pub open spec fn names_of(s: SchemaView) -> Seq<Seq<char>> {
    Seq::new(s.len(), |i: int| s[i].0)
}

/// The name at position `j` occurs at an earlier position too.
pub open spec fn repeats_earlier(names: Seq<Seq<char>>, j: int) -> bool {
    exists|i: int| 0 <= i < j && #[trigger] names[i] == names[j]
}

/// The first of the first `upto` positions whose name occurs at an
/// earlier position too.
pub open spec fn first_repeated(names: Seq<Seq<char>>, upto: int) -> Option<int>
    decreases upto,
{
    if upto <= 0 {
        None
    } else {
        match first_repeated(names, upto - 1) {
            Some(j) => Some(j),
            None => if repeats_earlier(names, upto - 1) {
                Some(upto - 1)
            } else {
                None
            },
        }
    }
}

pub proof fn lemma_first_repeated(names: Seq<Seq<char>>, upto: int)
    requires
        0 <= upto <= names.len(),
    ensures
        match first_repeated(names, upto) {
            Some(j) => 0 <= j < upto && repeats_earlier(names, j) && forall|k: int|
                0 <= k < j ==> !repeats_earlier(names, k),
            None => forall|k: int| 0 <= k < upto ==> !repeats_earlier(names, k),
        },
    decreases upto,
{
    if upto > 0 {
        lemma_first_repeated(names, upto - 1);
    }
}

pub proof fn lemma_first_repeated_stable(names: Seq<Seq<char>>, a: int, b: int)
    requires
        a <= b,
        first_repeated(names, a) is Some,
    ensures
        first_repeated(names, b) == first_repeated(names, a),
    decreases b - a,
{
    if a < b {
        lemma_first_repeated_stable(names, a, b - 1);
    }
}

/// No name is repeated exactly where all names are distinct.
pub proof fn lemma_no_repeat_is_unique(s: SchemaView)
    ensures
        first_repeated(names_of(s), s.len() as int) is None <==> names_unique(s),
{
    let names = names_of(s);
    lemma_first_repeated(names, s.len() as int);
    if first_repeated(names, s.len() as int) is None {
        assert forall|i: int, j: int| 0 <= i < j < s.len() implies s[i].0 != s[j].0 by {
            assert(!repeats_earlier(names, j));
            assert(names[i] == s[i].0);
            assert(names[j] == s[j].0);
        }
    } else {
        let j = first_repeated(names, s.len() as int).unwrap();
        let i = choose|i: int| 0 <= i < j && #[trigger] names[i] == names[j];
        assert(s[i].0 == s[j].0);
    }
}

/// The view of the message of a duplicate-name error.
pub open spec fn duplicate_name_message(name: Seq<char>) -> Seq<char> {
    "column with name '"@ + name + "' has more than one occurrence"@
}

/// An ordered list of named column types; no name occurs twice.
#[derive(Debug, PartialEq, Eq)]
pub struct Schema {
    fields: Vec<Field>,
}

impl View for Schema {
    type V = SchemaView;

    closed spec fn view(&self) -> SchemaView {
        Seq::new(self.fields@.len(), |i: int| self.fields@[i]@)
    }
}

impl Schema {
    #[verifier::type_invariant]
    closed spec fn wf(self) -> bool {
        names_unique(self@)
    }

    /// The schema without columns.
    pub fn new() -> (r: Schema)
        ensures
            r@.len() == 0,
    {
        Schema { fields: Vec::new() }
    }

    /// The number of columns. No two of them have the same name.
    pub fn len(&self) -> (n: usize)
        ensures
            n == self@.len(),
            names_unique(self@),
    {
        proof {
            use_type_invariant(self);
        }
        self.fields.len()
    }

    /// The position of the column called `name`.
    pub fn index_of(&self, name: &str) -> (r: Option<usize>)
        ensures
            match r {
                Some(i) => index_of_name(self@, name@) == Some(i as int) && i < self@.len()
                    && self@[i as int].0 == name@,
                None => index_of_name(self@, name@) is None && forall|k: int|
                    0 <= k < self@.len() ==> self@[k].0 != name@,
            },
    {
        let key = String::from_str(name);
        let mut i: usize = 0;
        while i < self.fields.len()
            invariant
                i <= self.fields.len(),
                key@ == name@,
                index_of_name_upto(self@, name@, i as int) is None,
            decreases self.fields.len() - i,
        {
            if self.fields[i].name == key {
                proof {
                    assert(self@[i as int].0 == name@);
                    lemma_index_of_name_upto(self@, name@, i as int);
                    lemma_index_of_name_upto(self@, name@, self@.len() as int);
                }
                return Some(i);
            }
            i += 1;
        }
        proof {
            lemma_index_of_name_upto(self@, name@, self@.len() as int);
        }
        None
    }

    /// Whether a column is called `name`.
    pub fn contains(&self, name: &str) -> (r: bool)
        ensures
            r == index_of_name(self@, name@).is_some(),
    {
        self.index_of(name).is_some()
    }

    /// The name of the column at position `i`.
    pub fn name_at(&self, i: usize) -> (r: &String)
        requires
            i < self@.len(),
        ensures
            r@ == self@[i as int].0,
    {
        &self.fields[i].name
    }

    /// The type of the column at position `i`.
    pub fn dtype_at(&self, i: usize) -> (r: &DataType)
        requires
            i < self@.len(),
        ensures
            r@ == self@[i as int].1,
    {
        &self.fields[i].dtype
    }

    /// The type of the column called `name`.
    pub fn get(&self, name: &str) -> (r: Option<&DataType>)
        ensures
            match r {
                Some(dt) => index_of_name(self@, name@) matches Some(i) && dt@ == self@[i].1,
                None => index_of_name(self@, name@) is None,
            },
    {
        match self.index_of(name) {
            Some(i) => Some(&self.fields[i].dtype),
            None => None,
        }
    }

    /// Adds a column at the end, or gives the column of that name its new
    /// type where the schema has one already. Returns whether the column
    /// is new.
    pub fn with_column(&mut self, name: &str, dtype: DataType) -> (added: bool)
        ensures
            added == index_of_name(old(self)@, name@).is_none(),
            added ==> final(self)@ == old(self)@.push((name@, dtype@)),
            !added ==> final(self)@ == old(self)@.update(
                index_of_name(old(self)@, name@).unwrap(),
                (name@, dtype@),
            ),
    {
        proof {
            use_type_invariant(&*self);
        }
        match self.index_of(name) {
            Some(i) => {
                let mut fields = Vec::new();
                core::mem::swap(&mut fields, &mut self.fields);
                let ghost before = fields@;
                fields.remove(i);
                fields.insert(i, Field::new(name, dtype));
                assert(fields@ =~= before.update(i as int, fields@[i as int]));
                let ghost after = Seq::new(fields@.len(), |k: int| fields@[k]@);
                assert(after =~= old(self)@.update(i as int, (name@, dtype@)));
                assert(names_unique(after)) by {
                    assert forall|a: int, b: int| 0 <= a < b < after.len() implies after[a].0
                        != after[b].0 by {
                        assert(after[a].0 == old(self)@[a].0);
                        assert(after[b].0 == old(self)@[b].0);
                    }
                }
                let r = Schema { fields };
                assert(r@ =~= old(self)@.update(i as int, (name@, dtype@)));
                *self = r;
                false
            },
            None => {
                let mut fields = Vec::new();
                core::mem::swap(&mut fields, &mut self.fields);
                fields.push(Field::new(name, dtype));
                let ghost after = Seq::new(fields@.len(), |k: int| fields@[k]@);
                assert(after =~= old(self)@.push((name@, dtype@)));
                assert(names_unique(after)) by {
                    assert forall|a: int, b: int| 0 <= a < b < after.len() implies after[a].0
                        != after[b].0 by {
                        if b < old(self)@.len() {
                            assert(after[a].0 == old(self)@[a].0);
                            assert(after[b].0 == old(self)@[b].0);
                        } else {
                            assert(after[a].0 == old(self)@[a].0);
                        }
                    }
                }
                let r = Schema { fields };
                assert(r@ =~= old(self)@.push((name@, dtype@)));
                *self = r;
                true
            },
        }
    }

    /// The schema of the given fields, in their order. A name that occurs
    /// twice is an error; it names the first field that repeats an
    /// earlier one.
    pub fn try_from_fields(fields: Vec<Field>) -> (r: ApolloResult<Schema>)
        ensures
            match r {
                Ok(s) => s@ == Seq::new(fields@.len(), |i: int| fields@[i]@) && names_unique(s@),
                Err(e) => {
                    let all = Seq::new(fields@.len(), |i: int| fields@[i]@);
                    first_repeated(names_of(all), all.len() as int) matches Some(j) && e@
                        == ErrorView::Simple(
                        ErrorKind::Duplicate,
                        duplicate_name_message(all[j].0),
                    )
                },
            },
    {
        let ghost all = Seq::new(fields@.len(), |i: int| fields@[i]@);
        let ghost names = names_of(all);
        let mut j: usize = 0;
        while j < fields.len()
            invariant
                j <= fields.len(),
                all == Seq::new(fields@.len(), |i: int| fields@[i]@),
                names == names_of(all),
                first_repeated(names, j as int) is None,
            decreases fields.len() - j,
        {
            let mut i: usize = 0;
            while i < j
                invariant
                    i <= j,
                    j < fields.len(),
                    all == Seq::new(fields@.len(), |i: int| fields@[i]@),
                    names == names_of(all),
                    first_repeated(names, j as int) is None,
                    forall|a: int| 0 <= a < i ==> #[trigger] names[a] != names[j as int],
                decreases j - i,
            {
                if fields[i].name == fields[j].name {
                    let msg = concat3(
                        "column with name '",
                        fields[j].name.as_str(),
                        "' has more than one occurrence",
                    );
                    proof {
                        assert(names[i as int] == names[j as int]);
                        assert(repeats_earlier(names, j as int));
                        assert(first_repeated(names, j as int + 1) == Some(j as int));
                        lemma_first_repeated_stable(names, j as int + 1, names.len() as int);
                    }
                    return Err(ApolloError::Duplicate(msg));
                }
                i += 1;
            }
            assert(!repeats_earlier(names, j as int));
            j += 1;
        }
        proof {
            lemma_no_repeat_is_unique(all);
        }
        let s = Schema { fields };
        assert(s@ =~= all);
        Ok(s)
    }
}

} // verus!
