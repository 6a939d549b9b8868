//! The resolver: turns free-text names into rows of a reference table,
//! creating a row on first use and finding it again afterwards.

use vstd::prelude::*;

use crate::domain::recipe::Error;
use crate::store::reference::{
    all_named, id_of, intern, intern_all, lemma_id_of_position, lemma_intern_all_prefix_len,
    table_wf, texts_view, MAX_ID,
};

verus! {

/// A table of reference data of one kind. The row at position `k` has the id
/// `k + 1`.
#[derive(Debug)]
pub struct ReferenceTable {
    names: Vec<String>,
}

impl View for ReferenceTable {
    type V = Seq<Seq<char>>;

    closed spec fn view(&self) -> Seq<Seq<char>> {
        texts_view(self.names@)
    }
}

impl Clone for ReferenceTable {
    fn clone(&self) -> (copy: Self)
        ensures
            copy@ == self@,
    {
        let mut names: Vec<String> = Vec::new();
        let mut i: usize = 0;
        while i < self.names.len()
            invariant
                i <= self.names.len(),
                names.len() == i,
                forall|k: int| 0 <= k < i ==> names@[k]@ == self.names@[k]@,
            decreases self.names.len() - i,
        {
            names.push(self.names[i].clone());
            i += 1;
        }
        assert(texts_view(names@) =~= texts_view(self.names@));
        ReferenceTable { names }
    }
}

/// Whether every name of the list has at least one character.
pub fn names_are_given(names: &Vec<String>) -> (given: bool)
    ensures
        given == all_named(texts_view(names@)),
{
    let mut i: usize = 0;
    while i < names.len()
        invariant
            i <= names.len(),
            forall|k: int| 0 <= k < i ==> (#[trigger] texts_view(names@)[k]).len() > 0,
        decreases names.len() - i,
    {
        if names[i].as_str().is_empty() {
            assert(texts_view(names@)[i as int].len() == 0);
            return false;
        }
        i += 1;
    }
    true
}

impl ReferenceTable {
    /// The table holds distinct, non-empty names, and no more than there are
    /// ids.
    pub open spec fn wf(&self) -> bool {
        table_wf(self@)
    }

    /// A table without rows.
    pub fn new() -> (table: ReferenceTable)
        ensures
            table@ == Seq::<Seq<char>>::empty(),
            table.wf(),
    {
        let table = ReferenceTable { names: Vec::new() };
        assert(table@ =~= Seq::<Seq<char>>::empty());
        table
    }

    /// The number of rows.
    pub fn len(&self) -> (n: usize)
        ensures
            n == self@.len(),
    {
        self.names.len()
    }

    /// The id under which `name` is stored, if it is.
    pub fn find(&self, name: &String) -> (found: Option<i32>)
        requires
            self.wf(),
        ensures
            match found {
                Some(id) => self@.contains(name@) && id == id_of(self@, name@),
                None => !self@.contains(name@),
            },
    {
        let mut i: usize = 0;
        while i < self.names.len()
            invariant
                i <= self.names.len(),
                self.wf(),
                forall|k: int| 0 <= k < i ==> self@[k] != name@,
            decreases self.names.len() - i,
        {
            if self.names[i] == *name {
                proof {
                    assert(self@[i as int] == name@);
                    lemma_id_of_position(self@, i as int);
                }
                return Some((i + 1) as i32);
            }
            i += 1;
        }
        None
    }

    /// Makes sure that a row exists for each name and hands back the ids, one
    /// for each name and in the order of `names`.
    ///
    /// A name that is stored keeps its row; one that is not gets a new row at
    /// the end. A list with an empty name is refused as `InvalidArgument`, and
    /// a list that would need more rows than there are ids as `Unexpected`;
    /// either way the table stays as it was.
    pub fn resolve(&mut self, names: &Vec<String>) -> (resolved: Result<Vec<i32>, Error>)
        requires
            old(self).wf(),
        ensures
            final(self).wf(),
            match resolved {
                Ok(ids) => {
                    &&& all_named(texts_view(names@))
                    &&& final(self)@ == intern_all(old(self)@, texts_view(names@))
                    &&& ids@.len() == names@.len()
                    &&& forall|i: int|
                        0 <= i < ids@.len() ==> #[trigger] ids@[i] == id_of(
                            final(self)@,
                            texts_view(names@)[i],
                        )
                },
                Err(e) => {
                    &&& final(self)@ == old(self)@
                    &&& e == Error::InvalidArgument || e == Error::Unexpected
                    &&& e == Error::InvalidArgument <==> !all_named(texts_view(names@))
                    &&& e == Error::Unexpected ==> intern_all(
                        old(self)@,
                        texts_view(names@),
                    ).len() > MAX_ID
                },
            },
            all_named(texts_view(names@)) && intern_all(old(self)@, texts_view(names@)).len()
                <= MAX_ID ==> resolved is Ok,
    {
        if !names_are_given(names) {
            return Err(Error::InvalidArgument);
        }
        let ghost wanted = texts_view(names@);
        let mut work = self.clone();
        let mut ids: Vec<i32> = Vec::new();
        let mut i: usize = 0;
        assert(wanted.take(0) =~= Seq::<Seq<char>>::empty());
        while i < names.len()
            invariant
                i <= names.len(),
                wanted == texts_view(names@),
                all_named(wanted),
                old(self).wf(),
                *self == *old(self),
                work.wf(),
                work@ == intern_all(old(self)@, wanted.take(i as int)),
                ids@.len() == i,
                forall|k: int| 0 <= k < i ==> #[trigger] ids@[k] == id_of(work@, wanted[k]),
                forall|k: int| 0 <= k < i ==> work@.contains(#[trigger] wanted[k]),
            decreases names.len() - i,
        {
            let ghost before = work@;
            proof {
                assert(wanted.take(i + 1).drop_last() =~= wanted.take(i as int));
                assert(wanted.take(i + 1).last() == wanted[i as int]);
                assert(wanted[i as int] == names@[i as int]@);
            }
            match work.find(&names[i]) {
                Some(id) => {
                    ids.push(id);
                },
                None => {
                    if work.names.len() >= MAX_ID as usize {
                        proof {
                            lemma_intern_all_prefix_len(old(self)@, wanted, i + 1);
                        }
                        return Err(Error::Unexpected);
                    }
                    let id: i32 = (work.names.len() + 1) as i32;
                    work.names.push(names[i].clone());
                    proof {
                        assert(work@ =~= before.push(wanted[i as int]));
                        assert(work@ == intern(before, wanted[i as int]));
                        assert(work@.no_duplicates());
                        assert(all_named(work@)) by {
                            assert forall|k: int| 0 <= k < work@.len() implies (
                            #[trigger] work@[k]).len() > 0 by {
                                if k < before.len() {
                                    assert(work@[k] == before[k]);
                                }
                            }
                        }
                        lemma_id_of_position(work@, before.len() as int);
                        assert(work@[before.len() as int] == wanted[i as int]);
                        assert forall|k: int| 0 <= k < i implies work@.contains(
                            #[trigger] wanted[k],
                        ) && id_of(work@, wanted[k]) == id_of(before, wanted[k]) by {
                            let j = before.index_of(wanted[k]);
                            assert(before.contains(wanted[k]));
                            assert(work@[j] == wanted[k]);
                            lemma_id_of_position(before, j);
                            lemma_id_of_position(work@, j);
                        }
                    }
                    ids.push(id);
                },
            }
            i += 1;
        }
        proof {
            assert(wanted.take(i as int) =~= wanted);
        }
        *self = work;
        Ok(ids)
    }
}

} // verus!
