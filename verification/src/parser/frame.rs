//! One lexical scope: the names declared in it and what they stand for.
//!
//! A frame keeps its names in the order in which they were declared. No name
//! occurs twice in a well-formed frame, so that a frame is a finite map from
//! names to values.
use vstd::prelude::*;
use vstd::string::*;
use crate::error::{ErrorView, TransformError};
use crate::text::same_text;

verus! {

/// The map that a list of declarations stands for: a later declaration of a
/// name takes the place of an earlier one.
pub open spec fn entries_map<T: View>(entries: Seq<(String, T)>) -> Map<Seq<char>, T::V>
    decreases entries.len(),
{
    if entries.len() == 0 {
        Map::<Seq<char>, T::V>::empty()
    } else {
        entries_map(entries.drop_last()).insert(entries.last().0@, entries.last().1@)
    }
}

/// No name is declared twice.
pub open spec fn names_distinct<T>(entries: Seq<(String, T)>) -> bool {
    forall|i: int, j: int|
        0 <= i < j < entries.len() ==> (#[trigger] entries[i]).0@ != (#[trigger] entries[j]).0@
}

/// A name is in the map exactly when some declaration has it.
pub proof fn lemma_entries_map_dom<T: View>(entries: Seq<(String, T)>, name: Seq<char>)
    ensures
        entries_map(entries).dom().contains(name) <==> exists|i: int|
            0 <= i < entries.len() && (#[trigger] entries[i]).0@ == name,
    decreases entries.len(),
{
    if entries.len() > 0 {
        let front = entries.drop_last();
        lemma_entries_map_dom(front, name);
        if entries_map(entries).dom().contains(name) {
            if entries.last().0@ == name {
                assert(entries[entries.len() - 1].0@ == name);
            } else {
                let i = choose|i: int| 0 <= i < front.len() && (#[trigger] front[i]).0@ == name;
                assert(entries[i].0@ == name);
            }
        }
        if exists|i: int| 0 <= i < entries.len() && (#[trigger] entries[i]).0@ == name {
            let i = choose|i: int| 0 <= i < entries.len() && (#[trigger] entries[i]).0@ == name;
            if i < entries.len() - 1 {
                assert(front[i].0@ == name);
            }
        }
    }
}

/// Where no name is declared twice, the map holds for each declaration what
/// it declares.
pub proof fn lemma_entries_map_at<T: View>(entries: Seq<(String, T)>, i: int)
    requires
        names_distinct(entries),
        0 <= i < entries.len(),
    ensures
        entries_map(entries).dom().contains(entries[i].0@),
        entries_map(entries)[entries[i].0@] == entries[i].1@,
    decreases entries.len(),
{
    let front = entries.drop_last();
    if i < entries.len() - 1 {
        assert(names_distinct(front)) by {
            assert forall|a: int, b: int| 0 <= a < b < front.len() implies (#[trigger] front[a]).0@
                != (#[trigger] front[b]).0@ by {
                assert(entries[a].0@ != entries[b].0@);
            }
        }
        lemma_entries_map_at(front, i);
        assert(front[i] == entries[i]);
        assert(entries[i].0@ != entries[entries.len() - 1].0@);
    }
}

/// Where no name is declared twice, putting a new value in the place of a
/// declaration puts it into the map.
pub proof fn lemma_entries_map_update<T: View>(
    entries: Seq<(String, T)>,
    i: int,
    entry: (String, T),
)
    requires
        names_distinct(entries),
        0 <= i < entries.len(),
        entry.0@ == entries[i].0@,
    ensures
        names_distinct(entries.update(i, entry)),
        entries_map(entries.update(i, entry)) == entries_map(entries).insert(entry.0@, entry.1@),
    decreases entries.len(),
{
    let changed = entries.update(i, entry);
    assert(names_distinct(changed)) by {
        assert forall|a: int, b: int| 0 <= a < b < changed.len() implies (#[trigger] changed[a]).0@
            != (#[trigger] changed[b]).0@ by {
            assert(entries[a].0@ != entries[b].0@);
        }
    }
    let front = entries.drop_last();
    if i == entries.len() - 1 {
        assert(changed.drop_last() =~= front);
        assert(entries_map(changed) =~= entries_map(entries).insert(entry.0@, entry.1@));
    } else {
        assert(names_distinct(front)) by {
            assert forall|a: int, b: int| 0 <= a < b < front.len() implies (#[trigger] front[a]).0@
                != (#[trigger] front[b]).0@ by {
                assert(entries[a].0@ != entries[b].0@);
            }
        }
        lemma_entries_map_update(front, i, entry);
        assert(changed.drop_last() =~= front.update(i, entry));
        assert(changed.last() == entries.last());
        assert(entries[i].0@ != entries[entries.len() - 1].0@);
        assert(entries_map(changed) =~= entries_map(entries).insert(entry.0@, entry.1@));
    }
}

/// Where no name is declared twice, taking a declaration away takes its name
/// out of the map.
pub proof fn lemma_entries_map_remove<T: View>(entries: Seq<(String, T)>, i: int)
    requires
        names_distinct(entries),
        0 <= i < entries.len(),
    ensures
        names_distinct(entries.remove(i)),
        entries_map(entries.remove(i)) == entries_map(entries).remove(entries[i].0@),
    decreases entries.len(),
{
    let rest = entries.remove(i);
    assert(names_distinct(rest)) by {
        assert forall|a: int, b: int| 0 <= a < b < rest.len() implies (#[trigger] rest[a]).0@
            != (#[trigger] rest[b]).0@ by {
            let a2 = if a < i {
                a
            } else {
                a + 1
            };
            let b2 = if b < i {
                b
            } else {
                b + 1
            };
            assert(entries[a2].0@ != entries[b2].0@);
        }
    }
    let front = entries.drop_last();
    assert(names_distinct(front)) by {
        assert forall|a: int, b: int| 0 <= a < b < front.len() implies (#[trigger] front[a]).0@
            != (#[trigger] front[b]).0@ by {
            assert(entries[a].0@ != entries[b].0@);
        }
    }
    if i == entries.len() - 1 {
        assert(rest =~= front);
        lemma_entries_map_dom(front, entries[i].0@);
        if entries_map(front).dom().contains(entries[i].0@) {
            let k = choose|k: int| 0 <= k < front.len() && (#[trigger] front[k]).0@ == entries[i].0@;
            assert(entries[k].0@ != entries[i].0@);
        }
        assert(entries_map(rest) =~= entries_map(entries).remove(entries[i].0@));
    } else {
        lemma_entries_map_remove(front, i);
        assert(rest.drop_last() =~= front.remove(i));
        assert(rest.last() == entries.last());
        assert(entries[i].0@ != entries[entries.len() - 1].0@);
        assert(entries_map(rest) =~= entries_map(entries).remove(entries[i].0@));
    }
}

/// A lexical scope.
#[derive(Debug)]
pub struct Frame<T> {
    pub variables: Vec<(String, T)>,
}

impl<T: View> Default for Frame<T> {
    /// The empty frame.
    fn default() -> (r: Frame<T>)
        ensures
            r.well_formed(),
            r@ == Map::<Seq<char>, T::V>::empty(),
    {
        Frame::new()
    }
}

impl<T: View> View for Frame<T> {
    type V = Map<Seq<char>, T::V>;

    open spec fn view(&self) -> Map<Seq<char>, T::V> {
        entries_map(self.variables@)
    }
}

impl<T: View> Frame<T> {
    /// No name is declared twice in the frame.
    pub open spec fn well_formed(&self) -> bool {
        names_distinct(self.variables@)
    }

    /// The empty frame.
    pub fn new() -> (r: Frame<T>)
        ensures
            r.well_formed(),
            r@ == Map::<Seq<char>, T::V>::empty(),
    {
        Frame { variables: Vec::new() }
    }

    /// The place of the declaration of `name`.
    pub fn find(&self, name: &str) -> (r: Option<usize>)
        ensures
            match r {
                Some(i) => i < self.variables.len() && self.variables[i as int].0@ == name@,
                None => forall|j: int|
                    0 <= j < self.variables.len() ==> (#[trigger] self.variables[j]).0@ != name@,
            },
    {
        let mut i: usize = 0;
        while i < self.variables.len()
            invariant
                i <= self.variables.len(),
                forall|j: int| 0 <= j < i ==> (#[trigger] self.variables[j]).0@ != name@,
            decreases self.variables.len() - i,
        {
            if same_text(self.variables[i].0.as_str(), name) {
                return Some(i);
            }
            i = i + 1;
        }
        None
    }

    /// The frame that the declarations stand for: a later declaration of a
    /// name takes the place of an earlier one.
    pub fn from_primitives(constants: Vec<(String, T)>) -> (r: Frame<T>)
        ensures
            r.well_formed(),
            r@ == entries_map(constants@),
    {
        let mut frame: Frame<T> = Frame::new();
        let mut rest = constants;
        let ghost all = constants@;
        let mut kept: Vec<(String, T)> = Vec::new();
        // The declarations are taken from the end, so they are put back in
        // their order first.
        while rest.len() > 0
            invariant
                rest@ + kept@.reverse() == all,
            decreases rest.len(),
        {
            let ghost before = rest@;
            let ghost held = kept@;
            let entry = rest.pop().unwrap();
            kept.push(entry);
            assert(rest@ + kept@.reverse() =~= before + held.reverse());
        }
        assert(kept@.reverse() =~= all);
        let ghost backwards = kept@;
        assert(all.take(0) =~= Seq::<(String, T)>::empty());
        while kept.len() > 0
            invariant
                frame.well_formed(),
                kept.len() <= backwards.len(),
                backwards.reverse() == all,
                kept@ == backwards.take(kept.len() as int),
                frame@ == entries_map(all.take(backwards.len() - kept.len())),
            decreases kept.len(),
        {
            let ghost done = backwards.len() - kept.len();
            let entry = kept.pop().unwrap();
            proof {
                assert(entry == all[done]);
                assert(all.take(done + 1).drop_last() =~= all.take(done));
            }
            let ghost before = frame.variables@;
            match frame.find(entry.0.as_str()) {
                Some(i) => {
                    proof {
                        lemma_entries_map_update(before, i as int, entry);
                    }
                    frame.variables.set(i, entry);
                },
                None => {
                    frame.variables.push(entry);
                    assert(frame.variables@.drop_last() =~= before);
                },
            }
        }
        assert(all.take(backwards.len() as int) =~= all);
        frame
    }

    /// The frame that the declarations stand for.
    pub fn from_map(constants: Vec<(String, T)>) -> (r: Frame<T>)
        ensures
            r.well_formed(),
            r@ == entries_map(constants@),
    {
        Frame::from_primitives(constants)
    }

    /// What `name` stands for in the frame, if it is declared there.
    pub fn get_value(&self, name: &str) -> (r: Option<&T>)
        requires
            self.well_formed(),
        ensures
            match r {
                Some(v) => self@.dom().contains(name@) && self@[name@] == v@,
                None => !self@.dom().contains(name@),
            },
    {
        proof {
            lemma_entries_map_dom(self.variables@, name@);
        }
        match self.find(name) {
            Some(i) => {
                proof {
                    lemma_entries_map_at(self.variables@, i as int);
                }
                Some(&self.variables[i].1)
            },
            None => None,
        }
    }

    /// Whether `name` is declared in the frame.
    pub fn has_variable(&self, name: &str) -> (r: bool)
        ensures
            r == self@.dom().contains(name@),
    {
        proof {
            lemma_entries_map_dom(self.variables@, name@);
        }
        self.find(name).is_some()
    }

    /// Declares `name` in the frame; the error `AlreadyExistingVariable`, and
    /// the frame as it was, where it is declared there already.
    pub fn declare_variable(&mut self, name: &str, value: T) -> (r: Result<(), TransformError>)
        requires
            old(self).well_formed(),
        ensures
            final(self).well_formed(),
            match r {
                Ok(_) => !old(self)@.dom().contains(name@) && final(self)@ == old(self)@.insert(
                    name@,
                    value@,
                ),
                Err(e) => old(self)@.dom().contains(name@) && final(self)@ == old(self)@ && e@
                    == ErrorView::AlreadyExistingVariable(name@),
            },
    {
        proof {
            lemma_entries_map_dom(self.variables@, name@);
        }
        if self.find(name).is_some() {
            return Err(TransformError::AlreadyExistingVariable(name.to_owned()));
        }
        let ghost before = self.variables@;
        self.variables.push((name.to_owned(), value));
        assert(self.variables@.drop_last() =~= before);
        Ok(())
    }

    /// Makes `name` stand for `value`, whether or not it was declared.
    pub fn set_variable(&mut self, name: &str, value: T)
        requires
            old(self).well_formed(),
        ensures
            final(self).well_formed(),
            final(self)@ == old(self)@.insert(name@, value@),
    {
        match self.find(name) {
            Some(i) => {
                let entry = (name.to_owned(), value);
                proof {
                    lemma_entries_map_update(self.variables@, i as int, entry);
                }
                self.variables.set(i, entry);
            },
            None => {
                let ghost before = self.variables@;
                self.variables.push((name.to_owned(), value));
                assert(self.variables@.drop_last() =~= before);
            },
        }
    }

    /// Gives `name` a new value; the error `MissingVariable`, and the frame
    /// as it was, where it is not declared there.
    pub fn update_variable(&mut self, name: &str, value: T) -> (r: Result<(), TransformError>)
        requires
            old(self).well_formed(),
        ensures
            final(self).well_formed(),
            match r {
                Ok(_) => old(self)@.dom().contains(name@) && final(self)@ == old(self)@.insert(
                    name@,
                    value@,
                ),
                Err(e) => !old(self)@.dom().contains(name@) && final(self)@ == old(self)@ && e@
                    == ErrorView::MissingVariable(name@),
            },
    {
        proof {
            lemma_entries_map_dom(self.variables@, name@);
        }
        match self.find(name) {
            Some(i) => {
                let entry = (name.to_owned(), value);
                proof {
                    lemma_entries_map_update(self.variables@, i as int, entry);
                }
                self.variables.set(i, entry);
                Ok(())
            },
            None => Err(TransformError::MissingVariable(name.to_owned())),
        }
    }

    /// Takes `name` out of the frame and hands back what it stood for; the
    /// error `MissingVariable`, and the frame as it was, where it is not
    /// declared there.
    pub fn drop_variable(&mut self, name: &str) -> (r: Result<T, TransformError>)
        requires
            old(self).well_formed(),
        ensures
            final(self).well_formed(),
            match r {
                Ok(v) => old(self)@.dom().contains(name@) && v@ == old(self)@[name@]
                    && final(self)@ == old(self)@.remove(name@),
                Err(e) => !old(self)@.dom().contains(name@) && final(self)@ == old(self)@ && e@
                    == ErrorView::MissingVariable(name@),
            },
    {
        proof {
            lemma_entries_map_dom(self.variables@, name@);
        }
        match self.find(name) {
            Some(i) => {
                proof {
                    lemma_entries_map_at(self.variables@, i as int);
                    lemma_entries_map_remove(self.variables@, i as int);
                }
                let entry = self.variables.remove(i);
                Ok(entry.1)
            },
            None => Err(TransformError::MissingVariable(name.to_owned())),
        }
    }
}

} // verus!
