//! The keybinding resolver: it collects key presses until they spell a
//! bound key sequence, or can no longer grow into one.

use crate::keybind::{keys_view, parse_keys, Event, Key, KeyEvent, KeySequence, ParseError};
use vstd::prelude::*;
use vstd::string::StringExecFns;
use vstd::string::StringSliceAdditionalSpecFns;

verus! {

/// Whether `keys` is the beginning of `whole`, or all of it.
pub open spec fn begins(keys: Seq<Key>, whole: Seq<Key>) -> bool {
    keys.len() <= whole.len() && whole.subrange(0, keys.len() as int) == keys
}

/// The index of the binding that `keys` selects among the first `n` of
/// `table`: the last one with exactly these keys.
pub open spec fn bound_index(table: Seq<Seq<Key>>, keys: Seq<Key>, n: int) -> Option<int>
    decreases n,
{
    if n <= 0 {
        None
    } else if table[n - 1] == keys {
        Some(n - 1)
    } else {
        bound_index(table, keys, n - 1)
    }
}

/// Whether `keys` begins some sequence of `table`.
pub open spec fn may_grow(table: Seq<Seq<Key>>, keys: Seq<Key>) -> bool {
    exists|i: int| 0 <= i < table.len() && begins(keys, #[trigger] table[i])
}

/// The keys that the resolver holds after the key `key` has come in on top
/// of `buffer`: none after a bound sequence is complete, and none where the
/// keys can no longer grow into a bound sequence.
pub open spec fn buffer_after(table: Seq<Seq<Key>>, buffer: Seq<Key>, key: Key) -> Seq<Key> {
    let keys = buffer.push(key);
    if bound_index(table, keys, table.len() as int) is None && may_grow(table, keys) {
        keys
    } else {
        Seq::empty()
    }
}

/// The index of the binding that is complete once the key `key` has come in
/// on top of `buffer`.
pub open spec fn emitted(table: Seq<Seq<Key>>, buffer: Seq<Key>, key: Key) -> Option<int> {
    bound_index(table, buffer.push(key), table.len() as int)
}

/// A bound index is the index of a binding with the keys asked for, and no
/// later binding has them.
pub proof fn lemma_bound_index(table: Seq<Seq<Key>>, keys: Seq<Key>, n: int)
    requires
        0 <= n <= table.len(),
    ensures
        match bound_index(table, keys, n) {
            Some(i) => 0 <= i < n && table[i] == keys && forall|j: int|
                i < j < n ==> table[j] != keys,
            None => forall|j: int| 0 <= j < n ==> table[j] != keys,
        },
    decreases n,
{
    if n > 0 && table[n - 1] != keys {
        lemma_bound_index(table, keys, n - 1);
    }
}

/// What the resolver holds after the keys `keys` have come in one by one on
/// top of `buffer`, and what each of them has emitted.
pub open spec fn after_keys(table: Seq<Seq<Key>>, buffer: Seq<Key>, keys: Seq<Key>) -> (
    Seq<Key>,
    Seq<Option<int>>,
)
    decreases keys.len(),
{
    if keys.len() == 0 {
        (buffer, Seq::empty())
    } else {
        let (held, out) = after_keys(table, buffer, keys.drop_last());
        (buffer_after(table, held, keys.last()), out.push(emitted(table, held, keys.last())))
    }
}

/// A resolver with a single bound sequence, to which that sequence is typed
/// from the start, emits the binding with the last key of the sequence and
/// nothing with any key before it; until then it holds the keys typed.
pub proof fn lemma_single_sequence(keys: Seq<Key>, n: int)
    requires
        keys.len() >= 1,
        0 <= n <= keys.len(),
    ensures
        after_keys(seq![keys], Seq::empty(), keys.take(n)).1.len() == n,
        forall|i: int|
            0 <= i < n ==> #[trigger] after_keys(seq![keys], Seq::empty(), keys.take(n)).1[i] == if i
                == keys.len() - 1 {
                Some(0int)
            } else {
                None
            },
        after_keys(seq![keys], Seq::empty(), keys.take(n)).0 == if n == keys.len() {
            Seq::empty()
        } else {
            keys.take(n)
        },
    decreases n,
{
    let table = seq![keys];
    if n > 0 {
        lemma_single_sequence(keys, n - 1);
        let typed = keys.take(n);
        assert(typed.drop_last() =~= keys.take(n - 1));
        assert(typed.last() == keys[n - 1]);
        let held = keys.take(n - 1);
        assert(held.push(keys[n - 1]) =~= typed);
        assert(table.len() == 1 && table[0] == keys);
        lemma_bound_index(table, typed, 1);
        if n == keys.len() {
            assert(typed =~= keys);
        } else {
            assert(typed.len() != keys.len());
            assert(keys.subrange(0, typed.len() as int) =~= typed);
            assert(begins(typed, table[0]));
        }
    }
}

/// Whether two runs of key presses are the same keys.
fn same_keys(a: &Vec<KeyEvent>, b: &Vec<KeyEvent>) -> (r: bool)
    ensures
        r == (keys_view(a@) == keys_view(b@)),
{
    if a.len() != b.len() {
        assert(keys_view(a@).len() != keys_view(b@).len());
        return false;
    }
    let mut i: usize = 0;
    while i < a.len()
        invariant
            i <= a.len(),
            a.len() == b.len(),
            forall|j: int| 0 <= j < i ==> a@[j]@ == b@[j]@,
        decreases a.len() - i,
    {
        if !a[i].same(&b[i]) {
            assert(keys_view(a@)[i as int] != keys_view(b@)[i as int]);
            return false;
        }
        i += 1;
    }
    assert(keys_view(a@) =~= keys_view(b@));
    true
}

/// Whether `keys` is the beginning of `whole`, or all of it.
fn is_prefix(keys: &Vec<KeyEvent>, whole: &Vec<KeyEvent>) -> (r: bool)
    ensures
        r == begins(keys_view(keys@), keys_view(whole@)),
{
    if keys.len() > whole.len() {
        return false;
    }
    let mut i: usize = 0;
    while i < keys.len()
        invariant
            i <= keys.len(),
            keys.len() <= whole.len(),
            forall|j: int| 0 <= j < i ==> keys@[j]@ == whole@[j]@,
        decreases keys.len() - i,
    {
        if !keys[i].same(&whole[i]) {
            assert(keys_view(whole@).subrange(0, keys@.len() as int)[i as int] != keys_view(
                keys@,
            )[i as int]);
            return false;
        }
        i += 1;
    }
    assert(keys_view(whole@).subrange(0, keys@.len() as int) =~= keys_view(keys@));
    true
}

/// Why a table of bindings could not be read: the binding that spells no
/// key sequence, and where in it no key can be read.
#[derive(PartialEq, Eq, Clone, Debug)]
pub struct BindingError {
    /// Index of the binding among those given.
    pub index: usize,
    /// The text that spells no key sequence.
    pub text: String,
    /// Where in the text no key can be read.
    pub error: ParseError,
}

/// A table from key sequences to operations, and the keys typed so far.
pub struct KeyBindManager<Op> {
    bindings: Vec<(KeySequence, Op)>,
    current_sequence: Vec<KeyEvent>,
}

impl<Op: Clone> KeyBindManager<Op> {
    /// The bound key sequences, in the order in which they were given.
    pub closed spec fn table(&self) -> Seq<Seq<Key>> {
        Seq::new(self.bindings@.len(), |i: int| self.bindings@[i].0@)
    }

    /// The operations, each at the index of its key sequence.
    pub closed spec fn ops(&self) -> Seq<Op> {
        Seq::new(self.bindings@.len(), |i: int| self.bindings@[i].1)
    }

    /// The keys typed so far that may still grow into a bound sequence.
    pub closed spec fn buffer(&self) -> Seq<Key> {
        keys_view(self.current_sequence@)
    }

    /// Reads the key sequence of every binding. The first one that spells no
    /// key sequence is the error; where two bindings spell the same
    /// sequence, the later one counts.
    pub fn new(bindings: Vec<(&str, Op)>) -> (r: Result<Self, BindingError>)
        ensures
            match r {
                Ok(m) => {
                    &&& m.buffer() == Seq::<Key>::empty()
                    &&& m.table().len() == bindings@.len()
                    &&& m.ops().len() == bindings@.len()
                    &&& forall|i: int|
                        0 <= i < bindings@.len() ==> parse_keys(bindings@[i].0.spec_bytes())
                            == Ok::<Seq<Key>, int>(#[trigger] m.table()[i])
                    &&& forall|i: int|
                        0 <= i < bindings@.len() ==> cloned(bindings@[i].1, #[trigger] m.ops()[i])
                },
                Err(e) => {
                    &&& e.index < bindings@.len()
                    &&& e.text@ == bindings@[e.index as int].0@
                    &&& parse_keys(bindings@[e.index as int].0.spec_bytes()) == Err::<Seq<Key>, int>(
                        e.error.position as int,
                    )
                    &&& forall|j: int|
                        0 <= j < e.index ==> parse_keys(#[trigger] bindings@[j].0.spec_bytes()) is Ok
                },
            },
    {
        let mut parsed: Vec<(KeySequence, Op)> = Vec::new();
        let mut i: usize = 0;
        while i < bindings.len()
            invariant
                i <= bindings.len(),
                parsed@.len() == i,
                forall|j: int|
                    0 <= j < i ==> parse_keys(bindings@[j].0.spec_bytes()) == Ok::<Seq<Key>, int>(
                        (#[trigger] parsed@[j]).0@,
                    ),
                forall|j: int| 0 <= j < i ==> cloned(bindings@[j].1, (#[trigger] parsed@[j]).1),
            decreases bindings.len() - i,
        {
            let entry = &bindings[i];
            match KeySequence::try_from(entry.0) {
                Ok(keys) => {
                    parsed.push((keys, entry.1.clone()));
                },
                Err(error) => {
                    proof {
                        assert forall|j: int| 0 <= j < i implies parse_keys(
                            #[trigger] bindings@[j].0.spec_bytes(),
                        ) is Ok by {
                            assert(parse_keys(bindings@[j].0.spec_bytes()) == Ok::<Seq<Key>, int>(
                                parsed@[j].0@,
                            ));
                        }
                    }
                    return Err(BindingError { index: i, text: String::from_str(entry.0), error });
                },
            }
            i += 1;
        }
        let m = KeyBindManager { bindings: parsed, current_sequence: Vec::new() };
        proof {
            assert(m.buffer() =~= Seq::<Key>::empty());
            assert forall|j: int| 0 <= j < bindings@.len() implies parse_keys(
                bindings@[j].0.spec_bytes(),
            ) == Ok::<Seq<Key>, int>(#[trigger] m.table()[j]) by {
                assert(m.table()[j] == parsed@[j].0@);
            }
            assert forall|j: int| 0 <= j < bindings@.len() implies cloned(
                bindings@[j].1,
                #[trigger] m.ops()[j],
            ) by {
                assert(m.ops()[j] == parsed@[j].1);
            }
        }
        Ok(m)
    }

    /// A resolver for bindings whose key sequences are already read. Where
    /// two bindings have the same sequence, the later one counts.
    pub fn with_bindings(bindings: Vec<(KeySequence, Op)>) -> (r: Self)
        ensures
            r.buffer() == Seq::<Key>::empty(),
            r.table() == Seq::new(bindings@.len(), |i: int| bindings@[i].0@),
            r.ops() == Seq::new(bindings@.len(), |i: int| bindings@[i].1),
    {
        let m = KeyBindManager { bindings, current_sequence: Vec::new() };
        proof {
            assert(m.buffer() =~= Seq::<Key>::empty());
        }
        m
    }

    /// Takes one input event. A key press is added to the keys typed so far.
    /// Where they now are a bound sequence, its operation is returned and the
    /// keys are forgotten; where they begin a bound sequence, they are kept;
    /// else they are forgotten. Any other event changes nothing.
    pub fn process_event(&mut self, event: Event) -> (r: Option<Op>)
        ensures
            final(self).table() == old(self).table(),
            final(self).ops() == old(self).ops(),
            event is Other ==> r is None && final(self).buffer() == old(self).buffer(),
            event matches Event::Key(key) ==> final(self).buffer() == buffer_after(
                old(self).table(),
                old(self).buffer(),
                key@,
            ),
            event matches Event::Key(key) ==> (r is Some <==> emitted(
                old(self).table(),
                old(self).buffer(),
                key@,
            ) is Some),
            event matches Event::Key(key) ==> (emitted(old(self).table(), old(self).buffer(), key@) matches Some(
                i,
            ) ==> cloned(old(self).ops()[i], r->0)),
    {
        match event {
            Event::Key(key) => {
                let ghost before = self.buffer();
                self.current_sequence.push(key);
                proof {
                    assert(self.buffer() =~= before.push(key@));
                    lemma_bound_index(self.table(), self.buffer(), self.table().len() as int);
                }
                let ghost table = self.table();
                let ghost keys = self.buffer();
                let mut k: usize = self.bindings.len();
                while k > 0
                    invariant
                        k <= self.bindings.len(),
                        self.bindings == old(self).bindings,
                        table == self.table(),
                        keys == self.buffer(),
                        keys == before.push(key@),
                        before == old(self).buffer(),
                        event == Event::Key(key),
                        forall|j: int| k <= j < table.len() ==> table[j] != keys,
                    decreases k,
                {
                    k -= 1;
                    if same_keys(&self.bindings[k].0.0, &self.current_sequence) {
                        let op = self.bindings[k].1.clone();
                        proof {
                            assert(table[k as int] == keys);
                            lemma_bound_index(table, keys, table.len() as int);
                            assert(bound_index(table, keys, table.len() as int) == Some(k as int));
                            assert(self.ops()[k as int] == self.bindings@[k as int].1);
                        }
                        self.current_sequence = Vec::new();
                        proof {
                            assert(self.buffer() =~= Seq::<Key>::empty());
                            assert(old(self).ops()[k as int] == old(self).bindings@[k as int].1);
                        }
                        return Some(op);
                    }
                    assert(table[k as int] != keys);
                }
                proof {
                    lemma_bound_index(table, keys, table.len() as int);
                    assert(bound_index(table, keys, table.len() as int) is None);
                }
                if !self.is_possible_prefix() {
                    self.current_sequence = Vec::new();
                    assert(self.buffer() =~= Seq::<Key>::empty());
                }
                None
            },
            Event::Other => None,
        }
    }

    /// Whether the keys typed so far begin a bound sequence.
    fn is_possible_prefix(&self) -> (r: bool)
        ensures
            r == may_grow(self.table(), self.buffer()),
    {
        let mut i: usize = 0;
        while i < self.bindings.len()
            invariant
                i <= self.bindings.len(),
                forall|j: int| 0 <= j < i ==> !begins(self.buffer(), #[trigger] self.table()[j]),
            decreases self.bindings.len() - i,
        {
            if is_prefix(&self.current_sequence, &self.bindings[i].0.0) {
                assert(begins(self.buffer(), self.table()[i as int]));
                return true;
            }
            assert(!begins(self.buffer(), self.table()[i as int]));
            i += 1;
        }
        false
    }
}

} // verus!
