use vstd::prelude::*;

verus! {

/// The order of `String`'s `Ord`: lexicographic by characters, a proper prefix first.
pub open spec fn text_less(a: Seq<char>, b: Seq<char>) -> bool
    decreases a.len(),
{
    if a.len() == 0 {
        b.len() > 0
    } else if b.len() == 0 {
        false
    } else if a[0] != b[0] {
        (a[0] as int) < (b[0] as int)
    } else {
        text_less(a.skip(1), b.skip(1))
    }
}

pub proof fn lemma_text_less_irreflexive(a: Seq<char>)
    ensures
        !text_less(a, a),
    decreases a.len(),
{
    if a.len() > 0 {
        lemma_text_less_irreflexive(a.skip(1));
    }
}

pub proof fn lemma_text_less_total(a: Seq<char>, b: Seq<char>)
    ensures
        a != b ==> text_less(a, b) || text_less(b, a),
        !(text_less(a, b) && text_less(b, a)),
    decreases a.len(),
{
    if a.len() > 0 && b.len() > 0 && a[0] == b[0] {
        lemma_text_less_total(a.skip(1), b.skip(1));
        if a != b {
            assert(a =~= seq![a[0]] + a.skip(1));
            assert(b =~= seq![b[0]] + b.skip(1));
        }
    } else if a.len() == 0 && b.len() == 0 {
        assert(a =~= b);
    }
}

pub proof fn lemma_text_less_transitive(a: Seq<char>, b: Seq<char>, c: Seq<char>)
    requires
        text_less(a, b),
        text_less(b, c),
    ensures
        text_less(a, c),
    decreases a.len(),
{
    if a.len() > 0 && b.len() > 0 && c.len() > 0 && a[0] == b[0] && b[0] == c[0] {
        lemma_text_less_transitive(a.skip(1), b.skip(1), c.skip(1));
    }
}

/// Compares two texts in `String`'s order.
pub fn chars_less(a: &[char], b: &[char]) -> (less: bool)
    ensures
        less == text_less(a@, b@),
{
    let mut index: usize = 0;
    assert(a@.skip(0) =~= a@ && b@.skip(0) =~= b@);
    while index < a.len() && index < b.len() && a[index] == b[index]
        invariant
            index <= a@.len(),
            index <= b@.len(),
            text_less(a@, b@) == text_less(a@.skip(index as int), b@.skip(index as int)),
        decreases a@.len() - index,
    {
        assert(a@.skip(index as int).skip(1) =~= a@.skip(index + 1));
        assert(b@.skip(index as int).skip(1) =~= b@.skip(index + 1));
        index = index + 1;
    }
    if index == a.len() {
        index < b.len()
    } else if index == b.len() {
        false
    } else {
        a[index] < b[index]
    }
}

/// The views of identifier and index pairs.
pub open spec fn pair_views(pairs: Seq<(String, usize)>) -> Seq<(Seq<char>, usize)> {
    pairs.map_values(|p: (String, usize)| (p.0@, p.1))
}

/// The index that a list of pairs gives an identifier: that of its last pair, as collecting the
/// pairs into an ordered map keeps it.
pub open spec fn last_index_for(pairs: Seq<(Seq<char>, usize)>, identifier: Seq<char>) -> Option<
    usize,
>
    decreases pairs.len(),
{
    if pairs.len() == 0 {
        None
    } else if pairs.last().0 == identifier {
        Some(pairs.last().1)
    } else {
        last_index_for(pairs.drop_last(), identifier)
    }
}

/// Whether pairs are in strictly increasing identifier order.
pub open spec fn strictly_sorted(entries: Seq<(Seq<char>, usize)>) -> bool {
    forall|i: int, j: int|
        0 <= i < j < entries.len() ==> text_less(#[trigger] entries[i].0, #[trigger] entries[j].0)
}

/// The index recorded for an identifier in pairs with distinct identifiers.
pub open spec fn recorded_index(entries: Seq<(Seq<char>, usize)>, identifier: Seq<char>) -> Option<
    usize,
> {
    if exists|i: int| 0 <= i < entries.len() && #[trigger] entries[i].0 == identifier {
        Some(entries[choose|i: int| 0 <= i < entries.len() && #[trigger] entries[i].0 == identifier].1)
    } else {
        None
    }
}

/// Whether pairs hold an identifier.
pub open spec fn has_identifier(entries: Seq<(Seq<char>, usize)>, identifier: Seq<char>) -> bool {
    exists|i: int| 0 <= i < entries.len() && #[trigger] entries[i].0 == identifier
}

/// Identifiers with a document index each, kept in identifier order with each identifier once,
/// as an ordered map keeps them.
pub struct IdentifierMap {
    entries: Vec<(String, usize)>,
}

impl IdentifierMap {
    #[verifier::type_invariant]
    spec fn sorted(&self) -> bool {
        strictly_sorted(pair_views(self.entries@))
    }

    /// The identifiers and indices in identifier order.
    pub closed spec fn entries_view(&self) -> Seq<(Seq<char>, usize)> {
        pair_views(self.entries@)
    }

    /// An empty map.
    pub fn new() -> (map: Self)
        ensures
            map.entries_view() == Seq::<(Seq<char>, usize)>::empty(),
    {
        let map = IdentifierMap { entries: Vec::new() };
        assert(map.entries_view() =~= Seq::<(Seq<char>, usize)>::empty());
        map
    }

    /// Records an index for an identifier, replacing the index it had.
    pub fn insert(&mut self, identifier: String, index: usize)
        ensures
            forall|k: Seq<char>|
                #[trigger] recorded_index(final(self).entries_view(), k) == if k == identifier@ {
                    Some(index)
                } else {
                    recorded_index(old(self).entries_view(), k)
                },
            forall|k: Seq<char>|
                #[trigger] has_identifier(final(self).entries_view(), k) <==> (k == identifier@
                    || has_identifier(old(self).entries_view(), k)),
    {
        proof {
            use_type_invariant(&*self);
        }
        let ghost before = pair_views(self.entries@);
        let key = crate::text::chars_of(identifier.as_str());
        let mut position: usize = 0;
        while position < self.entries.len() && chars_less(
            crate::text::chars_of(self.entries[position].0.as_str()).as_slice(),
            key.as_slice(),
        )
            invariant
                position <= before.len(),
                before == pair_views(self.entries@),
                strictly_sorted(before),
                key@ == identifier@,
                forall|i: int| 0 <= i < position ==> text_less(#[trigger] before[i].0, key@),
            decreases before.len() - position,
        {
            position = position + 1;
        }
        proof {
            assert forall|i: int| 0 <= i < position implies before[i].0 != identifier@ by {
                lemma_text_less_irreflexive(identifier@);
            }
            if position < before.len() {
                lemma_text_less_total(before[position as int].0, identifier@);
            }
        }
        let replace = if position < self.entries.len() {
            let existing = crate::text::chars_of(self.entries[position].0.as_str());
            assert(existing@ == before[position as int].0);
            crate::text::chars_equal(existing.as_slice(), key.as_slice())
        } else {
            false
        };
        let mut entries: Vec<(String, usize)> = Vec::new();
        std::mem::swap(&mut entries, &mut self.entries);
        if replace {
            entries.set(position, (identifier, index));
        } else {
            entries.insert(position, (identifier, index));
        }
        let ghost after = pair_views(entries@);
        proof {
            if replace {
                assert(after =~= before.update(position as int, (identifier@, index)));
            } else {
                assert(after =~= before.insert(position as int, (identifier@, index)));
            }
            if position < before.len() {
                assert(replace == (before[position as int].0 == identifier@));
            }
            assert forall|i: int| 0 <= i < before.len() && i != position implies before[i].0
                != identifier@ by {
                lemma_text_less_irreflexive(identifier@);
                if i > position {
                    assert(text_less(before[position as int].0, before[i].0));
                    if !replace {
                        assert(text_less(identifier@, before[position as int].0));
                        lemma_text_less_transitive(
                            identifier@,
                            before[position as int].0,
                            before[i].0,
                        );
                    }
                }
            }
            assert forall|i: int, j: int|
                0 <= i < j < after.len() implies text_less(
                #[trigger] after[i].0,
                #[trigger] after[j].0,
            ) by {
                if replace {
                    assert(after[position as int].0 == identifier@);
                } else {
                    if j == position {
                        assert(after[i] == before[i]);
                    } else if i == position {
                        assert(after[j] == before[j - 1]);
                        if j - 1 > position {
                            lemma_text_less_transitive(identifier@, before[position as int].0, before[j - 1].0);
                        }
                    } else if i > position {
                        assert(after[i] == before[i - 1]);
                        assert(after[j] == before[j - 1]);
                    } else if j > position {
                        assert(after[i] == before[i]);
                        assert(after[j] == before[j - 1]);
                    } else {
                        assert(after[i] == before[i]);
                        assert(after[j] == before[j]);
                    }
                }
            }
        }
        self.entries = entries;
        proof {
            lemma_recorded_after_update(before, after, position as int, identifier@, index, replace);
        }
    }

    /// The index recorded for an identifier.
    pub fn get(&self, identifier: &str) -> (index: Option<usize>)
        ensures
            index == recorded_index(self.entries_view(), identifier@),
    {
        proof {
            use_type_invariant(self);
        }
        let ghost entries = pair_views(self.entries@);
        let mut position: usize = 0;
        while position < self.entries.len()
            invariant
                position <= entries.len(),
                entries == pair_views(self.entries@),
                strictly_sorted(entries),
                forall|i: int| 0 <= i < position ==> #[trigger] entries[i].0 != identifier@,
            decreases entries.len() - position,
        {
            let existing = crate::text::chars_of(self.entries[position].0.as_str());
            let wanted = crate::text::chars_of(identifier);
            if crate::text::chars_equal(existing.as_slice(), wanted.as_slice()) {
                proof {
                    lemma_recorded_unique(entries, identifier@, position as int);
                }
                return Some(self.entries[position].1);
            }
            position = position + 1;
        }
        None
    }

    /// The map that collecting pairs in order gives: the index of each identifier's last pair.
    pub fn from_pairs(pairs: Vec<(String, usize)>) -> (map: Self)
        ensures
            forall|k: Seq<char>|
                #[trigger] recorded_index(map.entries_view(), k) == last_index_for(
                    pair_views(pairs@),
                    k,
                ),
    {
        let ghost views = pair_views(pairs@);
        let mut map = IdentifierMap::new();
        for pair in it: pairs.into_iter()
            invariant
                it.seq() == pairs@,
                views == pair_views(pairs@),
                forall|k: Seq<char>|
                    #[trigger] recorded_index(map.entries_view(), k) == last_index_for(
                        views.take(it.index() as int),
                        k,
                    ),
        {
            proof {
                assert(views.take(it.index() + 1).drop_last() =~= views.take(it.index() as int));
                assert(views.take(it.index() + 1).last() == (pair.0@, pair.1));
            }
            let (identifier, index) = pair;
            map.insert(identifier, index);
        }
        proof {
            assert(views.take(views.len() as int) =~= views);
        }
        map
    }

    /// The number of identifiers.
    pub fn len(&self) -> (count: usize)
        ensures
            count == self.entries_view().len(),
    {
        self.entries.len()
    }

    /// The identifier and index at a position of identifier order.
    pub fn entry(&self, position: usize) -> (entry: (&String, usize))
        requires
            position < self.entries_view().len(),
        ensures
            entry.0@ == self.entries_view()[position as int].0,
            entry.1 == self.entries_view()[position as int].1,
    {
        let pair = &self.entries[position];
        (&pair.0, pair.1)
    }
}

proof fn lemma_recorded_unique(entries: Seq<(Seq<char>, usize)>, identifier: Seq<char>, at: int)
    requires
        0 <= at < entries.len(),
        entries[at].0 == identifier,
        strictly_sorted(entries),
    ensures
        recorded_index(entries, identifier) == Some(entries[at].1),
{
    assert forall|j: int| 0 <= j < entries.len() && #[trigger] entries[j].0 == identifier implies j
        == at by {
        lemma_text_less_irreflexive(identifier);
        if j < at {
            assert(text_less(entries[j].0, entries[at].0));
        } else if j > at {
            assert(text_less(entries[at].0, entries[j].0));
        }
    }
    assert(has_identifier(entries, identifier));
}

proof fn lemma_recorded_after_update(
    before: Seq<(Seq<char>, usize)>,
    after: Seq<(Seq<char>, usize)>,
    position: int,
    identifier: Seq<char>,
    index: usize,
    replace: bool,
)
    requires
        0 <= position <= before.len(),
        strictly_sorted(before),
        strictly_sorted(after),
        replace ==> position < before.len() && before[position].0 == identifier && after
            == before.update(position, (identifier, index)),
        !replace ==> after == before.insert(position, (identifier, index)),
        forall|i: int| 0 <= i < before.len() && i != position ==> before[i].0 != identifier || (
        replace && i == position),
        !replace ==> forall|i: int| 0 <= i < before.len() ==> before[i].0 != identifier,
    ensures
        forall|k: Seq<char>|
            #[trigger] recorded_index(after, k) == if k == identifier {
                Some(index)
            } else {
                recorded_index(before, k)
            },
        forall|k: Seq<char>|
            #[trigger] has_identifier(after, k) <==> (k == identifier || has_identifier(before, k)),
{
    assert forall|k: Seq<char>|
        #[trigger] recorded_index(after, k) == if k == identifier {
            Some(index)
        } else {
            recorded_index(before, k)
        } by {
        if k == identifier {
            lemma_recorded_unique(after, k, position);
        } else {
            if exists|i: int| 0 <= i < before.len() && #[trigger] before[i].0 == k {
                let i = choose|i: int| 0 <= i < before.len() && #[trigger] before[i].0 == k;
                lemma_recorded_unique(before, k, i);
                let j = if replace || i < position {
                    i
                } else {
                    i + 1
                };
                assert(after[j] == before[i]);
                lemma_recorded_unique(after, k, j);
            } else {
                assert forall|j: int| 0 <= j < after.len() implies #[trigger] after[j].0 != k by {
                    if replace {
                        if j != position {
                            assert(after[j] == before[j]);
                        }
                    } else if j < position {
                        assert(after[j] == before[j]);
                    } else if j > position {
                        assert(after[j] == before[j - 1]);
                    }
                }
            }
        }
    }
    assert forall|k: Seq<char>|
        #[trigger] has_identifier(after, k) <==> (k == identifier || has_identifier(before, k)) by {
        if exists|i: int| 0 <= i < after.len() && #[trigger] after[i].0 == k {
            let j = choose|i: int| 0 <= i < after.len() && #[trigger] after[i].0 == k;
            if k != identifier {
                if replace {
                    assert(before[j].0 == k);
                } else if j < position {
                    assert(before[j].0 == k);
                } else {
                    assert(before[j - 1].0 == k);
                }
            }
        }
        if k == identifier {
            assert(after[position].0 == k);
        } else if exists|i: int| 0 <= i < before.len() && #[trigger] before[i].0 == k {
            let i = choose|i: int| 0 <= i < before.len() && #[trigger] before[i].0 == k;
            let j = if replace || i < position {
                i
            } else {
                i + 1
            };
            assert(after[j] == before[i]);
        }
    }
}

} // verus!
