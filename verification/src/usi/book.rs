//! An opening book: positions, each with the moves known for it, the best
//! first. No position occurs twice.

use vstd::prelude::*;
use vstd::string::*;

verus! {

/// One position of an opening book with the moves known for it, the best
/// first.
#[derive(Debug)]
pub(crate) struct BookEntry {
    pub(crate) position: String,
    pub(crate) moves: Vec<String>,
}

/// One position of an opening book with the moves known for it, as a
/// mathematical value.
pub struct EntryView {
    pub position: Seq<char>,
    pub moves: Seq<Seq<char>>,
}

impl View for BookEntry {
    type V = EntryView;

    closed spec fn view(&self) -> EntryView {
        EntryView { position: self.position@, moves: self.moves.deep_view() }
    }
}

/// Whether no position occurs twice among `entries`.
pub open spec fn distinct_positions(entries: Seq<EntryView>) -> bool {
    forall|i: int, j: int|
        0 <= i < j < entries.len() ==> (#[trigger] entries[i]).position
            != (#[trigger] entries[j]).position
}

/// Where `position` stands among `entries`: the index of its first
/// occurrence, or the number of entries where it does not occur.
pub open spec fn index_of(entries: Seq<EntryView>, position: Seq<char>) -> int
    decreases entries.len(),
{
    if entries.len() == 0 {
        0
    } else if entries[0].position == position {
        0
    } else {
        1 + index_of(entries.skip(1), position)
    }
}

/// The moves that `entries` hold for `position`, where they hold the
/// position.
pub open spec fn moves_for(entries: Seq<EntryView>, position: Seq<char>) -> Option<
    Seq<Seq<char>>,
> {
    let k = index_of(entries, position);
    if 0 <= k < entries.len() {
        Some(entries[k].moves)
    } else {
        None
    }
}

/// The best of the moves that `entries` hold for `position`, where they
/// hold the position with a move.
pub open spec fn first_move_for(entries: Seq<EntryView>, position: Seq<char>) -> Option<
    Seq<char>,
> {
    match moves_for(entries, position) {
        Some(moves) if moves.len() > 0 => Some(moves[0]),
        _ => None,
    }
}

/// `entries` with `moves` as the moves for `position`: in place of the
/// moves held for it before, or as a new entry at the end.
pub open spec fn inserted(
    entries: Seq<EntryView>,
    position: Seq<char>,
    moves: Seq<Seq<char>>,
) -> Seq<EntryView> {
    let k = index_of(entries, position);
    if 0 <= k < entries.len() {
        entries.update(k, EntryView { position, moves })
    } else {
        entries.push(EntryView { position, moves })
    }
}

/// The index of a position lies among the entries or just behind them; the
/// entry at it is the first that holds the position, and no entry holds
/// the position where the index lies behind them.
pub proof fn lemma_index_of(entries: Seq<EntryView>, position: Seq<char>)
    ensures
        0 <= index_of(entries, position) <= entries.len(),
        index_of(entries, position) < entries.len() ==> entries[index_of(
            entries,
            position,
        )].position == position,
        forall|k: int|
            0 <= k < index_of(entries, position) ==> (#[trigger] entries[k]).position != position,
    decreases entries.len(),
{
    if entries.len() > 0 && entries[0].position != position {
        let rest = entries.skip(1);
        lemma_index_of(rest, position);
        assert forall|k: int| 0 <= k < index_of(entries, position) implies (
        #[trigger] entries[k]).position != position by {
            if k > 0 {
                assert(rest[k - 1] == entries[k]);
            }
        }
    }
}

/// In a book in which no position occurs twice, the moves held for the
/// position of any entry are the moves of that entry.
pub proof fn lemma_entry_is_found(entries: Seq<EntryView>, k: int)
    requires
        distinct_positions(entries),
        0 <= k < entries.len(),
    ensures
        index_of(entries, entries[k].position) == k,
        moves_for(entries, entries[k].position) == Some(entries[k].moves),
{
    lemma_index_of(entries, entries[k].position);
    let found = index_of(entries, entries[k].position);
    if found > k {
        assert(entries[k].position != entries[k].position);
    }
}

/// To insert moves for a position keeps every position single, makes
/// those moves the ones held for the position, and leaves the moves held
/// for any other position as they were.
pub proof fn lemma_inserted(
    entries: Seq<EntryView>,
    position: Seq<char>,
    moves: Seq<Seq<char>>,
    other: Seq<char>,
)
    requires
        distinct_positions(entries),
    ensures
        distinct_positions(inserted(entries, position, moves)),
        moves_for(inserted(entries, position, moves), position) == Some(moves),
        other != position ==> moves_for(inserted(entries, position, moves), other) == moves_for(
            entries,
            other,
        ),
{
    let after = inserted(entries, position, moves);
    let k = index_of(entries, position);
    lemma_index_of(entries, position);
    assert(after[k] == (EntryView { position, moves }));
    assert forall|i: int| 0 <= i < after.len() && i != k implies (#[trigger] after[i])
        == entries[i] && after[i].position != position by {
        if i < k {
        } else {
            assert(entries[k].position == position);
        }
    }
    assert(distinct_positions(after)) by {
        assert forall|i: int, j: int| 0 <= i < j < after.len() implies (
        #[trigger] after[i]).position != (#[trigger] after[j]).position by {
            if i != k && j != k {
                assert(entries[i].position != entries[j].position);
            }
        }
    }
    lemma_entry_is_found(after, k);
    if other != position {
        lemma_index_of(entries, other);
        lemma_index_of(after, other);
        let a = index_of(entries, other);
        let b = index_of(after, other);
        if a < entries.len() {
            assert(a != k);
            assert(after[a] == entries[a]);
            if b > a {
                assert(after[a].position != other);
            }
            if b < a {
                assert(b != k);
                assert(after[b] == entries[b]);
                assert(entries[b].position != other);
            }
        } else {
            if b < after.len() {
                assert(b != k);
                assert(after[b] == entries[b]);
                assert(entries[b].position != other);
            }
        }
    }
}

/// An opening book.
#[derive(Debug)]
pub struct OpeningBook {
    entries: Vec<BookEntry>,
}

impl View for OpeningBook {
    type V = Seq<EntryView>;

    /// The entries of the book, in the order in which their positions
    /// came into it.
    closed spec fn view(&self) -> Seq<EntryView> {
        Seq::new(self.entries@.len(), |k: int| self.entries@[k]@)
    }
}

impl OpeningBook {
    #[verifier::type_invariant]
    spec fn well_formed(self) -> bool {
        distinct_positions(self@)
    }

    /// The book that holds no position.
    pub fn new() -> (book: Self)
        ensures
            book@ == Seq::<EntryView>::empty(),
    {
        let book = OpeningBook { entries: Vec::new() };
        assert(book@ =~= Seq::<EntryView>::empty());
        book
    }

    /// The number of positions in the book.
    pub fn len(&self) -> (n: usize)
        ensures
            n == self@.len(),
            distinct_positions(self@),
    {
        proof {
            use_type_invariant(self);
        }
        self.entries.len()
    }

    /// Where the book holds `position`: the index of its entry, or the
    /// number of entries where it holds none.
    fn find(&self, position: &String) -> (k: usize)
        ensures
            k == index_of(self@, position@),
            k <= self@.len(),
    {
        let n: usize = self.entries.len();
        let mut k: usize = 0;
        proof {
            assert(self@.skip(0) =~= self@);
        }
        while k < n && !(self.entries[k].position == *position)
            invariant
                k <= n == self.entries@.len() == self@.len(),
                index_of(self@, position@) == k + index_of(self@.skip(k as int), position@),
            decreases n - k,
        {
            proof {
                assert(self@.skip(k as int)[0] == self.entries@[k as int]@);
                assert(self@.skip(k as int).skip(1) =~= self@.skip(k + 1));
            }
            k += 1;
        }
        proof {
            if k < n {
                assert(self@.skip(k as int)[0] == self.entries@[k as int]@);
            }
        }
        k
    }

    /// Makes `moves` the moves for `position`, in place of those that the
    /// book held for it, if any.
    pub fn insert(&mut self, position: String, moves: Vec<String>)
        ensures
            final(self)@ == inserted(old(self)@, position@, moves.deep_view()),
    {
        proof {
            use_type_invariant(&*self);
            lemma_inserted(self@, position@, moves.deep_view(), position@);
        }
        let k = self.find(&position);
        let ghost before = self@;
        let entry = BookEntry { position, moves };
        let mut taken = OpeningBook::new();
        core::mem::swap(self, &mut taken);
        let mut entries = taken.entries;
        if k < entries.len() {
            entries[k] = entry;
        } else {
            entries.push(entry);
        }
        let ghost after = Seq::new(entries@.len(), |j: int| entries@[j]@);
        assert(after =~= inserted(before, entry@.position, entry@.moves));
        *self = OpeningBook { entries };
    }

    /// The best of the moves that the book holds for `position`, where it
    /// holds the position with a move.
    pub fn first_move(&self, position: &String) -> (found: Option<String>)
        ensures
            found.deep_view() == first_move_for(self@, position@),
    {
        let k = self.find(position);
        if k < self.entries.len() && self.entries[k].moves.len() > 0 {
            Some(self.entries[k].moves[0].clone())
        } else {
            None
        }
    }
}

impl Default for OpeningBook {
    fn default() -> (book: Self)
        ensures
            book@ == Seq::<EntryView>::empty(),
    {
        OpeningBook::new()
    }
}

} // verus!
