//! The watchlist: the symbols that the service tracks, in insertion order.
//!
//! A symbol may stand in the list more than once: adding does not look for
//! it first, and removing takes out its first occurrence only.

use crate::acquisition::{texts, validate_ticker, ProviderError};
use vstd::prelude::*;
use vstd::string::StringExecFns;

verus! {

/// What came of adding a symbol.
#[derive(Clone, Copy, Debug, PartialEq, Eq, Structural)]
pub enum AddOutcome {
    /// The provider knows the symbol, and it was put at the end of the list.
    Created,
    /// The provider does not know the symbol, and the list is unchanged.
    Rejected,
}

/// What came of removing a symbol.
#[derive(Clone, Copy, Debug, PartialEq, Eq, Structural)]
pub enum RemoveOutcome {
    /// The first occurrence of the symbol was taken out.
    Removed,
    /// The symbol was not in the list, which is unchanged.
    NotFound,
}

/// The HTTP status that reports an [`AddOutcome`].
pub open spec fn add_status(outcome: AddOutcome) -> u16 {
    match outcome {
        AddOutcome::Created => 201,
        AddOutcome::Rejected => 400,
    }
}

/// The HTTP status that reports a [`RemoveOutcome`].
pub open spec fn remove_status(outcome: RemoveOutcome) -> u16 {
    match outcome {
        RemoveOutcome::Removed => 200,
        RemoveOutcome::NotFound => 404,
    }
}

impl AddOutcome {
    /// The HTTP status of this outcome.
    pub fn status_code(&self) -> (code: u16)
        ensures
            code == add_status(*self),
    {
        match self {
            AddOutcome::Created => 201,
            AddOutcome::Rejected => 400,
        }
    }
}

impl RemoveOutcome {
    /// The HTTP status of this outcome.
    pub fn status_code(&self) -> (code: u16)
        ensures
            code == remove_status(*self),
    {
        match self {
            RemoveOutcome::Removed => 200,
            RemoveOutcome::NotFound => 404,
        }
    }
}

/// `at` is the first position of `symbol` in `list`.
pub open spec fn is_first_occurrence(list: Seq<Seq<char>>, symbol: Seq<char>, at: int) -> bool {
    &&& 0 <= at < list.len()
    &&& list[at] == symbol
    &&& forall|j: int| 0 <= j < at ==> list[j] != symbol
}

/// `list` without the first occurrence of `symbol`; `list` itself where
/// `symbol` does not occur.
pub open spec fn without_first(list: Seq<Seq<char>>, symbol: Seq<char>) -> Seq<Seq<char>> {
    if list.contains(symbol) {
        list.remove(choose|at: int| is_first_occurrence(list, symbol, at))
    } else {
        list
    }
}

/// The symbols of `list` in order, with a comma and a space between each two.
pub open spec fn joined(list: Seq<Seq<char>>) -> Seq<char>
    decreases list.len(),
{
    if list.len() == 0 {
        Seq::empty()
    } else if list.len() == 1 {
        list[0]
    } else {
        joined(list.drop_last()) + ", "@ + list.last()
    }
}

/// A sequence has at most one first occurrence of a symbol.
pub proof fn first_occurrence_is_unique(list: Seq<Seq<char>>, symbol: Seq<char>, a: int, b: int)
    requires
        is_first_occurrence(list, symbol, a),
        is_first_occurrence(list, symbol, b),
    ensures
        a == b,
{
    if a < b {
        assert(list[a] != symbol);
    } else if b < a {
        assert(list[b] != symbol);
    }
}

/// Where `at` is the first position of `symbol`, removing the symbol takes
/// out the item at `at`.
pub proof fn without_first_at(list: Seq<Seq<char>>, symbol: Seq<char>, at: int)
    requires
        is_first_occurrence(list, symbol, at),
    ensures
        without_first(list, symbol) == list.remove(at),
{
    assert(list.contains(symbol));
    let chosen = choose|i: int| is_first_occurrence(list, symbol, i);
    first_occurrence_is_unique(list, symbol, at, chosen);
}

/// The symbols tracked, in the order in which they were added.
pub struct Watchlist {
    symbols: Vec<String>,
}

impl View for Watchlist {
    type V = Seq<Seq<char>>;

    closed spec fn view(&self) -> Seq<Seq<char>> {
        texts(self.symbols@)
    }
}

impl Watchlist {
    /// An empty watchlist.
    pub fn new() -> (list: Self)
        ensures
            list@ == Seq::<Seq<char>>::empty(),
    {
        let list = Watchlist { symbols: Vec::new() };
        proof {
            assert(list@ =~= Seq::<Seq<char>>::empty());
        }
        list
    }

    /// Adds `ticker` if the provider's answer to its validation request was a
    /// success: the symbol goes to the end of the list, whether or not it is
    /// in the list already. On an error the list is unchanged.
    pub fn add_ticker<T>(&mut self, ticker: String, response: &Result<T, ProviderError>) -> (outcome:
        AddOutcome)
        ensures
            response is Ok ==> outcome == AddOutcome::Created && final(self)@ == old(self)@.push(
                ticker@,
            ),
            response is Err ==> outcome == AddOutcome::Rejected && final(self)@ == old(self)@,
    {
        if validate_ticker(response) {
            self.symbols.push(ticker);
            proof {
                assert(self@ =~= old(self)@.push(ticker@));
            }
            AddOutcome::Created
        } else {
            AddOutcome::Rejected
        }
    }

    /// Removes the first occurrence of `ticker`. Where the symbol is not in
    /// the list, the list is unchanged.
    pub fn remove_ticker(&mut self, ticker: &String) -> (outcome: RemoveOutcome)
        ensures
            outcome == (if old(self)@.contains(ticker@) {
                RemoveOutcome::Removed
            } else {
                RemoveOutcome::NotFound
            }),
            final(self)@ == without_first(old(self)@, ticker@),
    {
        let mut i: usize = 0;
        while i < self.symbols.len()
            invariant
                *self == *old(self),
                i <= self.symbols@.len(),
                forall|j: int| 0 <= j < i ==> self@[j] != ticker@,
            decreases self.symbols@.len() - i,
        {
            if self.symbols[i] == *ticker {
                proof {
                    assert(is_first_occurrence(old(self)@, ticker@, i as int));
                    without_first_at(old(self)@, ticker@, i as int);
                }
                self.symbols.remove(i);
                proof {
                    assert(self@ =~= old(self)@.remove(i as int));
                }
                return RemoveOutcome::Removed;
            }
            i = i + 1;
        }
        proof {
            assert(!old(self)@.contains(ticker@));
        }
        RemoveOutcome::NotFound
    }

    /// A snapshot of the list, in insertion order.
    pub fn list(&self) -> (snapshot: Vec<String>)
        ensures
            texts(snapshot@) == self@,
    {
        let snapshot = self.symbols.clone();
        proof {
            assert(texts(snapshot@) =~= self@);
        }
        snapshot
    }

    /// The list as one line of text: the symbols in insertion order, with a
    /// comma and a space between each two.
    pub fn get_tickers(&self) -> (line: String)
        ensures
            line@ == joined(self@),
    {
        let mut line = String::new();
        let mut i: usize = 0;
        while i < self.symbols.len()
            invariant
                i <= self.symbols@.len(),
                line@ == joined(self@.take(i as int)),
            decreases self.symbols@.len() - i,
        {
            if i > 0 {
                line.append(", ");
            }
            line.append(self.symbols[i].as_str());
            proof {
                let part = self@.take(i + 1);
                assert(part.drop_last() =~= self@.take(i as int));
                assert(part.last() == self@[i as int]);
                if i == 0 {
                    assert(line@ =~= part[0]);
                }
            }
            i = i + 1;
        }
        proof {
            assert(self@.take(i as int) =~= self@);
        }
        line
    }
}

/// A symbol that occurs at `upto` has a first occurrence at or before it.
proof fn first_position(list: Seq<Seq<char>>, symbol: Seq<char>, upto: int) -> (at: int)
    requires
        0 <= upto < list.len(),
        list[upto] == symbol,
    ensures
        is_first_occurrence(list, symbol, at),
        at <= upto,
    decreases upto,
{
    if exists|j: int| 0 <= j < upto && list[j] == symbol {
        let j = choose|j: int| 0 <= j < upto && list[j] == symbol;
        first_position(list, symbol, j)
    } else {
        upto
    }
}

/// Where putting `symbol` at the end of `list` and taking out the item at
/// `first` gives `list` again, every item from `first` on is `symbol`.
proof fn tail_is_symbol(list: Seq<Seq<char>>, symbol: Seq<char>, first: int, k: int)
    requires
        0 <= first <= k < list.len(),
        list.push(symbol).remove(first) == list,
    ensures
        list[k] == symbol,
    decreases list.len() - k,
{
    let after = list.push(symbol).remove(first);
    assert(after[k] == list.push(symbol)[k + 1]);
    if k + 1 < list.len() {
        tail_is_symbol(list, symbol, first, k + 1);
    }
}

/// Adding a symbol and then removing it gives back the list as it was
/// exactly where every item from the symbol's first occurrence on is the
/// symbol itself; so in particular where the symbol was not in the list.
pub proof fn add_then_remove_restores(list: Seq<Seq<char>>, symbol: Seq<char>)
    ensures
        without_first(list.push(symbol), symbol) == list <==> (forall|i: int, j: int|
            0 <= i <= j < list.len() && list[i] == symbol ==> list[j] == symbol),
{
    let added = list.push(symbol);
    assert(added[list.len() as int] == symbol);
    if list.contains(symbol) {
        let seen = choose|i: int| 0 <= i < list.len() && list[i] == symbol;
        let first = first_position(list, symbol, seen);
        assert(is_first_occurrence(added, symbol, first));
        without_first_at(added, symbol, first);
        let after = added.remove(first);
        if forall|i: int, j: int| 0 <= i <= j < list.len() && list[i] == symbol ==> list[j] == symbol {
            assert forall|k: int| 0 <= k < list.len() implies after[k] == list[k] by {
                if k >= first {
                    assert(list[k] == symbol);
                    assert(after[k] == added[k + 1]);
                }
            }
            assert(after =~= list);
        }
        if after == list {
            assert forall|i: int, j: int|
                0 <= i <= j < list.len() && list[i] == symbol implies list[j] == symbol by {
                tail_is_symbol(list, symbol, first, j);
            }
        }
    } else {
        assert(is_first_occurrence(added, symbol, list.len() as int));
        without_first_at(added, symbol, list.len() as int);
        assert(added.remove(list.len() as int) =~= list);
    }
}

/// Adding a symbol and then removing it leaves the list with the symbols it
/// had, each as often as before, whatever their order.
pub proof fn add_then_remove_keeps_symbols(list: Seq<Seq<char>>, symbol: Seq<char>)
    ensures
        without_first(list.push(symbol), symbol).to_multiset() == list.to_multiset(),
{
    let added = list.push(symbol);
    let first = first_position(added, symbol, list.len() as int);
    without_first_at(added, symbol, first);
    vstd::seq_lib::to_multiset_build(list, symbol);
    vstd::seq_lib::to_multiset_remove(added, first);
    assert(list.to_multiset().insert(symbol).remove(symbol) =~= list.to_multiset());
}

/// The greeting that the service answers a liveness request with.
pub fn hello() -> (greeting: &'static str)
    ensures
        greeting@ == "Welcome to the stock analysis API!"@,
{
    "Welcome to the stock analysis API!"
}

} // verus!
