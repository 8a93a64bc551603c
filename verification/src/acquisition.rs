//! Requests to the quote provider and what becomes of its answers.
//!
//! The provider is reached by the program around this library. The library
//! says which request is due, and takes each answer as a value.

use crate::bars::Bar;
use vstd::prelude::*;

verus! {

/// The look-back window of a batch of history requests.
#[derive(Clone, Copy, Debug, PartialEq, Eq, Structural)]
pub enum Horizon {
    /// One month.
    ShortTerm,
    /// Five years.
    LongTerm,
}

/// The intervals that the library asks the provider for.
#[derive(Clone, Copy, Debug, PartialEq, Eq, Structural)]
pub enum Interval {
    /// Asked for when a symbol is validated.
    OneMinute,
    OneMonth,
    FiveYears,
}

/// Why the provider gave no bars. The library treats all kinds alike.
#[derive(Clone, Copy, Debug, PartialEq, Eq, Structural)]
pub enum ProviderError {
    /// The provider could not be reached.
    Transport,
    /// The provider answered with an error or with malformed data.
    Provider,
    /// The provider did not answer in time.
    Timeout,
}

/// One history request: a symbol and the interval to ask for.
#[derive(Clone, Debug, PartialEq, Eq)]
pub struct HistoryRequest {
    pub symbol: String,
    pub interval: Interval,
}

/// The code by which the provider knows an interval.
pub open spec fn interval_code(interval: Interval) -> Seq<char> {
    match interval {
        Interval::OneMinute => "1m"@,
        Interval::OneMonth => "1mo"@,
        Interval::FiveYears => "5y"@,
    }
}

/// The interval that a horizon is fetched at.
pub open spec fn interval_of(horizon: Horizon) -> Interval {
    match horizon {
        Horizon::ShortTerm => Interval::OneMonth,
        Horizon::LongTerm => Interval::FiveYears,
    }
}

impl Interval {
    /// The provider's code of this interval.
    pub fn code(&self) -> (code: &'static str)
        ensures
            code@ == interval_code(*self),
    {
        match self {
            Interval::OneMinute => "1m",
            Interval::OneMonth => "1mo",
            Interval::FiveYears => "5y",
        }
    }
}

impl Horizon {
    /// The interval that this horizon is fetched at.
    pub fn interval(&self) -> (interval: Interval)
        ensures
            interval == interval_of(*self),
    {
        match self {
            Horizon::ShortTerm => Interval::OneMonth,
            Horizon::LongTerm => Interval::FiveYears,
        }
    }
}

/// The request whose answer decides whether `ticker` is a valid symbol.
pub fn validation_request(ticker: &str) -> (request: HistoryRequest)
    ensures
        request.symbol@ == ticker@,
        request.interval == Interval::OneMinute,
{
    HistoryRequest { symbol: ticker.to_owned(), interval: Interval::OneMinute }
}

/// Whether the provider's answer to a validation request shows the symbol to
/// exist: any success does, whatever it holds, and no error does.
pub fn validate_ticker<T>(response: &Result<T, ProviderError>) -> (valid: bool)
    ensures
        valid == (response is Ok),
{
    match response {
        Ok(_) => true,
        Err(_) => false,
    }
}

/// The texts of a sequence of strings.
pub open spec fn texts(strings: Seq<String>) -> Seq<Seq<char>> {
    Seq::new(strings.len(), |i: int| strings[i]@)
}

/// A fetched series as text and bars.
pub open spec fn series_of<P>(fetched: Seq<(String, Vec<Bar<P>>)>) -> Seq<(Seq<char>, Seq<Bar<P>>)> {
    Seq::new(fetched.len(), |i: int| (fetched[i].0@, fetched[i].1@))
}

/// The symbols of a fetched series, in its order.
pub open spec fn symbols_of<P>(series: Seq<(Seq<char>, Seq<Bar<P>>)>) -> Seq<Seq<char>> {
    Seq::new(series.len(), |i: int| series[i].0)
}

/// What the library reads in an answer of the provider: the bars of a
/// success, as delivered, and of an error only that it is one.
pub open spec fn answer_of<P>(response: Result<Vec<Bar<P>>, ProviderError>) -> Option<Seq<Bar<P>>> {
    match response {
        Ok(bars) => Some(bars@),
        Err(_) => None,
    }
}

/// The series kept of a batch: for each answer that holds bars, in the order
/// of the answers, the symbol at the answer's position and those bars.
pub open spec fn kept_of<P>(symbols: Seq<Seq<char>>, answers: Seq<Option<Seq<Bar<P>>>>) -> Seq<
    (Seq<char>, Seq<Bar<P>>),
>
    decreases answers.len(),
{
    if answers.len() == 0 {
        Seq::empty()
    } else {
        let before = kept_of(symbols, answers.drop_last());
        match answers.last() {
            Some(bars) => before.push((symbols[answers.len() - 1], bars)),
            None => before,
        }
    }
}

/// The positions of the answers that hold bars, in increasing order.
pub open spec fn kept_positions<P>(answers: Seq<Option<Seq<Bar<P>>>>) -> Seq<int>
    decreases answers.len(),
{
    if answers.len() == 0 {
        Seq::empty()
    } else {
        let before = kept_positions(answers.drop_last());
        if answers.last() is Some {
            before.push(answers.len() - 1)
        } else {
            before
        }
    }
}

/// `picks` are positions in a sequence of length `bound`, strictly increasing.
pub open spec fn increasing_below(picks: Seq<int>, bound: int) -> bool {
    &&& forall|k: int| 0 <= k < picks.len() ==> 0 <= #[trigger] picks[k] < bound
    &&& forall|j: int, k: int| 0 <= j < k < picks.len() ==> picks[j] < picks[k]
}

/// `sub` is what is left of `full` when some of its items are taken out:
/// the items of `sub` are items of `full` at increasing positions.
pub open spec fn is_subsequence<A>(sub: Seq<A>, full: Seq<A>) -> bool {
    exists|picks: Seq<int>|
        {
            &&& increasing_below(picks, full.len() as int)
            &&& picks.len() == sub.len()
            &&& forall|k: int| 0 <= k < sub.len() ==> sub[k] == full[#[trigger] picks[k]]
        }
}

/// The series kept are those of the answers that hold bars, each with the
/// symbol at its answer's position, none left out and none twice, in the
/// order of the answers.
pub proof fn kept_follows_positions<P>(symbols: Seq<Seq<char>>, answers: Seq<Option<Seq<Bar<P>>>>)
    ensures
        increasing_below(kept_positions(answers), answers.len() as int),
        kept_positions(answers).len() == kept_of(symbols, answers).len(),
        forall|k: int|
            0 <= k < kept_of(symbols, answers).len() ==> answers[#[trigger] kept_positions(
                answers,
            )[k]] is Some && kept_of(symbols, answers)[k] == (
                symbols[kept_positions(answers)[k]],
                answers[kept_positions(answers)[k]]->Some_0,
            ),
        forall|i: int|
            0 <= i < answers.len() && (#[trigger] answers[i]) is Some ==> kept_positions(
                answers,
            ).contains(i),
    decreases answers.len(),
{
    if answers.len() > 0 {
        let earlier = answers.drop_last();
        let last = answers.len() - 1;
        kept_follows_positions(symbols, earlier);
        let before = kept_positions(earlier);
        let now = kept_positions(answers);
        assert forall|k: int| 0 <= k < before.len() implies now[k] == before[k] && answers[before[k]]
            == earlier[before[k]] by {}
        assert forall|i: int| 0 <= i < answers.len() && (#[trigger] answers[i]) is Some implies now.contains(
            i,
        ) by {
            if i < last {
                assert(earlier[i] is Some);
                let k = choose|k: int| 0 <= k < before.len() && before[k] == i;
                assert(now[k] == i);
            } else {
                assert(now[before.len() as int] == i);
            }
        }
    }
}

/// However the provider answers, the symbols of the series kept are a
/// subsequence of the symbols asked for: their order is that of the request.
pub proof fn kept_symbols_are_subsequence<P>(
    symbols: Seq<Seq<char>>,
    answers: Seq<Option<Seq<Bar<P>>>>,
)
    requires
        answers.len() <= symbols.len(),
    ensures
        is_subsequence(symbols_of(kept_of(symbols, answers)), symbols),
        kept_of(symbols, answers).len() <= answers.len(),
{
    kept_follows_positions(symbols, answers);
    let picks = kept_positions(answers);
    let sub = symbols_of(kept_of(symbols, answers));
    assert(increasing_below(picks, symbols.len() as int));
    assert forall|k: int| 0 <= k < sub.len() implies sub[k] == symbols[#[trigger] picks[k]] by {}
    positions_fit(picks, answers.len() as int);
}

/// Strictly increasing positions below `bound` are at most `bound` many.
proof fn positions_fit(picks: Seq<int>, bound: int)
    requires
        increasing_below(picks, bound),
        0 <= bound,
    ensures
        picks.len() <= bound,
    decreases picks.len(),
{
    if picks.len() > 0 {
        let earlier = picks.drop_last();
        let top = picks.last();
        assert forall|k: int| 0 <= k < earlier.len() implies 0 <= #[trigger] earlier[k] < top by {
            assert(earlier[k] == picks[k]);
        }
        assert forall|j: int, k: int| 0 <= j < k < earlier.len() implies earlier[j] < earlier[k] by {
            assert(earlier[j] == picks[j] && earlier[k] == picks[k]);
        }
        positions_fit(earlier, top);
    }
}

/// A batch of history requests under way: the symbols asked for, and the
/// series kept of the answers that have come so far.
pub struct BatchFetch<P> {
    horizon: Horizon,
    symbols: Vec<String>,
    answered: usize,
    kept: Vec<(String, Vec<Bar<P>>)>,
    answers: Ghost<Seq<Option<Seq<Bar<P>>>>>,
}

impl<P> BatchFetch<P> {
    /// The horizon of the batch.
    pub closed spec fn horizon(&self) -> Horizon {
        self.horizon
    }

    /// The symbols of the batch, in the order given.
    pub closed spec fn symbols(&self) -> Seq<Seq<char>> {
        texts(self.symbols@)
    }

    /// The answers recorded so far, in the order of the symbols.
    pub closed spec fn answers(&self) -> Seq<Option<Seq<Bar<P>>>> {
        self.answers@
    }

    /// How many symbols have had their answer recorded.
    pub open spec fn answered(&self) -> nat {
        self.answers().len()
    }

    /// The series kept so far, in the order of their requests.
    pub open spec fn kept(&self) -> Seq<(Seq<char>, Seq<Bar<P>>)> {
        kept_of(self.symbols(), self.answers())
    }

    /// The batch is consistent: it has no more answers than symbols, and it
    /// holds the series kept of its answers.
    pub closed spec fn wf(&self) -> bool {
        &&& self.answered <= self.symbols@.len()
        &&& self.answers@.len() == self.answered
        &&& series_of(self.kept@) == self.kept()
    }

    /// A consistent batch has no more answers than symbols, and the symbols of
    /// the series it has kept are a subsequence of its symbols.
    pub proof fn kept_is_subsequence(&self)
        requires
            self.wf(),
        ensures
            self.answered() <= self.symbols().len(),
            is_subsequence(symbols_of(self.kept()), self.symbols()),
    {
        kept_symbols_are_subsequence(self.symbols(), self.answers());
    }

    /// Starts a batch for `tickers` at `horizon`: nothing answered, nothing kept.
    pub fn new(tickers: &[String], horizon: Horizon) -> (batch: Self)
        ensures
            batch.wf(),
            batch.horizon() == horizon,
            batch.symbols() == texts(tickers@),
            batch.answers().len() == 0,
    {
        let mut symbols: Vec<String> = Vec::new();
        let mut i: usize = 0;
        while i < tickers.len()
            invariant
                i <= tickers@.len(),
                symbols@ == tickers@.take(i as int),
            decreases tickers@.len() - i,
        {
            symbols.push(tickers[i].clone());
            proof {
                assert(symbols@ =~= tickers@.take(i + 1));
            }
            i = i + 1;
        }
        proof {
            assert(tickers@.take(i as int) =~= tickers@);
        }
        let batch = BatchFetch {
            horizon,
            symbols,
            answered: 0,
            kept: Vec::new(),
            answers: Ghost(Seq::empty()),
        };
        proof {
            assert(series_of(batch.kept@) =~= batch.kept());
        }
        batch
    }

    /// Whether every symbol has been answered.
    pub fn is_done(&self) -> (done: bool)
        requires
            self.wf(),
        ensures
            done == (self.answered() == self.symbols().len()),
    {
        self.answered == self.symbols.len()
    }

    /// The request that is due: for the first symbol not yet answered, at the
    /// interval of the batch's horizon. `None` once every symbol is answered.
    pub fn next_request(&self) -> (request: Option<HistoryRequest>)
        requires
            self.wf(),
        ensures
            self.answered() == self.symbols().len() ==> request is None,
            self.answered() < self.symbols().len() ==> request is Some
                && request->Some_0.symbol@ == self.symbols()[self.answered() as int]
                && request->Some_0.interval == interval_of(self.horizon()),
            self.answered() <= self.symbols().len(),
    {
        if self.answered < self.symbols.len() {
            Some(
                HistoryRequest {
                    symbol: self.symbols[self.answered].clone(),
                    interval: self.horizon.interval(),
                },
            )
        } else {
            None
        }
    }

    /// Records the provider's answer to the request that was due.
    ///
    /// On success the symbol and its bars, as delivered, are put behind the
    /// series kept so far; on an error the symbol is left out. Either way the
    /// symbol counts as answered. Where no request was due the answer is
    /// ignored. The result says whether the series was kept.
    pub fn record(&mut self, response: Result<Vec<Bar<P>>, ProviderError>) -> (was_kept: bool)
        requires
            old(self).wf(),
        ensures
            final(self).wf(),
            final(self).horizon() == old(self).horizon(),
            final(self).symbols() == old(self).symbols(),
            old(self).answered() == old(self).symbols().len() ==> !was_kept && final(self).answers()
                == old(self).answers(),
            old(self).answered() < old(self).symbols().len() ==> was_kept == (response is Ok)
                && final(self).answers() == old(self).answers().push(answer_of(response)),
    {
        if self.answered >= self.symbols.len() {
            return false;
        }
        let at: usize = self.answered;
        let ghost answer = answer_of(response);
        proof {
            assert(self.answers@.push(answer).drop_last() =~= self.answers@);
        }
        self.answered = at + 1;
        self.answers = Ghost(self.answers@.push(answer));
        match response {
            Ok(bars) => {
                let symbol = self.symbols[at].clone();
                self.kept.push((symbol, bars));
                proof {
                    assert(series_of(self.kept@) =~= series_of(old(self).kept@).push(
                        (texts(self.symbols@)[at as int], bars@),
                    ));
                }
                true
            },
            Err(_) => false,
        }
    }

    /// Ends the batch and hands out the series kept, in the order of their
    /// requests: their symbols are a subsequence of the symbols of the batch.
    pub fn finish(self) -> (fetched: Vec<(String, Vec<Bar<P>>)>)
        requires
            self.wf(),
        ensures
            series_of(fetched@) == self.kept(),
            is_subsequence(symbols_of(series_of(fetched@)), self.symbols()),
    {
        proof {
            self.kept_is_subsequence();
        }
        self.kept
    }
}

/// Starts the batch that pulls long-term data, five years of it, for `tickers`.
pub fn pull_ticker_data_lt<P>(tickers: &[String]) -> (batch: BatchFetch<P>)
    ensures
        batch.wf(),
        batch.horizon() == Horizon::LongTerm,
        batch.symbols() == texts(tickers@),
        batch.answers().len() == 0,
{
    BatchFetch::new(tickers, Horizon::LongTerm)
}

/// Starts the batch that pulls short-term data, one month of it, for `tickers`.
pub fn pull_ticker_data_st<P>(tickers: &[String]) -> (batch: BatchFetch<P>)
    ensures
        batch.wf(),
        batch.horizon() == Horizon::ShortTerm,
        batch.symbols() == texts(tickers@),
        batch.answers().len() == 0,
{
    BatchFetch::new(tickers, Horizon::ShortTerm)
}

} // verus!
