//! Bars of a price history and their projection to closing prices.

use vstd::prelude::*;
use vstd::string::StringExecFns;

verus! {

/// One point of a historical series of one symbol.
///
/// The price type `P` is chosen by the caller; the library stores and moves
/// prices and never computes with them.
#[derive(Clone, Copy, Debug, PartialEq)]
pub struct Bar<P> {
    /// Milliseconds since the Unix epoch, usually the time at open.
    pub timestamp: i64,
    pub open: P,
    pub high: P,
    pub low: P,
    pub close: P,
    pub volume: u64,
}

/// The closing prices of `bars`, position by position.
pub open spec fn closes_of<P>(bars: Seq<Bar<P>>) -> Seq<P> {
    Seq::new(bars.len(), |i: int| bars[i].close)
}

/// The text of the error that reports an empty series for `ticker`.
pub open spec fn no_data_message(ticker: Seq<char>) -> Seq<char> {
    "Ticker "@ + ticker + " has no data"@
}

/// The message for a ticker holds the ticker, whole, behind its first word.
pub proof fn no_data_message_names_ticker(ticker: Seq<char>)
    ensures
        no_data_message(ticker).len() == "Ticker "@.len() + ticker.len() + " has no data"@.len(),
        no_data_message(ticker).subrange(
            "Ticker "@.len() as int,
            ("Ticker "@.len() + ticker.len()) as int,
        ) == ticker,
{
    let start = "Ticker "@.len() as int;
    assert(no_data_message(ticker).subrange(start, start + ticker.len() as int) =~= ticker);
}

/// Builds the message of [`no_data_message`].
fn no_data_text(ticker: &str) -> (msg: String)
    ensures
        msg@ == no_data_message(ticker@),
{
    let mut msg = String::from_str("Ticker ");
    msg.append(ticker);
    msg.append(" has no data");
    msg
}

/// Projects a bar series to its closing prices.
///
/// An empty series is an error whose message names `ticker`; otherwise the
/// result has one price per bar, in the order of the bars.
pub fn unpack_bars_close<P: Copy>(ticker: &str, data: Vec<Bar<P>>) -> (result: Result<
    Vec<P>,
    String,
>)
    ensures
        data@.len() == 0 ==> result is Err && result->Err_0@ == no_data_message(ticker@),
        data@.len() > 0 ==> result is Ok && result->Ok_0@ == closes_of(data@),
{
    if data.len() == 0 {
        return Err(no_data_text(ticker));
    }
    let mut closes: Vec<P> = Vec::new();
    let mut i: usize = 0;
    while i < data.len()
        invariant
            i <= data@.len(),
            closes@ == closes_of(data@.take(i as int)),
        decreases data@.len() - i,
    {
        closes.push(data[i].close);
        proof {
            assert(closes@ =~= closes_of(data@.take(i + 1)));
        }
        i = i + 1;
    }
    proof {
        assert(data@.take(i as int) =~= data@);
    }
    Ok(closes)
}

/// A projection keeps the length of the series and the place of each price.
pub proof fn closes_keep_positions<P>(bars: Seq<Bar<P>>)
    ensures
        closes_of(bars).len() == bars.len(),
        forall|i: int| 0 <= i < bars.len() ==> #[trigger] closes_of(bars)[i] == bars[i].close,
{
}

} // verus!
