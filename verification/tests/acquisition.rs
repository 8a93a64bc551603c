use ticker_data::acquisition::{
    pull_ticker_data_lt, pull_ticker_data_st, validate_ticker, validation_request, BatchFetch,
    HistoryRequest, Horizon, Interval, ProviderError,
};
use ticker_data::bars::{unpack_bars_close, Bar};

fn bar(timestamp: i64, close: f64) -> Bar<f64> {
    Bar { timestamp, open: close, high: close, low: close, close, volume: 100 }
}

/// A provider that knows AAPL and MSFT and fails on everything else.
fn provider(request: &HistoryRequest) -> Result<Vec<Bar<f64>>, ProviderError> {
    match request.symbol.as_str() {
        "AAPL" => Ok(vec![bar(1, 190.0), bar(2, 191.5)]),
        "MSFT" => Ok(vec![bar(1, 410.25)]),
        "" => Err(ProviderError::Provider),
        _ => Err(ProviderError::Provider),
    }
}

fn run(mut batch: BatchFetch<f64>, asked: &mut Vec<HistoryRequest>) -> Vec<(String, Vec<Bar<f64>>)> {
    while let Some(request) = batch.next_request() {
        let response = provider(&request);
        asked.push(request);
        batch.record(response);
    }
    assert!(batch.is_done());
    batch.finish()
}

fn symbols(list: &[&str]) -> Vec<String> {
    list.iter().map(|s| s.to_string()).collect()
}

#[test]
fn test_data_sourcing() {
    let aapl_ok: Result<Vec<Bar<f64>>, ProviderError> = provider(&validation_request("AAPL"));
    let notreal: Result<Vec<Bar<f64>>, ProviderError> = provider(&validation_request("NOTREAL"));
    assert!(validate_ticker(&aapl_ok));
    assert!(!validate_ticker(&notreal));

    let aapl = String::from("AAPL");
    let msft = String::from("MSFT");
    let tickers: &[String] = &[aapl.clone(), msft.clone()];

    let mut asked = Vec::new();
    let st_data = run(pull_ticker_data_st(tickers), &mut asked);
    assert_eq!(st_data.len(), 2);
    for (_name, data) in &st_data {
        assert!(!data.is_empty());
        let recent_day = data.first().unwrap();
        assert!(recent_day.close > 0.0);
    }

    let lt_data = run(pull_ticker_data_lt(tickers), &mut asked);
    assert_eq!(lt_data.len(), 2);
    for (_name, data) in &lt_data {
        assert!(!data.is_empty());
        let recent_day = data.first().unwrap();
        assert!(recent_day.close > 0.0);
    }

    for (name, data) in &st_data {
        let closes = unpack_bars_close(name, data.clone());
        assert!(closes.is_ok());
        let closes = closes.unwrap();
        assert_eq!(closes.len(), data.len());
        assert!(closes.iter().all(|&x| x > 0.0));
    }

    let empty_bars: Vec<Bar<f64>> = Vec::new();
    assert!(unpack_bars_close("TEST", empty_bars).is_err());
}

#[test]
fn interval_codes() {
    assert_eq!(Interval::OneMinute.code(), "1m");
    assert_eq!(Interval::OneMonth.code(), "1mo");
    assert_eq!(Interval::FiveYears.code(), "5y");
}

#[test]
fn horizons_have_their_intervals() {
    assert_eq!(Horizon::ShortTerm.interval(), Interval::OneMonth);
    assert_eq!(Horizon::LongTerm.interval(), Interval::FiveYears);
}

#[test]
fn validation_asks_for_one_minute() {
    let request = validation_request("AAPL");
    assert_eq!(request, HistoryRequest { symbol: "AAPL".to_string(), interval: Interval::OneMinute });
}

#[test]
fn validation_accepts_any_success() {
    let empty: Result<Vec<Bar<f64>>, ProviderError> = Ok(Vec::new());
    assert!(validate_ticker(&empty));
    let unit: Result<(), ProviderError> = Ok(());
    assert!(validate_ticker(&unit));
}

#[test]
fn validation_rejects_every_error() {
    for error in [ProviderError::Transport, ProviderError::Provider, ProviderError::Timeout] {
        let response: Result<Vec<Bar<f64>>, ProviderError> = Err(error);
        assert!(!validate_ticker(&response));
    }
}

#[test]
fn empty_symbol_rejected_by_provider_is_invalid() {
    let request = validation_request("");
    assert_eq!(request.symbol, "");
    assert!(!validate_ticker(&provider(&request)));
}

#[test]
fn short_term_batch_keeps_both_in_order() {
    let tickers = symbols(&["AAPL", "MSFT"]);
    let mut asked = Vec::new();
    let fetched = run(pull_ticker_data_st(&tickers), &mut asked);
    assert_eq!(fetched.len(), 2);
    assert_eq!(fetched[0].0, "AAPL");
    assert_eq!(fetched[1].0, "MSFT");
    assert_eq!(fetched[0].1, vec![bar(1, 190.0), bar(2, 191.5)]);
    assert_eq!(fetched[1].1, vec![bar(1, 410.25)]);
    for (symbol, bars) in &fetched {
        let closes = unpack_bars_close(symbol, bars.clone()).unwrap();
        assert!(closes.iter().all(|&c| c > 0.0));
    }
    assert_eq!(
        asked,
        vec![
            HistoryRequest { symbol: "AAPL".to_string(), interval: Interval::OneMonth },
            HistoryRequest { symbol: "MSFT".to_string(), interval: Interval::OneMonth },
        ]
    );
}

#[test]
fn long_term_batch_drops_the_failed_symbol() {
    let tickers = symbols(&["AAPL", "XXX"]);
    let mut asked = Vec::new();
    let fetched = run(pull_ticker_data_lt(&tickers), &mut asked);
    assert_eq!(fetched.len(), 1);
    assert_eq!(fetched[0].0, "AAPL");
    assert_eq!(asked.len(), 2);
    assert_eq!(asked[0].interval, Interval::FiveYears);
    assert_eq!(asked[1], HistoryRequest { symbol: "XXX".to_string(), interval: Interval::FiveYears });
}

#[test]
fn empty_batch_asks_nothing() {
    let tickers: Vec<String> = Vec::new();
    let short: BatchFetch<f64> = pull_ticker_data_st(&tickers);
    assert!(short.is_done());
    assert!(short.next_request().is_none());
    assert!(short.finish().is_empty());
    let mut asked = Vec::new();
    assert!(run(pull_ticker_data_lt(&tickers), &mut asked).is_empty());
    assert!(asked.is_empty());
}

#[test]
fn batch_of_failures_is_empty() {
    let tickers = symbols(&["XXX", "YYY"]);
    let mut asked = Vec::new();
    assert!(run(pull_ticker_data_st(&tickers), &mut asked).is_empty());
    assert_eq!(asked.len(), 2);
}

#[test]
fn duplicates_are_fetched_twice() {
    let tickers = symbols(&["AAPL", "AAPL"]);
    let mut asked = Vec::new();
    let fetched = run(pull_ticker_data_st(&tickers), &mut asked);
    assert_eq!(asked.len(), 2);
    assert_eq!(fetched.len(), 2);
    assert_eq!(fetched[0], fetched[1]);
}

#[test]
fn kept_symbols_are_a_subsequence_of_the_input() {
    let tickers = symbols(&["XXX", "MSFT", "NOPE", "AAPL", "MSFT", "ZZZ"]);
    let mut asked = Vec::new();
    let fetched = run(BatchFetch::new(&tickers, Horizon::LongTerm), &mut asked);
    let kept: Vec<&str> = fetched.iter().map(|(s, _)| s.as_str()).collect();
    assert_eq!(kept, vec!["MSFT", "AAPL", "MSFT"]);
    let asked_symbols: Vec<String> = asked.into_iter().map(|r| r.symbol).collect();
    assert_eq!(asked_symbols, tickers);
}

#[test]
fn record_says_whether_the_series_was_kept() {
    let tickers = symbols(&["AAPL", "XXX"]);
    let mut batch: BatchFetch<f64> = BatchFetch::new(&tickers, Horizon::ShortTerm);
    assert!(!batch.is_done());
    assert!(batch.record(Ok(vec![bar(1, 1.0)])));
    assert!(!batch.record(Err(ProviderError::Timeout)));
    assert!(batch.is_done());
    assert!(batch.next_request().is_none());
    assert_eq!(batch.finish(), vec![("AAPL".to_string(), vec![bar(1, 1.0)])]);
}

#[test]
fn answer_without_a_request_is_ignored() {
    let tickers = symbols(&["AAPL"]);
    let mut batch: BatchFetch<f64> = BatchFetch::new(&tickers, Horizon::ShortTerm);
    assert!(batch.record(Ok(vec![bar(1, 1.0)])));
    assert!(!batch.record(Ok(vec![bar(2, 2.0)])));
    assert!(batch.is_done());
    assert_eq!(batch.finish().len(), 1);
}

#[test]
fn empty_series_from_the_provider_is_kept() {
    let tickers = symbols(&["AAPL"]);
    let mut batch: BatchFetch<f64> = BatchFetch::new(&tickers, Horizon::LongTerm);
    assert!(batch.record(Ok(Vec::new())));
    let fetched = batch.finish();
    assert_eq!(fetched, vec![("AAPL".to_string(), Vec::new())]);
    assert_eq!(
        unpack_bars_close(&fetched[0].0, fetched[0].1.clone()).unwrap_err(),
        "Ticker AAPL has no data"
    );
}

#[test]
fn unfinished_batch_hands_out_what_it_kept() {
    let tickers = symbols(&["AAPL", "MSFT"]);
    let mut batch: BatchFetch<f64> = BatchFetch::new(&tickers, Horizon::LongTerm);
    batch.record(Ok(vec![bar(1, 1.0)]));
    assert_eq!(batch.next_request().unwrap().symbol, "MSFT");
    assert_eq!(batch.finish().len(), 1);
}
