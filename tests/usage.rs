use terminal_host::usage::{sum_tokens, ModelTokens, TokenTotals};

fn model(i: Option<u64>, o: Option<u64>, r: Option<u64>, c: Option<u64>) -> ModelTokens {
    ModelTokens {
        input_tokens: i,
        output_tokens: o,
        cache_read_input_tokens: r,
        cache_creation_input_tokens: c,
    }
}

#[test]
fn totals_sum_over_models_with_missing_as_zero() {
    let ms = vec![
        model(Some(100), Some(20), None, Some(5)),
        model(Some(1), None, Some(300), Some(7)),
    ];
    assert_eq!(
        sum_tokens(&ms),
        Some(TokenTotals {
            input_tokens: 101,
            output_tokens: 20,
            cache_read_input_tokens: 300,
            cache_creation_input_tokens: 12,
        })
    );
}

#[test]
fn no_models_give_zero_totals() {
    let t = sum_tokens(&Vec::new()).unwrap();
    assert_eq!(t.input_tokens + t.output_tokens, 0);
    assert_eq!(t.cache_read_input_tokens + t.cache_creation_input_tokens, 0);
}

#[test]
fn totals_that_overflow_are_refused() {
    let ms = vec![model(None, Some(u64::MAX), None, None), model(None, Some(1), None, None)];
    assert_eq!(sum_tokens(&ms), None);
    let fits = vec![model(None, Some(u64::MAX - 1), None, None), model(None, Some(1), None, None)];
    assert_eq!(sum_tokens(&fits).map(|t| t.output_tokens), Some(u64::MAX));
}
