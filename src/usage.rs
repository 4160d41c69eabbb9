//! Token counts of a usage report, summed over its models.
use vstd::prelude::*;

verus! {

/// The token counts one model reports; a count it leaves out counts as 0.
#[derive(Debug, Clone, Copy, PartialEq, Eq, Structural)]
pub struct ModelTokens {
    pub input_tokens: Option<u64>,
    pub output_tokens: Option<u64>,
    pub cache_read_input_tokens: Option<u64>,
    pub cache_creation_input_tokens: Option<u64>,
}

/// Token counts summed over models.
#[derive(Debug, Clone, Copy, PartialEq, Eq, Structural)]
pub struct TokenTotals {
    pub input_tokens: u64,
    pub output_tokens: u64,
    pub cache_read_input_tokens: u64,
    pub cache_creation_input_tokens: u64,
}

/// A reported count, with 0 for one left out.
pub open spec fn reported(c: Option<u64>) -> int {
    match c {
        Some(n) => n as int,
        None => 0,
    }
}

/// The sum over `ms` of the count that `pick` selects.
pub open spec fn sum_of(ms: Seq<ModelTokens>, pick: spec_fn(ModelTokens) -> Option<u64>) -> int
    decreases ms.len(),
{
    if ms.len() == 0 {
        0
    } else {
        sum_of(ms.drop_last(), pick) + reported(pick(ms.last()))
    }
}

pub open spec fn pick_input(m: ModelTokens) -> Option<u64> {
    m.input_tokens
}

pub open spec fn pick_output(m: ModelTokens) -> Option<u64> {
    m.output_tokens
}

pub open spec fn pick_cache_read(m: ModelTokens) -> Option<u64> {
    m.cache_read_input_tokens
}

pub open spec fn pick_cache_creation(m: ModelTokens) -> Option<u64> {
    m.cache_creation_input_tokens
}

/// Whether every total over `ms` fits in a `u64`.
pub open spec fn totals_fit(ms: Seq<ModelTokens>) -> bool {
    &&& sum_of(ms, |m| pick_input(m)) <= u64::MAX
    &&& sum_of(ms, |m| pick_output(m)) <= u64::MAX
    &&& sum_of(ms, |m| pick_cache_read(m)) <= u64::MAX
    &&& sum_of(ms, |m| pick_cache_creation(m)) <= u64::MAX
}

proof fn lemma_sum_grows(ms: Seq<ModelTokens>, pick: spec_fn(ModelTokens) -> Option<u64>, i: int)
    requires
        0 <= i <= ms.len(),
    ensures
        sum_of(ms.subrange(0, i), pick) <= sum_of(ms, pick),
    decreases ms.len() - i,
{
    if i < ms.len() {
        lemma_sum_grows(ms, pick, i + 1);
        assert(ms.subrange(0, i + 1).drop_last() =~= ms.subrange(0, i));
    } else {
        assert(ms.subrange(0, i) =~= ms);
    }
}

/// Adds two counts where the sum fits.
fn add_count(total: u64, c: Option<u64>) -> (r: Option<u64>)
    ensures
        total + reported(c) <= u64::MAX ==> r == Some((total + reported(c)) as u64),
        total + reported(c) > u64::MAX ==> r is None,
{
    match c {
        Some(n) => total.checked_add(n),
        None => Some(total),
    }
}

/// The totals of each token count over `models`, or `None` where one of them
/// does not fit in a `u64`.
pub fn sum_tokens(models: &Vec<ModelTokens>) -> (r: Option<TokenTotals>)
    ensures
        totals_fit(models@) <==> r is Some,
        r matches Some(t) ==> {
            &&& t.input_tokens == sum_of(models@, |m| pick_input(m))
            &&& t.output_tokens == sum_of(models@, |m| pick_output(m))
            &&& t.cache_read_input_tokens == sum_of(models@, |m| pick_cache_read(m))
            &&& t.cache_creation_input_tokens == sum_of(models@, |m| pick_cache_creation(m))
        },
{
    let ghost ms = models@;
    let mut t = TokenTotals {
        input_tokens: 0,
        output_tokens: 0,
        cache_read_input_tokens: 0,
        cache_creation_input_tokens: 0,
    };
    let mut i: usize = 0;
    while i < models.len()
        invariant
            0 <= i <= ms.len(),
            ms == models@,
            t.input_tokens == sum_of(ms.subrange(0, i as int), |m| pick_input(m)),
            t.output_tokens == sum_of(ms.subrange(0, i as int), |m| pick_output(m)),
            t.cache_read_input_tokens == sum_of(ms.subrange(0, i as int), |m| pick_cache_read(m)),
            t.cache_creation_input_tokens == sum_of(
                ms.subrange(0, i as int),
                |m| pick_cache_creation(m),
            ),
        decreases ms.len() - i,
    {
        let m = models[i];
        let ghost pre = ms.subrange(0, i as int);
        let ghost next = ms.subrange(0, i + 1);
        assert(next.drop_last() =~= pre);
        proof {
            lemma_sum_grows(ms, |m| pick_input(m), i + 1);
            lemma_sum_grows(ms, |m| pick_output(m), i + 1);
            lemma_sum_grows(ms, |m| pick_cache_read(m), i + 1);
            lemma_sum_grows(ms, |m| pick_cache_creation(m), i + 1);
        }
        let a = match add_count(t.input_tokens, m.input_tokens) {
            Some(v) => v,
            None => return None,
        };
        let b = match add_count(t.output_tokens, m.output_tokens) {
            Some(v) => v,
            None => return None,
        };
        let c = match add_count(t.cache_read_input_tokens, m.cache_read_input_tokens) {
            Some(v) => v,
            None => return None,
        };
        let d = match add_count(t.cache_creation_input_tokens, m.cache_creation_input_tokens) {
            Some(v) => v,
            None => return None,
        };
        t = TokenTotals {
            input_tokens: a,
            output_tokens: b,
            cache_read_input_tokens: c,
            cache_creation_input_tokens: d,
        };
        i = i + 1;
    }
    assert(ms.subrange(0, ms.len() as int) =~= ms);
    Some(t)
}

} // verus!
