//! What holds of the extractor and the pipeline across all inputs.
use vstd::prelude::*;
use crate::config::{ItemConfig, ScrapeRootConfig};
use crate::fetch::{
    after_cache_model, after_response_model, cache_in_use, cache_path, start_model, SessionModel, StepModel,
};
use crate::extract::{first_with_name, lemma_fields_yield_at, schema_names, tree_yields};
use crate::transform::{is_white_space, transformed, trim_end, trim_start, trimmed};
use crate::value::{item_is_blank, ReturnedData, ReturnedDataItem};

verus! {

/// A tree extracted with a schema has exactly the schema's field names.
pub proof fn law_tree_names(t: ReturnedData, html: Seq<char>, schema: Seq<(String, ItemConfig)>)
    requires
        tree_yields(t, html, schema),
    ensures
        t@.dom() == schema_names(schema),
{
}

/// In a tree extracted with a schema, a group field holds a list (possibly
/// empty) and a scalar field never does.
pub proof fn law_groups_yield_lists(
    t: ReturnedData,
    html: Seq<char>,
    schema: Seq<(String, ItemConfig)>,
    i: int,
)
    requires
        tree_yields(t, html, schema),
        0 <= i < schema.len(),
        first_with_name(schema, i),
    ensures
        t@.contains_key(schema[i].0@),
        schema[i].1.data is Some <==> t@[schema[i].0@] is DataItems,
{
    assert(schema_names(schema).contains(schema[i].0@));
    lemma_fields_yield_at(t@, html, schema, schema.len() as int, i);
}

proof fn lemma_trim_start_front(s: Seq<char>)
    ensures
        trim_start(s).len() == 0 || !is_white_space(trim_start(s)[0]),
    decreases s.len(),
{
    if s.len() > 0 && is_white_space(s[0]) {
        lemma_trim_start_front(s.drop_first());
    }
}

proof fn lemma_trim_end_back(s: Seq<char>)
    ensures
        trim_end(s).len() == 0 || !is_white_space(trim_end(s).last()),
    decreases s.len(),
{
    if s.len() > 0 && is_white_space(s.last()) {
        lemma_trim_end_back(s.drop_last());
    }
}

proof fn lemma_trim_end_keeps_front(s: Seq<char>)
    requires
        s.len() > 0,
        !is_white_space(s[0]),
    ensures
        trim_end(s).len() > 0,
        trim_end(s)[0] == s[0],
    decreases s.len(),
{
    if is_white_space(s.last()) {
        assert(s.len() > 1);
        assert(s.drop_last()[0] == s[0]);
        lemma_trim_end_keeps_front(s.drop_last());
    }
}

/// Trimming twice is trimming once.
pub proof fn law_trim_idempotent(s: Seq<char>)
    ensures
        trimmed(trimmed(s)) == trimmed(s),
{
    let a = trim_start(s);
    let b = trim_end(a);
    lemma_trim_start_front(s);
    lemma_trim_end_back(a);
    if a.len() > 0 {
        lemma_trim_end_keeps_front(a);
    }
    assert(trim_start(b) == b);
    assert(trim_end(b) == b);
}

/// With markup stripping, regex extraction, replacement and case folding all
/// off, transforming a value twice gives what transforming it once gives.
pub proof fn law_transform_idempotent(s: Seq<char>, config: ItemConfig)
    requires
        !config.strip_html,
        config.regex is None,
        config.replace is None,
        !config.uppercase,
        !config.lowercase,
    ensures
        transformed(transformed(s, config), config) == transformed(s, config),
{
    law_trim_idempotent(s);
}

/// A tree with a number or a boolean under some name is not empty, whatever
/// the value (zero and `false` included).
pub proof fn law_numbers_and_booleans_are_content(t: ReturnedData, k: Seq<char>)
    requires
        t@.contains_key(k),
        t@[k] is NumberItem || t@[k] is BoolItem,
    ensures
        !t.spec_is_empty_result(),
{
    assert(!item_is_blank(t@[k]));
}

/// A tree whose every value is empty text or an empty list is empty.
pub proof fn law_blank_values_make_empty_tree(t: ReturnedData)
    requires
        forall|k: Seq<char>|
            #[trigger] t@.contains_key(k) ==> (t@[k] matches ReturnedDataItem::StringItem(s) && s@.len()
                == 0) || (t@[k] matches ReturnedDataItem::DataItems(v) && v@.len() == 0),
    ensures
        t.spec_is_empty_result(),
{
}

/// Caching round trip: with the cache in use, a first fetch that misses the
/// cache and gets a response stores it in the file that a second fetch of
/// the same URL reads first; when that file is there, the second fetch
/// returns it with no request made.
pub proof fn law_cache_round_trip(url: Seq<char>, config: ScrapeRootConfig)
    requires
        cache_in_use(config),
    ensures
        ({
            let p = cache_path(url, config.cache_dir->0@);
            let first = start_model(url, config);
            let fetched = after_response_model(after_cache_model(first.0, false).0, true);
            let second = start_model(url, config);
            let hit = after_cache_model(second.0, true);
            &&& fetched.1 == StepModel::StoreThenReturn(p)
            &&& second.1 == StepModel::ReadCache(p)
            &&& hit.1 == StepModel::Return
            &&& hit.0.attempts == 0
        }),
{
}

/// The state of a fetch after `k` transport failures in a row.
pub open spec fn after_failures(s: SessionModel, k: nat) -> SessionModel
    decreases k,
{
    if k == 0 {
        s
    } else {
        after_response_model(after_failures(s, (k - 1) as nat), false).0
    }
}

/// Retries: without the cache, a fetch whose first `k` attempts fail
/// (`k` at most `retries`) has made `k + 1` attempts; each of those
/// failures led to a wait and a new attempt, and a response then is returned
/// with no further wait. The failure after `retries + 1` attempts ends the
/// fetch.
pub proof fn law_retry_attempts(url: Seq<char>, config: ScrapeRootConfig, k: nat)
    requires
        !cache_in_use(config),
        k <= config.retries,
    ensures
        ({
            let s0 = start_model(url, config).0;
            let sk = after_failures(s0, k);
            &&& start_model(url, config).1 == StepModel::Send
            &&& sk.attempts == k + 1
            &&& after_response_model(sk, true) == (sk, StepModel::Return)
            &&& k < config.retries ==> after_response_model(sk, false).1 == StepModel::WaitThenSend
            &&& k == config.retries ==> after_response_model(sk, false).1 == StepModel::Fail
        }),
    decreases k,
{
    let s0 = start_model(url, config).0;
    if k > 0 {
        law_retry_attempts(url, config, (k - 1) as nat);
    }
    lemma_failures_keep(s0, k);
}

proof fn lemma_failures_keep(s: SessionModel, k: nat)
    ensures
        after_failures(s, k).cache == s.cache,
        after_failures(s, k).max_attempts == s.max_attempts,
    decreases k,
{
    if k > 0 {
        lemma_failures_keep(s, (k - 1) as nat);
    }
}

} // verus!
