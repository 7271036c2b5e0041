//! The tree extractor: a schema applied to a fragment gives a result tree
//! of the same shape.
use vstd::prelude::*;
use crate::config::{ConfigError, DataConfig, ItemConfig};
use crate::html::{
    attr_matches, inner_html_matches, outer_html_matches, select_attr, select_inner_html,
    select_outer_html, selector_is_valid, selector_parses,
};
use crate::transform::{apply_transformations, coerce_value, coerced, is_float_literal, transformed, trimmed};
use crate::value::{item_is_blank, ReturnedData, ReturnedDataItem};

verus! {

/// The names that the first `n` fields of a schema define.
pub open spec fn names_prefix(schema: Seq<(String, ItemConfig)>, n: int) -> Set<Seq<char>> {
    Set::new(|k: Seq<char>| exists|j: int| 0 <= j < n && #[trigger] schema[j].0@ == k)
}

/// The names that a schema defines.
pub open spec fn schema_names(schema: Seq<(String, ItemConfig)>) -> Set<Seq<char>> {
    names_prefix(schema, schema.len() as int)
}

/// Field `i` is the first of the schema with its name.
pub open spec fn first_with_name(schema: Seq<(String, ItemConfig)>, i: int) -> bool {
    forall|j: int| 0 <= j < i ==> schema[j].0@ != schema[i].0@
}

/// Every selector of a field, nested schemas included, is valid CSS.
pub open spec fn selectors_ok(config: ItemConfig) -> bool
    decreases config, 0int, 0int,
{
    selector_parses(config.selector@) && match config.data {
        Some(inner) => schema_selectors_ok(inner@, inner@.len() as int),
        None => true,
    }
}

/// Every selector of the first `n` fields is valid CSS.
pub open spec fn schema_selectors_ok(schema: Seq<(String, ItemConfig)>, n: int) -> bool
    decreases schema, 1int, n,
{
    if n <= 0 || n > schema.len() {
        n <= 0
    } else {
        schema_selectors_ok(schema, n - 1) && selectors_ok(schema[n - 1].1)
    }
}

/// The raw text of a scalar field: the attribute or the inner markup of the
/// `nth` match, or the default (empty when none) if there is no such match.
/// A missing attribute reads as empty text.
pub open spec fn raw_value(fragment: Seq<char>, config: ItemConfig) -> Seq<char> {
    let fallback = match config.default {
        Some(d) => d@,
        None => Seq::<char>::empty(),
    };
    let n = config.nth as int;
    match config.attr {
        Some(a) => {
            let values = attr_matches(fragment, config.selector@, a@);
            if n < values.len() {
                match values[n] {
                    Some(x) => x,
                    None => Seq::<char>::empty(),
                }
            } else {
                fallback
            }
        },
        None => {
            let inner = inner_html_matches(fragment, config.selector@);
            if n < inner.len() {
                inner[n]
            } else {
                fallback
            }
        },
    }
}

/// `v` is what a field yields on `fragment`: for a group field, one tree per
/// match of its selector, in document order; for a scalar field, the
/// transformed and coerced raw value.
pub open spec fn field_yields(v: ReturnedDataItem, fragment: Seq<char>, config: ItemConfig) -> bool
    decreases config, 0int, 0int,
{
    match config.data {
        Some(inner) => match v {
            ReturnedDataItem::DataItems(trees) => {
                let outers = outer_html_matches(fragment, config.selector@);
                trees@.len() == outers.len() && trees_yield(trees@, outers, inner@)
            },
            _ => false,
        },
        None => coerced(v, transformed(raw_value(fragment, config), config), config),
    }
}

/// Each tree is what `schema` yields on the matching fragment.
pub open spec fn trees_yield(
    trees: Seq<ReturnedData>,
    fragments: Seq<Seq<char>>,
    schema: Seq<(String, ItemConfig)>,
) -> bool
    decreases schema, 3int, trees.len(),
{
    if trees.len() == 0 {
        true
    } else {
        trees_yield(trees.drop_last(), fragments, schema) && tree_yields(
            trees.last(),
            fragments[trees.len() - 1],
            schema,
        )
    }
}

/// `t` is the tree that `schema` yields on `fragment`: exactly the schema's
/// names, each with the value of the first field of that name.
pub open spec fn tree_yields(t: ReturnedData, fragment: Seq<char>, schema: Seq<(String, ItemConfig)>) -> bool
    decreases schema, 2int, 0int,
{
    &&& t.wf()
    &&& t@.dom() == schema_names(schema)
    &&& fields_yield(t@, fragment, schema, schema.len() as int)
}

/// The first `n` fields have their values in `m` (first of a name wins).
pub open spec fn fields_yield(
    m: Map<Seq<char>, ReturnedDataItem>,
    fragment: Seq<char>,
    schema: Seq<(String, ItemConfig)>,
    n: int,
) -> bool
    decreases schema, 1int, n,
{
    if n <= 0 || n > schema.len() {
        n <= 0
    } else {
        fields_yield(m, fragment, schema, n - 1) && (first_with_name(schema, n - 1) ==> field_yields(
            m[schema[n - 1].0@],
            fragment,
            schema[n - 1].1,
        ))
    }
}

proof fn lemma_fields_yield_extend(
    m1: Map<Seq<char>, ReturnedDataItem>,
    m2: Map<Seq<char>, ReturnedDataItem>,
    fragment: Seq<char>,
    schema: Seq<(String, ItemConfig)>,
    n: int,
)
    requires
        n <= schema.len(),
        forall|j: int| 0 <= j < n ==> m1.contains_key(#[trigger] schema[j].0@),
        forall|k: Seq<char>| #[trigger] m1.contains_key(k) ==> m2.contains_key(k) && m2[k] == m1[k],
        fields_yield(m1, fragment, schema, n),
    ensures
        fields_yield(m2, fragment, schema, n),
    decreases n,
{
    if n > 0 {
        lemma_fields_yield_extend(m1, m2, fragment, schema, n - 1);
    }
}

pub(crate) proof fn lemma_fields_yield_at(
    m: Map<Seq<char>, ReturnedDataItem>,
    fragment: Seq<char>,
    schema: Seq<(String, ItemConfig)>,
    n: int,
    i: int,
)
    requires
        0 <= i < n <= schema.len(),
        fields_yield(m, fragment, schema, n),
        first_with_name(schema, i),
    ensures
        field_yields(m[schema[i].0@], fragment, schema[i].1),
    decreases n,
{
    if i < n - 1 {
        lemma_fields_yield_at(m, fragment, schema, n - 1, i);
    }
}

/// The first field of the schema with the name of field `j`.
proof fn lemma_first_index(schema: Seq<(String, ItemConfig)>, j: int) -> (i: int)
    requires
        0 <= j < schema.len(),
    ensures
        0 <= i <= j,
        first_with_name(schema, i),
        schema[i].0@ == schema[j].0@,
    decreases j,
{
    if first_with_name(schema, j) {
        j
    } else {
        let k = choose|k: int| 0 <= k < j && schema[k].0@ == schema[j].0@;
        lemma_first_index(schema, k)
    }
}

/// A field yields no content on `fragment`: a group field with no match, or
/// a scalar field whose value is empty text.
pub open spec fn field_yields_blank(fragment: Seq<char>, config: ItemConfig) -> bool {
    match config.data {
        Some(_) => outer_html_matches(fragment, config.selector@).len() == 0,
        None => {
            let t = transformed(raw_value(fragment, config), config);
            if config.to_number {
                !is_float_literal(trimmed(t)) && t.len() == 0
            } else if config.to_boolean {
                false
            } else {
                t.len() == 0
            }
        },
    }
}

/// The schema extracts an empty tree from `fragment`.
pub open spec fn page_yields_empty(fragment: Seq<char>, schema: Seq<(String, ItemConfig)>) -> bool {
    forall|i: int|
        0 <= i < schema.len() && first_with_name(schema, i) ==> #[trigger] field_yields_blank(
            fragment,
            schema[i].1,
        )
}

/// A tree that a schema yields is empty exactly when the page yields empty.
pub proof fn lemma_emptiness_of_yield(t: ReturnedData, fragment: Seq<char>, schema: Seq<(String, ItemConfig)>)
    requires
        tree_yields(t, fragment, schema),
    ensures
        t.spec_is_empty_result() == page_yields_empty(fragment, schema),
{
    let n = schema.len() as int;
    assert forall|i: int| 0 <= i < n && first_with_name(schema, i) implies t@.contains_key(
        schema[i].0@,
    ) && (item_is_blank(t@[schema[i].0@]) == field_yields_blank(fragment, schema[i].1)) by {
        assert(schema_names(schema).contains(schema[i].0@));
        lemma_fields_yield_at(t@, fragment, schema, n, i);
    }
    if t.spec_is_empty_result() {
        assert forall|i: int| 0 <= i < n && first_with_name(schema, i) implies #[trigger] field_yields_blank(
            fragment,
            schema[i].1,
        ) by {
            assert(t@.contains_key(schema[i].0@));
        }
    }
    if page_yields_empty(fragment, schema) {
        assert forall|k: Seq<char>| #[trigger] t@.contains_key(k) implies item_is_blank(t@[k]) by {
            assert(schema_names(schema).contains(k));
            let j = choose|j: int| 0 <= j < n && #[trigger] schema[j].0@ == k;
            let i = lemma_first_index(schema, j);
            assert(field_yields_blank(fragment, schema[i].1));
        }
    }
}

/// Checks every selector of a field, nested schemas included.
fn check_field_selectors(config: &ItemConfig) -> (r: Result<(), ConfigError>)
    ensures
        r is Ok <==> selectors_ok(*config),
        r matches Err(e) ==> e matches ConfigError::InvalidSelector(s) && !selector_parses(s@),
    decreases *config, 0int, 0int,
{
    if !selector_is_valid(config.selector.as_str()) {
        return Err(ConfigError::InvalidSelector(config.selector.clone()));
    }
    match &config.data {
        Some(inner) => check_schema_selectors(inner),
        None => Ok(()),
    }
}

/// Checks every selector of a schema, nested schemas included.
pub fn check_schema_selectors(schema: &DataConfig) -> (r: Result<(), ConfigError>)
    ensures
        r is Ok <==> schema_selectors_ok(schema@, schema@.len() as int),
        r matches Err(e) ==> e matches ConfigError::InvalidSelector(s) && !selector_parses(s@),
    decreases schema@, 1int, 0int,
{
    let mut i: usize = 0;
    while i < schema.len()
        invariant
            i <= schema@.len(),
            schema_selectors_ok(schema@, i as int),
        decreases schema@.len() - i,
    {
        let r = check_field_selectors(&schema[i].1);
        if r.is_err() {
            proof {
                if schema_selectors_ok(schema@, schema@.len() as int) {
                    lemma_selectors_prefix(schema@, i as int + 1, schema@.len() as int);
                }
            }
            return r;
        }
        i = i + 1;
    }
    Ok(())
}

proof fn lemma_selectors_prefix(schema: Seq<(String, ItemConfig)>, i: int, n: int)
    requires
        0 <= i <= n <= schema.len(),
        schema_selectors_ok(schema, n),
    ensures
        schema_selectors_ok(schema, i),
    decreases n - i,
{
    if i < n {
        lemma_selectors_prefix(schema, i, n - 1);
    }
}

/// The value of one field on a fragment.
fn extract_field(fragment: &str, config: &ItemConfig) -> (r: ReturnedDataItem)
    requires
        selectors_ok(*config),
    ensures
        field_yields(r, fragment@, *config),
    decreases *config, 0int, 0int,
{
    let selector = config.selector.as_str();
    match &config.data {
        Some(inner) => {
            let outers = select_outer_html(fragment, selector);
            let ghost fragments = outer_html_matches(fragment@, selector@);
            let mut trees: Vec<ReturnedData> = Vec::new();
            let mut k: usize = 0;
            while k < outers.len()
                invariant
                    selectors_ok(*config),
                    config.data == Some(*inner),
                    k <= outers@.len(),
                    outers@.map_values(|s: String| s@) == fragments,
                    trees@.len() == k,
                    trees_yield(trees@, fragments, inner@),
                decreases outers@.len() - k,
            {
                let ghost before = trees@;
                assert(fragments[k as int] == outers@[k as int]@);
                let t = extract_tree(outers[k].as_str(), inner);
                trees.push(t);
                assert(trees@.drop_last() =~= before);
                k = k + 1;
            }
            ReturnedDataItem::DataItems(trees)
        },
        None => {
            let n = config.nth;
            let raw: String = match &config.attr {
                Some(a) => {
                    let values = select_attr(fragment, selector, a.as_str());
                    if n < values.len() {
                        assert(values@.map_values(|o: Option<String>| crate::html::opt_str_view(o))[n as int]
                            == crate::html::opt_str_view(values@[n as int]));
                        match &values[n] {
                            Some(x) => x.clone(),
                            None => String::new(),
                        }
                    } else {
                        match &config.default {
                            Some(d) => d.clone(),
                            None => String::new(),
                        }
                    }
                },
                None => {
                    let inner = select_inner_html(fragment, selector);
                    if n < inner.len() {
                        assert(inner@.map_values(|s: String| s@)[n as int] == inner@[n as int]@);
                        inner[n].clone()
                    } else {
                        match &config.default {
                            Some(d) => d.clone(),
                            None => String::new(),
                        }
                    }
                },
            };
            assert(raw@ == raw_value(fragment@, *config));
            let t = apply_transformations(raw, config);
            coerce_value(t, config)
        },
    }
}

/// The tree that a schema yields on a fragment.
fn extract_tree(fragment: &str, schema: &DataConfig) -> (r: ReturnedData)
    requires
        schema_selectors_ok(schema@, schema@.len() as int),
    ensures
        tree_yields(r, fragment@, schema@),
    decreases schema@, 2int, 0int,
{
    let mut t = ReturnedData::new();
    let mut i: usize = 0;
    while i < schema.len()
        invariant
            schema_selectors_ok(schema@, schema@.len() as int),
            i <= schema@.len(),
            t.wf(),
            t@.dom() == names_prefix(schema@, i as int),
            fields_yield(t@, fragment@, schema@, i as int),
        decreases schema@.len() - i,
    {
        proof {
            lemma_selectors_prefix(schema@, i as int + 1, schema@.len() as int);
        }
        let v = extract_field(fragment, &schema[i].1);
        let ghost before = t@;
        let ghost name = schema@[i as int].0@;
        t.insert_if_absent(schema[i].0.clone(), v);
        proof {
            if before.contains_key(name) {
                assert(names_prefix(schema@, i as int).contains(name));
                let j = choose|j: int| 0 <= j < i && #[trigger] schema@[j].0@ == name;
                assert(!first_with_name(schema@, i as int));
                assert(names_prefix(schema@, i as int + 1) =~= names_prefix(schema@, i as int));
            } else {
                assert forall|j: int| 0 <= j < i implies schema@[j].0@ != name by {
                    assert(names_prefix(schema@, i as int).contains(schema@[j].0@));
                }
                assert forall|j: int| 0 <= j < i implies before.contains_key(
                    #[trigger] schema@[j].0@,
                ) by {
                    assert(names_prefix(schema@, i as int).contains(schema@[j].0@));
                }
                lemma_fields_yield_extend(before, t@, fragment@, schema@, i as int);
                assert(names_prefix(schema@, i as int + 1) =~= names_prefix(schema@, i as int).insert(
                    name,
                ));
            }
        }
        i = i + 1;
    }
    t
}

/// Extracts one result tree from a page with a schema.
///
/// Every selector is checked first: an invalid one is a configuration error
/// and nothing is extracted. Otherwise the tree has exactly the schema's
/// names; a group field holds one tree per match of its selector, a scalar
/// field its transformed and coerced value.
pub fn populate_values(html: String, config: DataConfig) -> (r: Result<ReturnedData, ConfigError>)
    ensures
        r is Ok <==> schema_selectors_ok(config@, config@.len() as int),
        r matches Ok(t) ==> tree_yields(t, html@, config@),
        r matches Err(e) ==> e matches ConfigError::InvalidSelector(s) && !selector_parses(s@),
{
    extract_page(html.as_str(), &config)
}

/// `populate_values` on borrowed text and schema.
pub fn extract_page(html: &str, config: &DataConfig) -> (r: Result<ReturnedData, ConfigError>)
    ensures
        r is Ok <==> schema_selectors_ok(config@, config@.len() as int),
        r matches Ok(t) ==> tree_yields(t, html@, config@),
        r matches Err(e) ==> e matches ConfigError::InvalidSelector(s) && !selector_parses(s@),
{
    match check_schema_selectors(config) {
        Ok(()) => Ok(extract_tree(html, config)),
        Err(e) => Err(e),
    }
}

} // verus!
