//! Choosing a model: the endpoints that are asked for their models, the rows of the picker, and the
//! management of accounts and fallback models.
use crate::accounts::{
    account_views, copy_account, name_used, names_differ, names_of, others_of, put_account,
    put_string, Account, AccountView, EndpointConfig,
};
use crate::display::opt_str;
use crate::json::opt_view;
use crate::message::{message_of, Message};
use crate::text::{
    ascii_lower, begins, blank, chars_of, copy_text, decimal, decimal_of, find_from, index_from,
    is_blank, join, joined, law_search_finds_the_first, occurs_at, same, slice_text, strip_prefix,
    take_chars, to_ascii_lower, trim, trimmed, views,
};
use vstd::prelude::*;

verus! {

// ---------------------------------------------------------------------------
// Endpoints
// ---------------------------------------------------------------------------

/// The address that an account goes by.
pub open spec fn base_or(a: AccountView, base: Seq<char>) -> Seq<char> {
    match a.api_base {
        Some(b) => b,
        None => base,
    }
}

/// The endpoints that are asked for models: the current one and that of each of the first `n`
/// accounts that is not off. An address counts once for each key.
pub open spec fn endpoints_upto(
    v: Seq<AccountView>,
    base: Seq<char>,
    key: Seq<char>,
    n: int,
) -> Seq<(Seq<char>, Seq<char>)>
    decreases n,
{
    if n <= 0 {
        seq![(base, key)]
    } else {
        let before = endpoints_upto(v, base, key, n - 1);
        let a = v[n - 1];
        let pair = (base_or(a, base), a.api_key);
        if a.disabled || before.contains(pair) {
            before
        } else {
            before.push(pair)
        }
    }
}

/// Addresses with keys as plain sequences.
pub open spec fn endpoint_views(v: Seq<(String, String)>) -> Seq<(Seq<char>, Seq<char>)> {
    Seq::new(v.len(), |i: int| (v[i].0@, v[i].1@))
}

fn has_endpoint(v: &Vec<(String, String)>, base: &str, key: &str) -> (r: bool)
    ensures
        r == endpoint_views(v@).contains((base@, key@)),
{
    let ghost es = endpoint_views(v@);
    let mut i: usize = 0;
    while i < v.len()
        invariant
            i <= v@.len(),
            es == endpoint_views(v@),
            forall|k: int| 0 <= k < i ==> #[trigger] es[k] != (base@, key@),
        decreases v.len() - i,
    {
        if same(v[i].0.as_str(), base) && same(v[i].1.as_str(), key) {
            assert(es[i as int] == (base@, key@));
            return true;
        }
        assert(es[i as int] != (base@, key@));
        i += 1;
    }
    false
}

fn put_endpoint(v: &mut Vec<(String, String)>, base: &str, key: &str)
    ensures
        endpoint_views(final(v)@) == endpoint_views(old(v)@).push((base@, key@)),
{
    let ghost before = endpoint_views(v@);
    v.push((copy_text(base), copy_text(key)));
    assert(endpoint_views(v@) =~= before.push((base@, key@)));
}

/// The endpoints that are asked for models.
pub fn collect_endpoints(config: &EndpointConfig) -> (r: Vec<(String, String)>)
    ensures
        endpoint_views(r@) == endpoints_upto(
            account_views(config.accounts@),
            config.api_base@,
            config.api_key@,
            config.accounts@.len() as int,
        ),
{
    let ghost v = account_views(config.accounts@);
    let mut out: Vec<(String, String)> = Vec::new();
    assert(endpoint_views(out@) =~= Seq::empty());
    put_endpoint(&mut out, config.api_base.as_str(), config.api_key.as_str());
    assert(endpoint_views(out@) =~= seq![(config.api_base@, config.api_key@)]);
    let mut i: usize = 0;
    while i < config.accounts.len()
        invariant
            i <= config.accounts@.len(),
            v == account_views(config.accounts@),
            endpoint_views(out@) == endpoints_upto(
                v,
                config.api_base@,
                config.api_key@,
                i as int,
            ),
        decreases config.accounts.len() - i,
    {
        let a = &config.accounts[i];
        assert(v[i as int] == a@);
        if !a.disabled {
            let base = match &a.api_base {
                Some(b) => b.as_str(),
                None => config.api_base.as_str(),
            };
            if !has_endpoint(&out, base, a.api_key.as_str()) {
                put_endpoint(&mut out, base, a.api_key.as_str());
            }
        }
        i += 1;
    }
    out
}

/// No endpoint is asked twice, and each key of an address is asked.
pub proof fn law_endpoints_differ(
    v: Seq<AccountView>,
    base: Seq<char>,
    key: Seq<char>,
    n: int,
    i: int,
    j: int,
)
    requires
        0 <= n <= v.len(),
        0 <= i < j < endpoints_upto(v, base, key, n).len(),
    ensures
        endpoints_upto(v, base, key, n)[i] != endpoints_upto(v, base, key, n)[j],
    decreases n,
{
    if n > 0 {
        let before = endpoints_upto(v, base, key, n - 1);
        let all = endpoints_upto(v, base, key, n);
        if j < before.len() {
            law_endpoints_differ(v, base, key, n - 1, i, j);
        } else {
            assert(before.contains(before[i]));
        }
    }
}

// ---------------------------------------------------------------------------
// The picker
// ---------------------------------------------------------------------------

/// A row of the picker.
pub struct ModelRow {
    pub value: String,
    pub model: String,
    pub base: String,
    /// Whether it was chosen before.
    pub recent: bool,
}

/// A row of the picker as plain sequences.
pub struct ModelRowView {
    pub value: Seq<char>,
    pub model: Seq<char>,
    pub base: Seq<char>,
    pub recent: bool,
}

impl View for ModelRow {
    type V = ModelRowView;

    open spec fn view(&self) -> ModelRowView {
        ModelRowView {
            value: self.value@,
            model: self.model@,
            base: self.base@,
            recent: self.recent,
        }
    }
}

/// Rows as plain sequences.
pub open spec fn model_views(v: Seq<ModelRow>) -> Seq<ModelRowView> {
    Seq::new(v.len(), |i: int| v[i]@)
}

/// The value of a row: the model and the address, with a zero character between them.
pub open spec fn model_value(model: Seq<char>, base: Seq<char>) -> Seq<char> {
    model + "\0"@ + base
}

/// A row for a model at an address.
pub open spec fn row_of(model: Seq<char>, base: Seq<char>) -> ModelRowView {
    ModelRowView { value: model_value(model, base), model, base, recent: false }
}

/// Whether a value stands in a row.
pub open spec fn listed(rows: Seq<ModelRowView>, value: Seq<char>) -> bool {
    exists|i: int| 0 <= i < rows.len() && (#[trigger] rows[i]).value == value
}

/// The rows with one more, unless its value is listed already.
pub open spec fn offered(rows: Seq<ModelRowView>, row: ModelRowView) -> Seq<ModelRowView> {
    if listed(rows, row.value) {
        rows
    } else {
        rows.push(row)
    }
}

/// Model and address of a value.
pub open spec fn value_parts(value: Seq<char>) -> Option<(Seq<char>, Seq<char>)> {
    match index_from(value, "\0"@, 0) {
        Some(i) => Some((value.take(i), value.skip(i + 1))),
        None => None,
    }
}

/// The rows once the first `n` recent choices were offered.
pub open spec fn with_recents(rows: Seq<ModelRowView>, recents: Seq<Seq<char>>, n: int) -> Seq<
    ModelRowView,
>
    decreases n,
{
    if n <= 0 {
        rows
    } else {
        let before = with_recents(rows, recents, n - 1);
        match value_parts(recents[n - 1]) {
            Some((model, base)) => offered(
                before,
                (ModelRowView { value: recents[n - 1], model, base, recent: true }),
            ),
            None => before,
        }
    }
}

/// The rows once the first `n` fetched models were offered.
pub open spec fn with_fetched(
    rows: Seq<ModelRowView>,
    fetched: Seq<(Seq<char>, Seq<char>)>,
    n: int,
) -> Seq<ModelRowView>
    decreases n,
{
    if n <= 0 {
        rows
    } else {
        offered(
            with_fetched(rows, fetched, n - 1),
            row_of(fetched[n - 1].0, fetched[n - 1].1),
        )
    }
}

/// The rows once the models of the first `n` accounts were offered. An account that is off has none.
pub open spec fn with_accounts(
    rows: Seq<ModelRowView>,
    v: Seq<AccountView>,
    base: Seq<char>,
    n: int,
) -> Seq<ModelRowView>
    decreases n,
{
    if n <= 0 {
        rows
    } else {
        let before = with_accounts(rows, v, base, n - 1);
        let a = v[n - 1];
        if a.disabled || a.model is None {
            before
        } else {
            offered(before, row_of(a.model->0, base_or(a, base)))
        }
    }
}

/// The rows of the picker: the current model first, then the recent choices, then what the endpoints
/// offer, then the models that accounts name. `fetched` are models with their addresses.
pub open spec fn picker_rows(config: EndpointConfig, fetched: Seq<(Seq<char>, Seq<char>)>) -> Seq<
    ModelRowView,
> {
    let v = account_views(config.accounts@);
    let recents = views(config.recent_models@);
    let first = seq![row_of(config.model@, config.api_base@)];
    with_accounts(
        with_fetched(
            with_recents(first, recents, recents.len() as int),
            fetched,
            fetched.len() as int,
        ),
        v,
        config.api_base@,
        v.len() as int,
    )
}

fn offer(rows: &mut Vec<ModelRow>, row: ModelRow)
    ensures
        model_views(final(rows)@) == offered(model_views(old(rows)@), row@),
{
    let ghost before = model_views(rows@);
    let mut i: usize = 0;
    while i < rows.len()
        invariant
            i <= rows@.len(),
            before == model_views(rows@),
            rows@ == old(rows)@,
            forall|k: int| 0 <= k < i ==> (#[trigger] before[k]).value != row@.value,
        decreases rows.len() - i,
    {
        if same(rows[i].value.as_str(), row.value.as_str()) {
            assert(before[i as int].value == row@.value);
            return;
        }
        assert(before[i as int].value != row@.value);
        i += 1;
    }
    rows.push(row);
    assert(model_views(rows@) =~= before.push(row@));
}

fn make_row(model: &str, base: &str) -> (r: ModelRow)
    ensures
        r@ == row_of(model@, base@),
{
    let mut value = copy_text(model);
    value.append("\0");
    value.append(base);
    ModelRow { value, model: copy_text(model), base: copy_text(base), recent: false }
}

/// Model and address of a value.
pub fn split_value(value: &str) -> (r: Option<(String, String)>)
    ensures
        value_parts(value@) == (match r {
            Some((m, b)) => Some((m@, b@)),
            None => None,
        }),
{
    proof {
        reveal_strlit("\0");
    }
    let cs = chars_of(value);
    let zero = chars_of("\0");
    match find_from(&cs, &zero, 0) {
        Some(i) => {
            assert(i + zero@.len() <= cs.len());
            let model = slice_text(&cs, 0, i);
            let base = slice_text(&cs, i + 1, cs.len());
            assert(model@ =~= value@.take(i as int));
            assert(base@ =~= value@.skip(i + 1));
            Some((model, base))
        },
        None => None,
    }
}

/// The rows of the picker.
pub fn model_picker_rows(config: &EndpointConfig, fetched: &Vec<(String, String)>) -> (r: Vec<
    ModelRow,
>)
    ensures
        model_views(r@) == picker_rows(*config, endpoint_views(fetched@)),
{
    let ghost v = account_views(config.accounts@);
    let ghost recents = views(config.recent_models@);
    let ghost fs = endpoint_views(fetched@);
    let mut rows: Vec<ModelRow> = Vec::new();
    rows.push(make_row(config.model.as_str(), config.api_base.as_str()));
    let ghost first = seq![row_of(config.model@, config.api_base@)];
    assert(model_views(rows@) =~= first);
    let mut i: usize = 0;
    while i < config.recent_models.len()
        invariant
            i <= config.recent_models@.len(),
            recents == views(config.recent_models@),
            model_views(rows@) == with_recents(first, recents, i as int),
        decreases config.recent_models.len() - i,
    {
        let entry = config.recent_models[i].as_str();
        assert(recents[i as int] == entry@);
        match split_value(entry) {
            Some((model, base)) => {
                offer(&mut rows, ModelRow { value: copy_text(entry), model, base, recent: true });
            },
            None => {},
        }
        i += 1;
    }
    let ghost second = model_views(rows@);
    let mut j: usize = 0;
    while j < fetched.len()
        invariant
            j <= fetched@.len(),
            fs == endpoint_views(fetched@),
            model_views(rows@) == with_fetched(second, fs, j as int),
        decreases fetched.len() - j,
    {
        assert(fs[j as int] == (fetched@[j as int].0@, fetched@[j as int].1@));
        offer(&mut rows, make_row(fetched[j].0.as_str(), fetched[j].1.as_str()));
        j += 1;
    }
    let ghost third = model_views(rows@);
    let mut k: usize = 0;
    while k < config.accounts.len()
        invariant
            k <= config.accounts@.len(),
            v == account_views(config.accounts@),
            model_views(rows@) == with_accounts(third, v, config.api_base@, k as int),
        decreases config.accounts.len() - k,
    {
        let a = &config.accounts[k];
        assert(v[k as int] == a@);
        if !a.disabled {
            match &a.model {
                Some(m) => {
                    let base = match &a.api_base {
                        Some(b) => b.as_str(),
                        None => config.api_base.as_str(),
                    };
                    offer(&mut rows, make_row(m.as_str(), base));
                },
                None => {},
            }
        }
        k += 1;
    }
    rows
}

/// Rows whose values all differ, with a given value in the first.
pub open spec fn rows_apart(rows: Seq<ModelRowView>, first: Seq<char>) -> bool {
    &&& rows.len() > 0
    &&& rows[0].value == first
    &&& forall|i: int, j: int|
        0 <= i < j < rows.len() ==> (#[trigger] rows[i]).value != (#[trigger] rows[j]).value
}

proof fn lemma_offered(rows: Seq<ModelRowView>, row: ModelRowView, first: Seq<char>)
    requires
        rows_apart(rows, first),
    ensures
        rows_apart(offered(rows, row), first),
{
    if !listed(rows, row.value) {
        let all = rows.push(row);
        assert forall|i: int, j: int| 0 <= i < j < all.len() implies (#[trigger] all[i]).value != (
        #[trigger] all[j]).value by {
            if j == rows.len() {
                assert(rows[i].value != row.value);
            }
        }
    }
}

proof fn lemma_with_recents(
    rows: Seq<ModelRowView>,
    recents: Seq<Seq<char>>,
    n: int,
    first: Seq<char>,
)
    requires
        rows_apart(rows, first),
        n <= recents.len(),
    ensures
        rows_apart(with_recents(rows, recents, n), first),
    decreases n,
{
    if n > 0 {
        lemma_with_recents(rows, recents, n - 1, first);
        match value_parts(recents[n - 1]) {
            Some((model, base)) => {
                lemma_offered(
                    with_recents(rows, recents, n - 1),
                    (ModelRowView { value: recents[n - 1], model, base, recent: true }),
                    first,
                );
            },
            None => {},
        }
    }
}

proof fn lemma_with_fetched(
    rows: Seq<ModelRowView>,
    fetched: Seq<(Seq<char>, Seq<char>)>,
    n: int,
    first: Seq<char>,
)
    requires
        rows_apart(rows, first),
        n <= fetched.len(),
    ensures
        rows_apart(with_fetched(rows, fetched, n), first),
    decreases n,
{
    if n > 0 {
        lemma_with_fetched(rows, fetched, n - 1, first);
        lemma_offered(
            with_fetched(rows, fetched, n - 1),
            row_of(fetched[n - 1].0, fetched[n - 1].1),
            first,
        );
    }
}

proof fn lemma_with_accounts(
    rows: Seq<ModelRowView>,
    v: Seq<AccountView>,
    base: Seq<char>,
    n: int,
    first: Seq<char>,
)
    requires
        rows_apart(rows, first),
        n <= v.len(),
    ensures
        rows_apart(with_accounts(rows, v, base, n), first),
    decreases n,
{
    if n > 0 {
        lemma_with_accounts(rows, v, base, n - 1, first);
        let a = v[n - 1];
        if !a.disabled && a.model is Some {
            lemma_offered(
                with_accounts(rows, v, base, n - 1),
                row_of(a.model->0, base_or(a, base)),
                first,
            );
        }
    }
}

/// The current model stands first in the picker, and no model at an address stands there twice.
pub proof fn law_picker_rows_differ(config: EndpointConfig, fetched: Seq<(Seq<char>, Seq<char>)>)
    ensures
        rows_apart(
            picker_rows(config, fetched),
            model_value(config.model@, config.api_base@),
        ),
{
    let first = model_value(config.model@, config.api_base@);
    let v = account_views(config.accounts@);
    let recents = views(config.recent_models@);
    let start = seq![row_of(config.model@, config.api_base@)];
    lemma_with_recents(start, recents, recents.len() as int, first);
    let second = with_recents(start, recents, recents.len() as int);
    lemma_with_fetched(second, fetched, fetched.len() as int, first);
    lemma_with_accounts(
        with_fetched(second, fetched, fetched.len() as int),
        v,
        config.api_base@,
        v.len() as int,
        first,
    );
}

proof fn lemma_offered_keeps(rows: Seq<ModelRowView>, row: ModelRowView, value: Seq<char>)
    ensures
        listed(rows, value) ==> listed(offered(rows, row), value),
        listed(offered(rows, row), row.value),
{
    if !listed(rows, row.value) {
        let all = rows.push(row);
        assert(all[rows.len() as int].value == row.value);
        if listed(rows, value) {
            let i = choose|i: int| 0 <= i < rows.len() && (#[trigger] rows[i]).value == value;
            assert(all[i].value == value);
        }
    }
}

proof fn lemma_account_listed(
    rows: Seq<ModelRowView>,
    v: Seq<AccountView>,
    base: Seq<char>,
    n: int,
    k: int,
)
    requires
        0 <= k < n <= v.len(),
        !v[k].disabled,
        v[k].model is Some,
    ensures
        listed(
            with_accounts(rows, v, base, n),
            model_value(v[k].model->0, base_or(v[k], base)),
        ),
    decreases n,
{
    let value = model_value(v[k].model->0, base_or(v[k], base));
    let before = with_accounts(rows, v, base, n - 1);
    let a = v[n - 1];
    if k < n - 1 {
        lemma_account_listed(rows, v, base, n - 1, k);
    }
    if !a.disabled && a.model is Some {
        lemma_offered_keeps(before, row_of(a.model->0, base_or(a, base)), value);
    }
}

/// The model that an account names is always in the picker, whatever the endpoints answer, unless
/// the account is off.
pub proof fn law_account_model_is_reachable(
    config: EndpointConfig,
    fetched: Seq<(Seq<char>, Seq<char>)>,
    k: int,
)
    requires
        0 <= k < config.accounts@.len(),
        !config.accounts@[k].disabled,
        config.accounts@[k].model is Some,
    ensures
        listed(
            picker_rows(config, fetched),
            model_value(
                config.accounts@[k].model->0@,
                base_or(config.accounts@[k]@, config.api_base@),
            ),
        ),
{
    let v = account_views(config.accounts@);
    let recents = views(config.recent_models@);
    let start = seq![row_of(config.model@, config.api_base@)];
    let second = with_recents(start, recents, recents.len() as int);
    assert(v[k] == config.accounts@[k]@);
    lemma_account_listed(
        with_fetched(second, fetched, fetched.len() as int),
        v,
        config.api_base@,
        v.len() as int,
        k,
    );
}

/// The key of the first endpoint with an address, from `i` on.
pub open spec fn key_from(
    es: Seq<(Seq<char>, Seq<char>)>,
    base: Seq<char>,
    i: int,
) -> Option<Seq<char>>
    decreases es.len() - i,
{
    if i < 0 || i >= es.len() {
        None
    } else if es[i].0 == base {
        Some(es[i].1)
    } else {
        key_from(es, base, i + 1)
    }
}

/// A switch to another model or endpoint.
pub struct Switch {
    pub base: String,
    pub key: String,
    pub model: String,
}

/// The switch that a choice in the picker asks for: none where it is the current model. The key is
/// that of the first endpoint with the address, else the current one.
pub fn picked_switch(value: &str, config: &EndpointConfig, endpoints: &Vec<(String, String)>) -> (r:
    Option<Switch>)
    ensures
        match r {
            Some(s) => value_parts(value@) == Some((s.model@, s.base@)) && (s.model@
                != config.model@ || s.base@ != config.api_base@) && s.key@ == (match key_from(
                endpoint_views(endpoints@),
                s.base@,
                0,
            ) {
                Some(k) => k,
                None => config.api_key@,
            }),
            None => match value_parts(value@) {
                Some((model, base)) => model == config.model@ && base == config.api_base@,
                None => true,
            },
        },
{
    match split_value(value) {
        Some((model, base)) => {
            if same(model.as_str(), config.model.as_str()) && same(
                base.as_str(),
                config.api_base.as_str(),
            ) {
                return None;
            }
            let ghost es = endpoint_views(endpoints@);
            let mut i: usize = 0;
            while i < endpoints.len()
                invariant
                    i <= endpoints@.len(),
                    es == endpoint_views(endpoints@),
                    key_from(es, base@, i as int) == key_from(es, base@, 0),
                    value_parts(value@) == Some((model@, base@)),
                    model@ != config.model@ || base@ != config.api_base@,
                decreases endpoints.len() - i,
            {
                if same(endpoints[i].0.as_str(), base.as_str()) {
                    let key = copy_text(endpoints[i].1.as_str());
                    return Some(Switch { base, key, model });
                }
                i += 1;
            }
            Some(Switch { base, key: copy_text(config.api_key.as_str()), model })
        },
        None => None,
    }
}

/// What a command about the model asks for.
pub enum ModelRoute {
    /// The picker.
    Picker,
    Usage,
    /// The model is the current one already.
    Same(String),
    /// Another model at the same endpoint.
    Switch(String),
}

/// The model that the words of a command name.
pub open spec fn named_model(parts: Seq<Seq<char>>) -> Seq<char> {
    joined(parts.skip(1), " "@)
}

/// What a command about the model asks for. `parts` are the words of the command, itself among them.
pub fn model_route(parts: &Vec<String>, current: &str) -> (r: ModelRoute)
    requires
        parts@.len() > 0,
    ensures
        match r {
            ModelRoute::Picker => parts@.len() == 1,
            ModelRoute::Usage => parts@.len() > 1 && (views(parts@)[1] == "--help"@ || views(
                parts@,
            )[1] == "-h"@),
            ModelRoute::Same(m) => parts@.len() > 1 && views(parts@)[1] != "--help"@ && views(
                parts@,
            )[1] != "-h"@ && m@ == named_model(views(parts@)) && m@ == current@,
            ModelRoute::Switch(m) => parts@.len() > 1 && views(parts@)[1] != "--help"@ && views(
                parts@,
            )[1] != "-h"@ && m@ == named_model(views(parts@)) && m@ != current@,
        },
{
    if parts.len() == 1 {
        return ModelRoute::Picker;
    }
    let ghost all = views(parts@);
    assert(all[1] == parts@[1]@);
    if same(parts[1].as_str(), "--help") || same(parts[1].as_str(), "-h") {
        return ModelRoute::Usage;
    }
    let mut rest: Vec<String> = Vec::new();
    let mut i: usize = 1;
    assert(views(rest@) =~= all.subrange(1, 1));
    while i < parts.len()
        invariant
            1 <= i <= parts@.len(),
            all == views(parts@),
            views(rest@) == all.subrange(1, i as int),
        decreases parts.len() - i,
    {
        let word = copy_text(parts[i].as_str());
        let ghost w = word@;
        let ghost before = views(rest@);
        rest.push(word);
        assert(views(rest@) =~= before.push(w));
        i += 1;
        assert(views(rest@) =~= all.subrange(1, i as int));
    }
    assert(views(rest@) =~= all.skip(1));
    let name = join(&rest, " ");
    if same(name.as_str(), current) {
        ModelRoute::Same(name)
    } else {
        ModelRoute::Switch(name)
    }
}

// ---------------------------------------------------------------------------
// Managing
// ---------------------------------------------------------------------------

/// A row of the list of accounts and fallback models.
pub struct ManageRow {
    pub value: String,
    pub label: String,
    /// The beginning of an account's key.
    pub detail: Option<String>,
    pub kind: ManageKind,
}

/// What a row of the list stands for.
#[derive(Debug, Clone, Copy, PartialEq, Eq, Structural)]
pub enum ManageKind {
    Account,
    /// An account that is off.
    DisabledAccount,
    Fallback,
}

/// A row of the list as plain sequences.
pub struct ManageRowView {
    pub value: Seq<char>,
    pub label: Seq<char>,
    pub detail: Option<Seq<char>>,
    pub kind: ManageKind,
}

impl View for ManageRow {
    type V = ManageRowView;

    open spec fn view(&self) -> ManageRowView {
        ManageRowView {
            value: self.value@,
            label: self.label@,
            detail: opt_view(self.detail),
            kind: self.kind,
        }
    }
}

/// Rows of the list as plain sequences.
pub open spec fn manage_views(v: Seq<ManageRow>) -> Seq<ManageRowView> {
    Seq::new(v.len(), |i: int| v[i]@)
}

/// At most six characters of a key.
pub open spec fn key_head(key: Seq<char>) -> Seq<char> {
    if key.len() <= 6 {
        key
    } else {
        key.take(6)
    }
}

/// The row of an account.
pub open spec fn account_row(a: AccountView) -> ManageRowView {
    ManageRowView {
        value: "acct:"@ + a.name,
        label: a.name,
        detail: Some(key_head(a.api_key)),
        kind: if a.disabled {
            ManageKind::DisabledAccount
        } else {
            ManageKind::Account
        },
    }
}

/// The row of a fallback model.
pub open spec fn fallback_row(m: Seq<char>) -> ManageRowView {
    ManageRowView { value: "fb:"@ + m, label: m, detail: None, kind: ManageKind::Fallback }
}

/// The rows of the list: every account, then every fallback model.
pub fn manage_rows(config: &EndpointConfig) -> (r: Vec<ManageRow>)
    ensures
        manage_views(r@) == Seq::new(
            config.accounts@.len(),
            |i: int| account_row(config.accounts@[i]@),
        ) + Seq::new(
            config.fallback_models@.len(),
            |i: int| fallback_row(config.fallback_models@[i]@),
        ),
{
    let mut rows: Vec<ManageRow> = Vec::new();
    let mut i: usize = 0;
    assert(manage_views(rows@) =~= Seq::new(0, |k: int| account_row(config.accounts@[k]@)));
    while i < config.accounts.len()
        invariant
            i <= config.accounts@.len(),
            manage_views(rows@) == Seq::new(
                i as nat,
                |k: int| account_row(config.accounts@[k]@),
            ),
        decreases config.accounts.len() - i,
    {
        let a = &config.accounts[i];
        let mut value = copy_text("acct:");
        value.append(a.name.as_str());
        let head = take_chars(a.api_key.as_str(), 6);
        assert(head@ == key_head(a.api_key@));
        let row = ManageRow {
            value,
            label: copy_text(a.name.as_str()),
            detail: Some(head),
            kind: if a.disabled {
                ManageKind::DisabledAccount
            } else {
                ManageKind::Account
            },
        };
        assert(row@ == account_row(a@));
        let ghost before = manage_views(rows@);
        let ghost shown = row@;
        rows.push(row);
        assert(manage_views(rows@) =~= before.push(shown));
        i += 1;
        assert(manage_views(rows@) =~= Seq::new(
            i as nat,
            |k: int| account_row(config.accounts@[k]@),
        ));
    }
    let ghost head = manage_views(rows@);
    let mut j: usize = 0;
    assert(head =~= head + Seq::new(0, |k: int| fallback_row(config.fallback_models@[k]@)));
    while j < config.fallback_models.len()
        invariant
            j <= config.fallback_models@.len(),
            manage_views(rows@) == head + Seq::new(
                j as nat,
                |k: int| fallback_row(config.fallback_models@[k]@),
            ),
        decreases config.fallback_models.len() - j,
    {
        let m = config.fallback_models[j].as_str();
        let mut value = copy_text("fb:");
        value.append(m);
        let row = ManageRow {
            value,
            label: copy_text(m),
            detail: None,
            kind: ManageKind::Fallback,
        };
        assert(row@ == fallback_row(m@));
        let ghost before = manage_views(rows@);
        let ghost shown = row@;
        rows.push(row);
        assert(manage_views(rows@) =~= before.push(shown));
        j += 1;
        assert(manage_views(rows@) =~= head + Seq::new(
            j as nat,
            |k: int| fallback_row(config.fallback_models@[k]@),
        ));
    }
    rows
}

/// What a row's value stands for. An account goes only after the user has agreed; a fallback model
/// goes at once.
pub enum ManageTarget {
    Account(String),
    Fallback(String),
    Nothing,
}

/// What a row's value stands for.
pub fn manage_target(value: &str) -> (r: ManageTarget)
    ensures
        match r {
            ManageTarget::Account(n) => begins(value@, "acct:"@) && value@ == "acct:"@ + n@,
            ManageTarget::Fallback(m) => !begins(value@, "acct:"@) && begins(value@, "fb:"@)
                && value@ == "fb:"@ + m@,
            ManageTarget::Nothing => !begins(value@, "acct:"@) && !begins(value@, "fb:"@),
        },
{
    match strip_prefix(value, "acct:") {
        Some(name) => {
            assert(value@ =~= "acct:"@ + name@);
            ManageTarget::Account(name)
        },
        None => match strip_prefix(value, "fb:") {
            Some(m) => {
                assert(value@ =~= "fb:"@ + m@);
                ManageTarget::Fallback(m)
            },
            None => ManageTarget::Nothing,
        },
    }
}

/// The accounts among the first `n` that have another name.
pub open spec fn without_name(v: Seq<AccountView>, name: Seq<char>, n: int) -> Seq<AccountView>
    decreases n,
{
    if n <= 0 {
        Seq::empty()
    } else if v[n - 1].name != name {
        without_name(v, name, n - 1).push(v[n - 1])
    } else {
        without_name(v, name, n - 1)
    }
}

/// Takes every account with a name out of the pool.
pub fn remove_account(config: &mut EndpointConfig, name: &str)
    ensures
        account_views(final(config).accounts@) == without_name(
            account_views(old(config).accounts@),
            name@,
            old(config).accounts@.len() as int,
        ),
        final(config).model@ == old(config).model@,
        final(config).api_base@ == old(config).api_base@,
        final(config).api_key@ == old(config).api_key@,
        final(config).recent_models@ == old(config).recent_models@,
        final(config).fallback_models@ == old(config).fallback_models@,
{
    let ghost v = account_views(config.accounts@);
    let mut kept: Vec<Account> = Vec::new();
    assert(account_views(kept@) =~= Seq::empty());
    let mut i: usize = 0;
    while i < config.accounts.len()
        invariant
            i <= config.accounts@.len(),
            *config == *old(config),
            v == account_views(config.accounts@),
            account_views(kept@) == without_name(v, name@, i as int),
        decreases config.accounts.len() - i,
    {
        let a = &config.accounts[i];
        assert(v[i as int] == a@);
        if !same(a.name.as_str(), name) {
            put_account(&mut kept, copy_account(a));
        }
        i += 1;
    }
    config.accounts = kept;
}

/// Configurations that differ in the fallback models at most.
pub open spec fn same_but_fallbacks(a: EndpointConfig, b: EndpointConfig) -> bool {
    &&& a.accounts@ == b.accounts@
    &&& a.model@ == b.model@
    &&& a.api_base@ == b.api_base@
    &&& a.api_key@ == b.api_key@
    &&& a.recent_models@ == b.recent_models@
}

/// Whether a fallback model is in the chain.
fn has_fallback(config: &EndpointConfig, model: &str) -> (r: bool)
    ensures
        r == views(config.fallback_models@).contains(model@),
{
    let ghost v = views(config.fallback_models@);
    let mut i: usize = 0;
    while i < config.fallback_models.len()
        invariant
            i <= config.fallback_models@.len(),
            v == views(config.fallback_models@),
            forall|k: int| 0 <= k < i ==> #[trigger] v[k] != model@,
        decreases config.fallback_models.len() - i,
    {
        if same(config.fallback_models[i].as_str(), model) {
            assert(v[i as int] == model@);
            return true;
        }
        assert(v[i as int] != model@);
        i += 1;
    }
    false
}

/// Takes a fallback model out of the chain.
pub fn remove_fallback(config: &mut EndpointConfig, model: &str)
    ensures
        views(final(config).fallback_models@) == others_of(
            views(old(config).fallback_models@),
            model@,
            old(config).fallback_models@.len() as int,
        ),
        same_but_fallbacks(*old(config), *final(config)),
{
    let ghost v = views(config.fallback_models@);
    let mut kept: Vec<String> = Vec::new();
    assert(views(kept@) =~= Seq::empty());
    let mut i: usize = 0;
    while i < config.fallback_models.len()
        invariant
            i <= config.fallback_models@.len(),
            *config == *old(config),
            v == views(config.fallback_models@),
            views(kept@) == others_of(v, model@, i as int),
        decreases config.fallback_models.len() - i,
    {
        let m = config.fallback_models[i].as_str();
        assert(v[i as int] == m@);
        if !same(m, model) {
            put_string(&mut kept, copy_text(m));
        }
        i += 1;
    }
    config.fallback_models = kept;
}

/// What came of a wish to add a fallback model.
pub enum FallbackAdded {
    /// The user typed nothing.
    Cancelled,
    /// It is in the chain already.
    Exists(String),
    Added(String),
}

/// Adds a fallback model at the end of the chain, unless it is there already.
pub fn add_fallback(config: &mut EndpointConfig, answer: Option<&str>) -> (r: FallbackAdded)
    ensures
        match r {
            FallbackAdded::Cancelled => (answer is None || is_blank(answer->0@))
                && *final(config) == *old(config),
            FallbackAdded::Exists(m) => answer is Some && !is_blank(answer->0@) && m@ == trimmed(
                answer->0@,
            ) && views(old(config).fallback_models@).contains(m@) && *final(config)
                == *old(config),
            FallbackAdded::Added(m) => answer is Some && !is_blank(answer->0@) && m@ == trimmed(
                answer->0@,
            ) && !views(old(config).fallback_models@).contains(m@) && views(
                final(config).fallback_models@,
            ) == views(old(config).fallback_models@).push(m@) && same_but_fallbacks(
                *old(config),
                *final(config),
            ),
        },
{
    match answer {
        Some(text) => {
            if blank(text) {
                return FallbackAdded::Cancelled;
            }
            let model = trim(text);
            if has_fallback(config, model.as_str()) {
                return FallbackAdded::Exists(model);
            }
            put_string(&mut config.fallback_models, copy_text(model.as_str()));
            FallbackAdded::Added(model)
        },
        None => FallbackAdded::Cancelled,
    }
}

// ---------------------------------------------------------------------------
// Adding an account
// ---------------------------------------------------------------------------

/// What the user typed, where it is something.
pub open spec fn typed(answer: Option<Seq<char>>) -> Option<Seq<char>> {
    if answer is Some && !is_blank(answer->0) {
        Some(trimmed(answer->0))
    } else {
        None
    }
}

/// What the user typed, where it is something.
pub fn typed_answer(answer: Option<&str>) -> (r: Option<String>)
    ensures
        opt_view(r) == typed(opt_str(answer)),
{
    match answer {
        Some(text) => if blank(text) {
            None
        } else {
            Some(trim(text))
        },
        None => None,
    }
}

/// The address that the user typed, or the current one.
pub fn typed_or(answer: Option<&str>, otherwise: &str) -> (r: String)
    ensures
        r@ == (match typed(opt_str(answer)) {
            Some(t) => t,
            None => otherwise@,
        }),
{
    match typed_answer(answer) {
        Some(t) => t,
        None => copy_text(otherwise),
    }
}

/// Whether a name cannot be given to a new account: it stands for the primary one, in any case of
/// letters, or another account has it.
pub open spec fn name_taken_in(v: Seq<AccountView>, name: Seq<char>) -> bool {
    ascii_lower(name) == "primary"@ || names_of(v).contains(name)
}

/// Whether a name cannot be given to a new account.
pub fn name_taken(config: &EndpointConfig, name: &str) -> (r: bool)
    ensures
        r == name_taken_in(account_views(config.accounts@), name@),
{
    let lower = to_ascii_lower(name);
    same(lower.as_str(), "primary") || name_used(&config.accounts, name)
}

/// A step on the way to a new account.
#[derive(Debug, Clone, Copy, PartialEq, Eq, Structural)]
pub enum AddPoint {
    Name,
    Key,
    Base,
    /// The endpoint was asked for its models.
    Fetching,
    Choosing,
    Typing,
    /// The endpoint is tried out.
    Probing,
    /// It did not work, and the user decides.
    Deciding,
    Ended,
}

/// What happened at a step.
#[derive(Debug, Clone, Copy, PartialEq, Eq, Structural)]
pub enum AddEvent {
    /// The user typed something.
    Typed,
    /// The user typed nothing, or gave up.
    Nothing,
    /// The address is known, and the name is free.
    NameFree,
    /// The address is known, and the name is taken.
    NameTaken,
    /// The endpoint offers models.
    Models,
    /// The endpoint offers none.
    NoModels,
    FetchFailed,
    /// The user chose a model of the list.
    Chosen,
    /// The user wants to type a model.
    Custom,
    Connected,
    Unreachable,
    /// The user wants the account all the same.
    SaveAnyway,
}

/// What is done next.
#[derive(Debug, Clone, Copy, PartialEq, Eq, Structural)]
pub enum AddAction {
    AskKey,
    AskBase,
    /// Says that the name is taken.
    RefuseName,
    FetchModels,
    ShowModels,
    /// Says that there are no models and asks for one.
    SayNoModels,
    /// Says why there are no models and asks for one.
    SayFetchFailed,
    AskModel,
    Probe,
    /// Says why the endpoint does not work and asks whether to keep the account.
    AskWhetherToSave,
    /// Says that it works and adds the account.
    Add,
    /// Adds the account all the same.
    AddUnproved,
    /// Says that nothing was done.
    Cancel,
}

/// The next step. A step that does not fit is a cancellation.
pub open spec fn add_next(p: AddPoint, e: AddEvent) -> (AddPoint, AddAction) {
    match (p, e) {
        (AddPoint::Name, AddEvent::Typed) => (AddPoint::Key, AddAction::AskKey),
        (AddPoint::Key, AddEvent::Typed) => (AddPoint::Base, AddAction::AskBase),
        (AddPoint::Base, AddEvent::NameFree) => (AddPoint::Fetching, AddAction::FetchModels),
        (AddPoint::Base, AddEvent::NameTaken) => (AddPoint::Ended, AddAction::RefuseName),
        (AddPoint::Fetching, AddEvent::Models) => (AddPoint::Choosing, AddAction::ShowModels),
        (AddPoint::Fetching, AddEvent::NoModels) => (AddPoint::Typing, AddAction::SayNoModels),
        (AddPoint::Fetching, AddEvent::FetchFailed) => (
            AddPoint::Typing,
            AddAction::SayFetchFailed,
        ),
        (AddPoint::Choosing, AddEvent::Chosen) => (AddPoint::Probing, AddAction::Probe),
        (AddPoint::Choosing, AddEvent::Custom) => (AddPoint::Typing, AddAction::AskModel),
        (AddPoint::Typing, AddEvent::Typed) => (AddPoint::Probing, AddAction::Probe),
        (AddPoint::Probing, AddEvent::Connected) => (AddPoint::Ended, AddAction::Add),
        (AddPoint::Probing, AddEvent::Unreachable) => (
            AddPoint::Deciding,
            AddAction::AskWhetherToSave,
        ),
        (AddPoint::Deciding, AddEvent::SaveAnyway) => (AddPoint::Ended, AddAction::AddUnproved),
        _ => (AddPoint::Ended, AddAction::Cancel),
    }
}

/// The next step on the way to a new account.
pub fn add_step(p: AddPoint, e: AddEvent) -> (r: (AddPoint, AddAction))
    ensures
        r == add_next(p, e),
{
    match (p, e) {
        (AddPoint::Name, AddEvent::Typed) => (AddPoint::Key, AddAction::AskKey),
        (AddPoint::Key, AddEvent::Typed) => (AddPoint::Base, AddAction::AskBase),
        (AddPoint::Base, AddEvent::NameFree) => (AddPoint::Fetching, AddAction::FetchModels),
        (AddPoint::Base, AddEvent::NameTaken) => (AddPoint::Ended, AddAction::RefuseName),
        (AddPoint::Fetching, AddEvent::Models) => (AddPoint::Choosing, AddAction::ShowModels),
        (AddPoint::Fetching, AddEvent::NoModels) => (AddPoint::Typing, AddAction::SayNoModels),
        (AddPoint::Fetching, AddEvent::FetchFailed) => (
            AddPoint::Typing,
            AddAction::SayFetchFailed,
        ),
        (AddPoint::Choosing, AddEvent::Chosen) => (AddPoint::Probing, AddAction::Probe),
        (AddPoint::Choosing, AddEvent::Custom) => (AddPoint::Typing, AddAction::AskModel),
        (AddPoint::Typing, AddEvent::Typed) => (AddPoint::Probing, AddAction::Probe),
        (AddPoint::Probing, AddEvent::Connected) => (AddPoint::Ended, AddAction::Add),
        (AddPoint::Probing, AddEvent::Unreachable) => (
            AddPoint::Deciding,
            AddAction::AskWhetherToSave,
        ),
        (AddPoint::Deciding, AddEvent::SaveAnyway) => (AddPoint::Ended, AddAction::AddUnproved),
        _ => (AddPoint::Ended, AddAction::Cancel),
    }
}

/// Where a run of events leads, from a step on.
pub open spec fn add_run(p: AddPoint, events: Seq<AddEvent>) -> AddPoint
    decreases events.len(),
{
    if events.len() == 0 {
        p
    } else {
        add_next(add_run(p, events.drop_last()), events.last()).0
    }
}

/// An account is added only where the endpoint answered, or where it did not and the user wants the
/// account all the same; and never under a name that is taken: the name was found free before.
pub proof fn law_added_only_when_free_and_tried(events: Seq<AddEvent>, e: AddEvent)
    requires
        add_next(add_run(AddPoint::Name, events), e).1 == AddAction::Add || add_next(
            add_run(AddPoint::Name, events),
            e,
        ).1 == AddAction::AddUnproved,
    ensures
        e == AddEvent::Connected || (e == AddEvent::SaveAnyway && events.contains(
            AddEvent::Unreachable,
        )),
        events.contains(AddEvent::NameFree),
        !events.contains(AddEvent::NameTaken),
{
    lemma_add_run(events);
}

proof fn lemma_add_run(events: Seq<AddEvent>)
    ensures
        ({
            let p = add_run(AddPoint::Name, events);
            &&& (p == AddPoint::Fetching || p == AddPoint::Choosing || p == AddPoint::Typing || p
                == AddPoint::Probing || p == AddPoint::Deciding) ==> events.contains(
                AddEvent::NameFree,
            )
            &&& p == AddPoint::Deciding ==> events.contains(AddEvent::Unreachable)
            &&& p != AddPoint::Ended ==> !events.contains(AddEvent::NameTaken)
        }),
    decreases events.len(),
{
    if events.len() > 0 {
        let before = events.drop_last();
        lemma_add_run(before);
        assert(events =~= before.push(events.last()));
        assert(events[events.len() - 1] == events.last());
        if before.contains(AddEvent::NameFree) {
            let i = choose|i: int| 0 <= i < before.len() && before[i] == AddEvent::NameFree;
            assert(events[i] == AddEvent::NameFree);
        }
        if events.contains(AddEvent::NameTaken) {
            let i = choose|i: int| 0 <= i < events.len() && events[i] == AddEvent::NameTaken;
            if i < before.len() {
                assert(before[i] == AddEvent::NameTaken);
                assert(before.contains(AddEvent::NameTaken));
            }
        }
    }
}

/// What is said of an endpoint that answered: how long it took, in milliseconds, where that is known.
pub fn connected_message(latency: Option<u64>, model: &str) -> (r: Message)
    ensures
        r@ == message_of("shell.accounts.connected"@).with(
            "latency"@,
            decimal_of(
                match latency {
                    Some(ms) => ms as nat,
                    None => 0,
                },
            ),
        ).with("model"@, model@),
{
    let ms: u64 = match latency {
        Some(n) => n,
        None => 0,
    };
    let n = decimal(ms);
    Message::new("shell.accounts.connected").arg("latency", n.as_str()).arg("model", model)
}

/// What is said of whether a model can call tools.
pub fn tools_message(supports: bool) -> (r: Message)
    ensures
        r@ == message_of(
            if supports {
                "shell.accounts.tool_yes"@
            } else {
                "shell.accounts.tool_no"@
            },
        ),
{
    if supports {
        Message::new("shell.accounts.tool_yes")
    } else {
        Message::new("shell.accounts.tool_no")
    }
}

/// Puts a new account into the pool. It keeps the address that it was tried at, so that a later
/// switch of the current address does not send its key elsewhere.
pub fn add_account(config: &mut EndpointConfig, name: &str, key: &str, base: &str, model: &str) -> (r:
    Message)
    requires
        !name_taken_in(account_views(old(config).accounts@), name@),
        old(config).accounts@.len() < usize::MAX,
    ensures
        account_views(final(config).accounts@) == account_views(old(config).accounts@).push(
            (AccountView {
                name: name@,
                api_key: key@,
                api_base: Some(base@),
                model: Some(model@),
                weight: 1,
                disabled: false,
            }),
        ),
        final(config).model@ == old(config).model@,
        final(config).api_base@ == old(config).api_base@,
        final(config).api_key@ == old(config).api_key@,
        final(config).recent_models@ == old(config).recent_models@,
        final(config).fallback_models@ == old(config).fallback_models@,
        r@ == message_of("shell.accounts.added"@).with("name"@, name@).with(
            "count"@,
            decimal_of(old(config).accounts@.len() + 1),
        ),
{
    put_account(
        &mut config.accounts,
        Account {
            name: copy_text(name),
            api_key: copy_text(key),
            api_base: Some(copy_text(base)),
            model: Some(copy_text(model)),
            weight: 1,
            disabled: false,
        },
    );
    assert(account_views(config.accounts@).len() == old(config).accounts@.len() + 1);
    let n = decimal(config.accounts.len() as u64);
    Message::new("shell.accounts.added").arg("name", name).arg("count", n.as_str())
}

/// An account with an address of its own is asked at that address, whatever the current address is.
pub proof fn law_key_stays_with_its_address(
    v: Seq<AccountView>,
    i: int,
    current: Seq<char>,
    key: Seq<char>,
)
    requires
        0 <= i < v.len(),
        !v[i].disabled,
        v[i].api_base is Some,
    ensures
        endpoints_upto(v, current, key, v.len() as int).contains(
            (v[i].api_base->0, v[i].api_key),
        ),
{
    lemma_endpoint_listed(v, i, current, key, v.len() as int);
}

proof fn lemma_endpoint_listed(
    v: Seq<AccountView>,
    i: int,
    current: Seq<char>,
    key: Seq<char>,
    n: int,
)
    requires
        0 <= i < n <= v.len(),
        !v[i].disabled,
        v[i].api_base is Some,
    ensures
        endpoints_upto(v, current, key, n).contains((v[i].api_base->0, v[i].api_key)),
    decreases n,
{
    let before = endpoints_upto(v, current, key, n - 1);
    let all = endpoints_upto(v, current, key, n);
    let pair = (v[i].api_base->0, v[i].api_key);
    if i == n - 1 {
        if !before.contains(pair) {
            assert(all[all.len() - 1] == pair);
        }
    } else {
        lemma_endpoint_listed(v, i, current, key, n - 1);
        let k = choose|k: int| 0 <= k < before.len() && before[k] == pair;
        assert(all[k] == pair);
    }
}

/// Names that all differ stay so when an account with a free name is added.
pub proof fn law_adding_keeps_names_apart(v: Seq<AccountView>, a: AccountView)
    requires
        names_differ(v),
        !name_taken_in(v, a.name),
    ensures
        names_differ(v.push(a)),
{
    let all = v.push(a);
    assert forall|i: int, j: int| 0 <= i < j < all.len() implies (#[trigger] all[i]).name != (
    #[trigger] all[j]).name by {
        if j == v.len() {
            assert(names_of(v)[i] == v[i].name);
        }
    }
}

// ---------------------------------------------------------------------------
// What is asked and listed
// ---------------------------------------------------------------------------

/// The endpoints that are asked: the current one first, then that of every account that is not off, at
/// its own address or the current one, and no other.
pub proof fn law_which_endpoints_are_asked(
    v: Seq<AccountView>,
    base: Seq<char>,
    key: Seq<char>,
    i: int,
)
    ensures
        endpoints_upto(v, base, key, v.len() as int).len() > 0,
        endpoints_upto(v, base, key, v.len() as int)[0] == (base, key),
        0 <= i < v.len() && !v[i].disabled
            ==> endpoints_upto(v, base, key, v.len() as int).contains(
            (
                match v[i].api_base {
                    Some(b) => b,
                    None => base,
                },
                v[i].api_key,
            ),
        ),
        0 < i < endpoints_upto(v, base, key, v.len() as int).len() ==> exists|k: int|
            0 <= k < v.len() && !(#[trigger] v[k]).disabled && endpoints_upto(
                v,
                base,
                key,
                v.len() as int,
            )[i] == (
                match v[k].api_base {
                    Some(b) => b,
                    None => base,
                },
                v[k].api_key,
            ),
{
    lemma_endpoints(v, base, key, v.len() as int, i);
}

proof fn lemma_endpoints(v: Seq<AccountView>, base: Seq<char>, key: Seq<char>, n: int, i: int)
    requires
        0 <= n <= v.len(),
    ensures
        endpoints_upto(v, base, key, n).len() > 0,
        endpoints_upto(v, base, key, n)[0] == (base, key),
        0 <= i < n && !v[i].disabled ==> endpoints_upto(v, base, key, n).contains(
            (base_or(v[i], base), v[i].api_key),
        ),
        0 < i < endpoints_upto(v, base, key, n).len() ==> exists|k: int|
            0 <= k < n && !(#[trigger] v[k]).disabled && endpoints_upto(v, base, key, n)[i] == (
                base_or(v[k], base),
                v[k].api_key,
            ),
    decreases n,
{
    if n > 0 {
        lemma_endpoints(v, base, key, n - 1, i);
        let before = endpoints_upto(v, base, key, n - 1);
        let all = endpoints_upto(v, base, key, n);
        let a = v[n - 1];
        let pair = (base_or(a, base), a.api_key);
        if 0 <= i < n - 1 && !v[i].disabled {
            let old_pair = (base_or(v[i], base), v[i].api_key);
            let k = choose|k: int| 0 <= k < before.len() && before[k] == old_pair;
            assert(all[k] == old_pair);
        }
        if !a.disabled && !before.contains(pair) {
            assert(all[before.len() as int] == pair);
        }
        if 0 < i < all.len() && i >= before.len() {
            assert(all[i] == pair && !v[n - 1].disabled);
        }
    }
}

/// A value gives back the model and the address that it was made of, where the model has no zero
/// character.
pub proof fn law_value_parts_read_back(model: Seq<char>, base: Seq<char>)
    requires
        !model.contains('\0'),
    ensures
        model_value(model, base) == model + "\0"@ + base,
        value_parts(model + "\0"@ + base) == Some((model, base)),
{
    reveal_strlit("\0");
    let s = model + "\0"@ + base;
    let n = model.len() as int;
    assert(s.subrange(n, n + 1) =~= "\0"@);
    assert(occurs_at(s, "\0"@, n));
    law_search_finds_the_first(s, "\0"@, 0);
    let i = index_from(s, "\0"@, 0)->0;
    if i < n {
        assert(s.subrange(i, i + 1)[0] == "\0"@[0]);
        assert(s[i] == model[i]);
        assert(model.contains('\0'));
    }
    assert(s.take(n) =~= model);
    assert(s.skip(n + 1) =~= base);
}

/// Whether a row is for a model at an address.
pub open spec fn is_row(r: ModelRowView, model: Seq<char>, base: Seq<char>) -> bool {
    r.value == model + "\0"@ + base && r.model == model && r.base == base && !r.recent
}

/// Whether a row comes from what the picker is made of.
pub open spec fn has_a_source(
    r: ModelRowView,
    config: EndpointConfig,
    fetched: Seq<(Seq<char>, Seq<char>)>,
) -> bool {
    ||| is_row(r, config.model@, config.api_base@)
    ||| r.recent && views(config.recent_models@).contains(r.value) && value_parts(r.value) == Some(
        (r.model, r.base),
    )
    ||| exists|k: int|
        0 <= k < fetched.len() && is_row(r, (#[trigger] fetched[k]).0, fetched[k].1)
    ||| exists|k: int|
        0 <= k < config.accounts@.len() && !(#[trigger] config.accounts@[k]).disabled
            && config.accounts@[k].model is Some && is_row(
            r,
            config.accounts@[k].model->0@,
            match config.accounts@[k].api_base {
                Some(b) => b@,
                None => config.api_base@,
            },
        )
}

/// Recent choices stand before all others but the first row.
pub open spec fn recents_first(rows: Seq<ModelRowView>) -> bool {
    forall|i: int, j: int|
        0 < i < j < rows.len() && (#[trigger] rows[j]).recent ==> (#[trigger] rows[i]).recent
}

proof fn lemma_listed_push(rows: Seq<ModelRowView>, row: ModelRowView)
    ensures
        listed(offered(rows, row), row.value),
        forall|value: Seq<char>| listed(rows, value)
            ==> #[trigger] listed(offered(rows, row), value),
        rows.len() <= offered(rows, row).len(),
        offered(rows, row).take(rows.len() as int) == rows,
        offered(rows, row).len() > rows.len() ==> offered(rows, row).last() == row
            && offered(rows, row).len() == rows.len() + 1,
{
    let all = offered(rows, row);
    assert(all.take(rows.len() as int) =~= rows);
    if !listed(rows, row.value) {
        assert(all[rows.len() as int].value == row.value);
    }
    assert forall|value: Seq<char>| listed(rows, value) implies #[trigger] listed(all, value) by {
        let k = choose|k: int| 0 <= k < rows.len() && (#[trigger] rows[k]).value == value;
        assert(all[k].value == value);
    }
}

proof fn lemma_recents_listed(
    config: EndpointConfig,
    fetched: Seq<(Seq<char>, Seq<char>)>,
    rows: Seq<ModelRowView>,
    n: int,
)
    requires
        0 <= n <= config.recent_models@.len(),
        rows == seq![row_of(config.model@, config.api_base@)],
    ensures
        ({
            let all = with_recents(rows, views(config.recent_models@), n);
            &&& forall|k: int|
                0 <= k < n && value_parts(#[trigger] views(config.recent_models@)[k]) is Some
                    ==> listed(all, views(config.recent_models@)[k])
            &&& forall|i: int| 0 <= i < all.len()
                ==> has_a_source(#[trigger] all[i], config, fetched)
            &&& all.len() > 0
            &&& forall|i: int| 0 < i < all.len() ==> (#[trigger] all[i]).recent
        }),
    decreases n,
{
    let recents = views(config.recent_models@);
    if n > 0 {
        lemma_recents_listed(config, fetched, rows, n - 1);
        let before = with_recents(rows, recents, n - 1);
        let all = with_recents(rows, recents, n);
        match value_parts(recents[n - 1]) {
            Some((model, base)) => {
                let row = ModelRowView { value: recents[n - 1], model, base, recent: true };
                lemma_listed_push(before, row);
                assert(recents.contains(row.value));
                assert forall|i: int| 0 <= i < all.len() implies has_a_source(
                    #[trigger] all[i],
                    config,
                    fetched,
                ) by {
                    if i < before.len() {
                        assert(all[i] == before[i]);
                    }
                }
                assert forall|i: int| 0 < i < all.len() implies (#[trigger] all[i]).recent by {
                    if i < before.len() {
                        assert(all[i] == before[i]);
                    }
                }
            },
            None => {},
        }
    } else {
        assert(rows[0].model == config.model@);
        assert(is_row(rows[0], config.model@, config.api_base@));
    }
}

proof fn lemma_more_listed(rows: Seq<ModelRowView>, row: ModelRowView, all: Seq<ModelRowView>)
    requires
        recents_first(rows),
        all == offered(rows, row),
        !row.recent,
        rows.len() > 0,
    ensures
        recents_first(all),
        all.len() > 0,
        all[0] == rows[0],
{
    lemma_listed_push(rows, row);
    assert forall|i: int, j: int| 0 < i < j < all.len() && (#[trigger] all[j]).recent implies (
    #[trigger] all[i]).recent by {
        if j < rows.len() {
            assert(all[j] == rows[j] && all[i] == rows[i]);
        } else {
            assert(all[j] == row);
        }
    }
}

proof fn lemma_fetched_listed(
    config: EndpointConfig,
    rows: Seq<ModelRowView>,
    fetched: Seq<(Seq<char>, Seq<char>)>,
    n: int,
)
    requires
        0 <= n <= fetched.len(),
        rows.len() > 0,
        recents_first(rows),
        forall|i: int| 0 <= i < rows.len() ==> has_a_source(#[trigger] rows[i], config, fetched),
    ensures
        ({
            let all = with_fetched(rows, fetched, n);
            &&& forall|k: int|
                0 <= k < n ==> listed(all, (#[trigger] fetched[k]).0 + "\0"@ + fetched[k].1)
            &&& forall|value: Seq<char>| listed(rows, value) ==> #[trigger] listed(all, value)
            &&& forall|i: int| 0 <= i < all.len()
                ==> has_a_source(#[trigger] all[i], config, fetched)
            &&& recents_first(all) && all.len() > 0 && all[0] == rows[0]
        }),
    decreases n,
{
    if n > 0 {
        lemma_fetched_listed(config, rows, fetched, n - 1);
        let before = with_fetched(rows, fetched, n - 1);
        let all = with_fetched(rows, fetched, n);
        let row = row_of(fetched[n - 1].0, fetched[n - 1].1);
        lemma_listed_push(before, row);
        lemma_more_listed(before, row, all);
        assert(is_row(row, fetched[n - 1].0, fetched[n - 1].1));
        assert forall|i: int| 0 <= i < all.len() implies has_a_source(
            #[trigger] all[i],
            config,
            fetched,
        ) by {
            if i < before.len() {
                assert(all[i] == before[i]);
            } else {
                assert(all[i] == row);
            }
        }
    }
}

proof fn lemma_accounts_listed(
    config: EndpointConfig,
    rows: Seq<ModelRowView>,
    fetched: Seq<(Seq<char>, Seq<char>)>,
    n: int,
)
    requires
        0 <= n <= config.accounts@.len(),
        rows.len() > 0,
        recents_first(rows),
        forall|i: int| 0 <= i < rows.len() ==> has_a_source(#[trigger] rows[i], config, fetched),
    ensures
        ({
            let v = account_views(config.accounts@);
            let all = with_accounts(rows, v, config.api_base@, n);
            &&& forall|value: Seq<char>| listed(rows, value) ==> #[trigger] listed(all, value)
            &&& forall|i: int| 0 <= i < all.len()
                ==> has_a_source(#[trigger] all[i], config, fetched)
            &&& recents_first(all) && all.len() > 0 && all[0] == rows[0]
        }),
    decreases n,
{
    let v = account_views(config.accounts@);
    if n > 0 {
        lemma_accounts_listed(config, rows, fetched, n - 1);
        let before = with_accounts(rows, v, config.api_base@, n - 1);
        let all = with_accounts(rows, v, config.api_base@, n);
        let a = v[n - 1];
        if !a.disabled && a.model is Some {
            let row = row_of(a.model->0, base_or(a, config.api_base@));
            lemma_listed_push(before, row);
            lemma_more_listed(before, row, all);
            assert(!config.accounts@[n - 1].disabled);
            assert(is_row(row, a.model->0, base_or(a, config.api_base@)));
            assert forall|i: int| 0 <= i < all.len() implies has_a_source(
                #[trigger] all[i],
                config,
                fetched,
            ) by {
                if i < before.len() {
                    assert(all[i] == before[i]);
                } else {
                    assert(all[i] == row);
                }
            }
        }
    }
}

/// Everything that can be chosen is in the picker and nothing else is: the current model first, every
/// recent choice, every model that an endpoint offers and every model that an account names; each row
/// says its model and its address, and recent choices stand before what was not chosen yet.
pub proof fn law_everything_can_be_picked(
    config: EndpointConfig,
    fetched: Seq<(Seq<char>, Seq<char>)>,
    k: int,
)
    ensures
        ({
            let rows = picker_rows(config, fetched);
            &&& rows.len() > 0 && is_row(rows[0], config.model@, config.api_base@)
            &&& 0 <= k < fetched.len() ==> listed(rows, fetched[k].0 + "\0"@ + fetched[k].1)
            &&& 0 <= k < config.recent_models@.len() && value_parts(
                config.recent_models@[k]@,
            ) is Some ==> listed(rows, config.recent_models@[k]@)
            &&& 0 <= k < rows.len() ==> has_a_source(rows[k], config, fetched)
            &&& recents_first(rows)
        }),
{
    let recents = views(config.recent_models@);
    let first = seq![row_of(config.model@, config.api_base@)];
    let one = with_recents(first, recents, recents.len() as int);
    lemma_recents_listed(config, fetched, first, recents.len() as int);
    lemma_first_stays(first, recents, recents.len() as int);
    let two = with_fetched(one, fetched, fetched.len() as int);
    lemma_fetched_listed(config, one, fetched, fetched.len() as int);
    lemma_accounts_listed(config, two, fetched, config.accounts@.len() as int);
    if 0 <= k < recents.len() {
        assert(recents[k] == config.recent_models@[k]@);
    }
    if 0 <= k < fetched.len() {
        let value = fetched[k].0 + "\0"@ + fetched[k].1;
        assert(listed(two, value));
    }
}

proof fn lemma_first_stays(rows: Seq<ModelRowView>, recents: Seq<Seq<char>>, n: int)
    requires
        rows.len() > 0,
        0 <= n <= recents.len(),
    ensures
        with_recents(rows, recents, n).len() > 0,
        with_recents(rows, recents, n)[0] == rows[0],
    decreases n,
{
    if n > 0 {
        lemma_first_stays(rows, recents, n - 1);
    }
}

proof fn lemma_key_from(es: Seq<(Seq<char>, Seq<char>)>, base: Seq<char>, i: int)
    requires
        0 <= i <= es.len(),
    ensures
        key_from(es, base, i) matches Some(key) ==> exists|k: int|
            i <= k < es.len() && (#[trigger] es[k]).0 == base && es[k].1 == key && forall|j: int|
                i <= j < k ==> (#[trigger] es[j]).0 != base,
        key_from(es, base, i) is None ==> forall|j: int|
            i <= j < es.len() ==> (#[trigger] es[j]).0 != base,
    decreases es.len() - i,
{
    if i < es.len() {
        lemma_key_from(es, base, i + 1);
        if es[i].0 == base {
            assert(es[i].1 == key_from(es, base, i)->0);
        } else if key_from(es, base, i + 1) is Some {
            let key = key_from(es, base, i + 1)->0;
            let k = choose|k: int|
                i + 1 <= k < es.len() && (#[trigger] es[k]).0 == base && es[k].1 == key && forall|
                    j: int,
                |
                    i + 1 <= j < k ==> (#[trigger] es[j]).0 != base;
            assert(es[k].0 == base);
        }
    }
}

/// The key for an address is that of the first endpoint with the address.
pub proof fn law_key_of_an_address(es: Seq<(Seq<char>, Seq<char>)>, base: Seq<char>)
    ensures
        key_from(es, base, 0) matches Some(key) ==> exists|k: int|
            0 <= k < es.len() && (#[trigger] es[k]).0 == base && es[k].1 == key && forall|j: int|
                0 <= j < k ==> (#[trigger] es[j]).0 != base,
        key_from(es, base, 0) is None ==> forall|j: int|
            0 <= j < es.len() ==> (#[trigger] es[j]).0 != base,
{
    lemma_key_from(es, base, 0);
}

/// A model is named by all words behind the command, with blanks between them; what the user typed counts
/// trimmed, where it is not blank; and a name is taken where another account has it or where it is the
/// name of the primary one in any case of letters.
pub proof fn law_what_the_user_names(
    command: Seq<char>,
    words: Seq<Seq<char>>,
    answer: Seq<char>,
    v: Seq<AccountView>,
    name: Seq<char>,
)
    ensures
        named_model(seq![command] + words) == joined(words, " "@),
        typed(None) is None,
        typed(Some(answer)) == (if is_blank(answer) {
            None
        } else {
            Some(trimmed(answer))
        }),
        name_taken_in(v, name) <==> ascii_lower(name) == "primary"@ || exists|i: int|
            0 <= i < v.len() && (#[trigger] v[i]).name == name,
{
    assert((seq![command] + words).skip(1) =~= words);
    if names_of(v).contains(name) {
        let i = choose|i: int| 0 <= i < names_of(v).len() && names_of(v)[i] == name;
        assert(v[i].name == name);
    }
    if exists|i: int| 0 <= i < v.len() && (#[trigger] v[i]).name == name {
        let i = choose|i: int| 0 <= i < v.len() && (#[trigger] v[i]).name == name;
        assert(names_of(v)[i] == name);
    }
}

/// How accounts and fallback models are listed: by their names, with a mark for what they are, and of a
/// key never more than the first six characters.
pub proof fn law_how_accounts_are_listed(a: AccountView, m: Seq<char>)
    ensures
        account_row(a).value == "acct:"@ + a.name,
        account_row(a).label == a.name,
        account_row(a).detail matches Some(d) && d.len() <= 6 && d == a.api_key.take(
            d.len() as int,
        ) && (d.len() < 6 ==> d == a.api_key),
        account_row(a).kind == (if a.disabled {
            ManageKind::DisabledAccount
        } else {
            ManageKind::Account
        }),
        fallback_row(m).value == "fb:"@ + m,
        fallback_row(m).label == m,
        fallback_row(m).detail is None,
        fallback_row(m).kind == ManageKind::Fallback,
{
    assert(a.api_key.take(a.api_key.len() as int) =~= a.api_key);
}

proof fn lemma_without_in_order(v: Seq<AccountView>, name: Seq<char>, n: int) -> (at: Seq<int>)
    requires
        0 <= n <= v.len(),
    ensures
        at.len() == without_name(v, name, n).len(),
        forall|k: int|
            0 <= k < at.len() ==> 0 <= #[trigger] at[k] < n && (v[at[k]].name != name)
                && without_name(v, name, n)[k]
                == v[at[k]],
        forall|j: int, k: int| 0 <= j < k < at.len() ==> #[trigger] at[j] < #[trigger] at[k],
        forall|i: int| 0 <= i < n && ((#[trigger] v[i]).name != name) ==> at.contains(i),
    decreases n,
{
    if n == 0 {
        Seq::empty()
    } else {
        let before = lemma_without_in_order(v, name, n - 1);
        let at = if v[n - 1].name != name {
            before.push(n - 1)
        } else {
            before
        };
        assert forall|k: int| 0 <= k < at.len() implies 0 <= #[trigger] at[k] < n
            && (v[at[k]].name != name)
            && without_name(v, name, n)[k] == v[at[k]] by {
            if k < before.len() {
                assert(at[k] == before[k]);
            }
        }
        assert forall|j: int, k: int| 0 <= j < k < at.len() implies #[trigger] at[j]
            < #[trigger] at[k] by {
            assert(at[j] == before[j]);
            if k < before.len() {
                assert(at[k] == before[k]);
            }
        }
        assert forall|i: int| 0 <= i < n && ((#[trigger] v[i]).name != name)
            implies at.contains(i) by {
            if i < n - 1 {
                assert(before.contains(i));
                let k = choose|k: int| 0 <= k < before.len() && before[k] == i;
                assert(at[k] == i);
            } else {
                assert(at[before.len() as int] == i);
            }
        }
        at
    }
}

/// Removing an account keeps every account with another name, as it is and in its order, and nothing
/// else.
pub proof fn law_removing_keeps_the_others(v: Seq<AccountView>, name: Seq<char>) -> (at: Seq<int>)
    ensures
        ({
            let left = without_name(v, name, v.len() as int);
            &&& at.len() == left.len()
            &&& forall|k: int|
                0 <= k < at.len() ==> 0 <= #[trigger] at[k] < v.len() && left[k] == v[at[k]]
                    && left[k].name != name
            &&& forall|j: int, k: int| 0 <= j < k < at.len() ==> #[trigger] at[j] < #[trigger] at[k]
            &&& forall|i: int| 0 <= i < v.len() && (#[trigger] v[i]).name != name ==> at.contains(i)
        }),
{
    lemma_without_in_order(v, name, v.len() as int)
}

/// A change of the fallback models leaves everything else.
pub proof fn law_only_fallbacks_change(a: EndpointConfig, b: EndpointConfig)
    requires
        same_but_fallbacks(a, b),
    ensures
        a.accounts@ == b.accounts@,
        a.model@ == b.model@,
        a.api_base@ == b.api_base@,
        a.api_key@ == b.api_key@,
        a.recent_models@ == b.recent_models@,
{
}

/// The way to a new account, action by action: what leads to each of them, and to which step.
pub proof fn law_way_to_an_account(p: AddPoint, e: AddEvent)
    ensures
        add_next(p, e) == (AddPoint::Key, AddAction::AskKey) <==> p == AddPoint::Name
            && e == AddEvent::Typed,
        add_next(p, e) == (AddPoint::Base, AddAction::AskBase) <==> p == AddPoint::Key
            && e == AddEvent::Typed,
        add_next(p, e) == (AddPoint::Fetching, AddAction::FetchModels) <==> p == AddPoint::Base
            && e == AddEvent::NameFree,
        add_next(p, e) == (AddPoint::Ended, AddAction::RefuseName) <==> p == AddPoint::Base
            && e == AddEvent::NameTaken,
        add_next(p, e) == (AddPoint::Choosing, AddAction::ShowModels) <==> p == AddPoint::Fetching
            && e == AddEvent::Models,
        add_next(p, e) == (AddPoint::Typing, AddAction::SayNoModels) <==> p == AddPoint::Fetching
            && e == AddEvent::NoModels,
        add_next(p, e) == (AddPoint::Typing, AddAction::SayFetchFailed) <==> p == AddPoint::Fetching
            && e == AddEvent::FetchFailed,
        add_next(p, e) == (AddPoint::Typing, AddAction::AskModel) <==> p == AddPoint::Choosing
            && e == AddEvent::Custom,
        add_next(p, e) == (AddPoint::Probing, AddAction::Probe)
            <==> (p == AddPoint::Choosing && e == AddEvent::Chosen)
            || (p == AddPoint::Typing && e == AddEvent::Typed),
        add_next(p, e) == (AddPoint::Deciding, AddAction::AskWhetherToSave)
            <==> p == AddPoint::Probing && e == AddEvent::Unreachable,
        add_next(p, e) == (AddPoint::Ended, AddAction::Add) <==> p == AddPoint::Probing
            && e == AddEvent::Connected,
        add_next(p, e) == (AddPoint::Ended, AddAction::AddUnproved) <==> p == AddPoint::Deciding
            && e == AddEvent::SaveAnyway,
        add_next(p, e).1 == AddAction::Cancel ==> add_next(p, e).0 == AddPoint::Ended,
{
}

} // verus!
