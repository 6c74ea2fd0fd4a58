//! Accounts and endpoints: the pool that requests rotate through, switching between endpoints, and
//! the lists from which models are chosen.
use crate::json::opt_view;
use crate::text::{
    blank, chars_of, copy_text, decimal, decimal_of, find_from, has_char, index_from, is_blank,
    law_decimal_is_injective, law_search_finds_the_first, occurs_at, same, slice_text, views,
};
use vstd::prelude::*;

verus! {

/// An account of the pool. Without an address it goes by the current one.
pub struct Account {
    pub name: String,
    pub api_key: String,
    pub api_base: Option<String>,
    pub model: Option<String>,
    pub weight: u32,
    pub disabled: bool,
}

/// An account as plain sequences.
pub struct AccountView {
    pub name: Seq<char>,
    pub api_key: Seq<char>,
    pub api_base: Option<Seq<char>>,
    pub model: Option<Seq<char>>,
    pub weight: u32,
    pub disabled: bool,
}

impl View for Account {
    type V = AccountView;

    open spec fn view(&self) -> AccountView {
        AccountView {
            name: self.name@,
            api_key: self.api_key@,
            api_base: opt_view(self.api_base),
            model: opt_view(self.model),
            weight: self.weight,
            disabled: self.disabled,
        }
    }
}

/// Accounts as plain sequences.
pub open spec fn account_views(v: Seq<Account>) -> Seq<AccountView> {
    Seq::new(v.len(), |i: int| v[i]@)
}

/// The names of accounts.
pub open spec fn names_of(v: Seq<AccountView>) -> Seq<Seq<char>> {
    Seq::new(v.len(), |i: int| v[i].name)
}

/// Model, endpoint, pool and lists of the configuration.
pub struct EndpointConfig {
    pub model: String,
    pub api_base: String,
    pub api_key: String,
    pub accounts: Vec<Account>,
    pub recent_models: Vec<String>,
    pub fallback_models: Vec<String>,
}

fn copy_opt(s: &Option<String>) -> (r: Option<String>)
    ensures
        opt_view(r) == opt_view(*s),
{
    match s {
        Some(t) => Some(copy_text(t.as_str())),
        None => None,
    }
}

pub(crate) fn copy_account(a: &Account) -> (r: Account)
    ensures
        r@ == a@,
{
    Account {
        name: copy_text(a.name.as_str()),
        api_key: copy_text(a.api_key.as_str()),
        api_base: copy_opt(&a.api_base),
        model: copy_opt(&a.model),
        weight: a.weight,
        disabled: a.disabled,
    }
}

pub(crate) fn put_account(v: &mut Vec<Account>, a: Account)
    ensures
        account_views(final(v)@) == account_views(old(v)@).push(a@),
{
    let ghost before = account_views(v@);
    v.push(a);
    assert(account_views(v@) =~= before.push(a@));
}

pub(crate) fn put_string(v: &mut Vec<String>, s: String)
    ensures
        views(final(v)@) == views(old(v)@).push(s@),
{
    let ghost before = views(v@);
    v.push(s);
    assert(views(v@) =~= before.push(s@));
}

// ---------------------------------------------------------------------------
// The pool
// ---------------------------------------------------------------------------

/// An account as it stands in the pool: it has at least the weight one.
pub open spec fn pooled(a: AccountView) -> AccountView {
    AccountView {
        weight: if a.weight < 1 {
            1
        } else {
            a.weight
        },
        ..a
    }
}

/// The primary account of the pool. It is off where there is no key.
pub open spec fn primary_account(key: Seq<char>) -> AccountView {
    AccountView {
        name: "primary"@,
        api_key: key,
        api_base: None,
        model: None,
        weight: 1,
        disabled: is_blank(key),
    }
}

/// The pool that requests rotate through: the primary key first, then every account.
pub fn rotation_accounts_from_config(config: &EndpointConfig) -> (r: Vec<Account>)
    ensures
        account_views(r@) == seq![primary_account(config.api_key@)] + Seq::new(
            config.accounts@.len(),
            |i: int| pooled(config.accounts@[i]@),
        ),
{
    let mut pool: Vec<Account> = Vec::new();
    assert(account_views(pool@) =~= Seq::empty());
    put_account(
        &mut pool,
        Account {
            name: copy_text("primary"),
            api_key: copy_text(config.api_key.as_str()),
            api_base: None,
            model: None,
            weight: 1,
            disabled: blank(config.api_key.as_str()),
        },
    );
    let mut i: usize = 0;
    assert(account_views(pool@) =~= seq![primary_account(config.api_key@)] + Seq::new(
        0,
        |k: int| pooled(config.accounts@[k]@),
    ));
    while i < config.accounts.len()
        invariant
            i <= config.accounts@.len(),
            account_views(pool@) == seq![primary_account(config.api_key@)] + Seq::new(
                i as nat,
                |k: int| pooled(config.accounts@[k]@),
            ),
        decreases config.accounts.len() - i,
    {
        let mut a = copy_account(&config.accounts[i]);
        if a.weight < 1 {
            a.weight = 1;
        }
        put_account(&mut pool, a);
        i += 1;
        assert(account_views(pool@) =~= seq![primary_account(config.api_key@)] + Seq::new(
            i as nat,
            |k: int| pooled(config.accounts@[k]@),
        ));
    }
    pool
}

/// Whether there is anything to rotate through: another model or another account.
pub fn rotation_wanted(config: &EndpointConfig) -> (r: bool)
    ensures
        r == (config.fallback_models@.len() > 0 || config.accounts@.len() > 0),
{
    config.fallback_models.len() > 0 || config.accounts.len() > 0
}

// ---------------------------------------------------------------------------
// Names
// ---------------------------------------------------------------------------

/// What stands before the first slash or colon.
pub open spec fn host_part(s: Seq<char>) -> Seq<char>
    decreases s.len(),
{
    if s.len() == 0 || s[0] == '/' || s[0] == ':' {
        Seq::empty()
    } else {
        seq![s[0]] + host_part(s.skip(1))
    }
}

/// The host of an address: what stands behind the scheme.
pub open spec fn host_of(base: Seq<char>) -> Option<Seq<char>> {
    match index_from(base, "://"@, 0) {
        Some(i) => Some(host_part(base.skip(i + 3))),
        None => None,
    }
}

/// A readable name for an account: the host, where it is one with a dot, else the model.
pub open spec fn label_of(base: Seq<char>, model: Seq<char>) -> Seq<char> {
    match host_of(base) {
        Some(h) => if h.contains('.') {
            h
        } else {
            model
        },
        None => model,
    }
}

proof fn lemma_host_part(s: Seq<char>, n: int)
    requires
        0 <= n <= s.len(),
        forall|i: int| 0 <= i < n ==> #[trigger] s[i] != '/' && s[i] != ':',
        n == s.len() || s[n] == '/' || s[n] == ':',
    ensures
        host_part(s) == s.take(n),
    decreases n,
{
    if n > 0 {
        assert(s[0] != '/');
        let rest = s.skip(1);
        assert forall|i: int| 0 <= i < n - 1 implies #[trigger] rest[i] != '/' && rest[i] != ':' by {
            assert(rest[i] == s[i + 1]);
        }
        lemma_host_part(rest, n - 1);
        assert(seq![s[0]] + rest.take(n - 1) =~= s.take(n));
    } else {
        assert(s.take(0) =~= Seq::empty());
    }
}

/// A readable name for an account.
pub fn account_label(base: &str, model: &str) -> (r: String)
    ensures
        r@ == label_of(base@, model@),
{
    proof {
        reveal_strlit("://");
    }
    let cs = chars_of(base);
    let scheme = chars_of("://");
    match find_from(&cs, &scheme, 0) {
        Some(at) => {
            assert(at + scheme@.len() <= cs.len());
            let from: usize = at + 3;
            let mut to: usize = from;
            while to < cs.len() && cs[to] != '/' && cs[to] != ':'
                invariant
                    from <= to <= cs@.len(),
                    forall|i: int| from <= i < to ==> #[trigger] cs@[i] != '/' && cs@[i] != ':',
                decreases cs.len() - to,
            {
                to += 1;
            }
            let host = slice_text(&cs, from, to);
            proof {
                let rest = cs@.skip(from as int);
                assert forall|i: int| 0 <= i < to - from implies #[trigger] rest[i] != '/'
                    && rest[i] != ':' by {
                    assert(rest[i] == cs@[i + from]);
                }
                lemma_host_part(rest, to - from);
                assert(rest.take(to - from) =~= cs@.subrange(from as int, to as int));
            }
            if has_char(host.as_str(), '.') {
                host
            } else {
                copy_text(model)
            }
        },
        None => copy_text(model),
    }
}

/// A name with a number behind it.
pub open spec fn numbered(label: Seq<char>, n: nat) -> Seq<char> {
    label + "-"@ + decimal_of(n)
}

/// Whether `name` is `label`, or `label` with the smallest number from two on that makes it a new
/// name.
pub open spec fn is_fresh_name(names: Seq<Seq<char>>, label: Seq<char>, name: Seq<char>) -> bool {
    if !names.contains(label) {
        name == label
    } else {
        exists|n: nat| #[trigger] is_first_free(names, label, n) && name == numbered(label, n)
    }
}

/// Whether `n` is the smallest number from two on that makes the label a new name.
pub open spec fn is_first_free(names: Seq<Seq<char>>, label: Seq<char>, n: nat) -> bool {
    &&& n >= 2
    &&& !names.contains(numbered(label, n))
    &&& forall|m: nat| 2 <= m < n ==> names.contains(#[trigger] numbered(label, m))
}

/// The names with the numbers from two up to `n`.
spec fn numbered_upto(label: Seq<char>, n: nat) -> Set<Seq<char>>
    decreases n,
{
    if n <= 2 {
        Set::empty()
    } else {
        numbered_upto(label, (n - 1) as nat).insert(numbered(label, (n - 1) as nat))
    }
}

proof fn lemma_numbered_differ(label: Seq<char>, a: nat, b: nat)
    requires
        a != b,
    ensures
        numbered(label, a) != numbered(label, b),
{
    if numbered(label, a) == numbered(label, b) {
        let k = (label + "-"@).len() as int;
        assert(numbered(label, a).skip(k) =~= decimal_of(a));
        assert(numbered(label, b).skip(k) =~= decimal_of(b));
        law_decimal_is_injective(a, b);
    }
}

proof fn lemma_numbered_upto(label: Seq<char>, n: nat)
    requires
        n >= 2,
    ensures
        numbered_upto(label, n).finite(),
        numbered_upto(label, n).len() == n - 2,
        forall|s: Seq<char>|
            numbered_upto(label, n).contains(s) ==> exists|m: nat|
                2 <= m < n && s == #[trigger] numbered(label, m),
    decreases n,
{
    if n > 2 {
        let k = (n - 1) as nat;
        lemma_numbered_upto(label, k);
        assert(!numbered_upto(label, k).contains(numbered(label, k))) by {
            if numbered_upto(label, k).contains(numbered(label, k)) {
                let m = choose|m: nat|
                    2 <= m < k && numbered(label, k) == #[trigger] numbered(label, m);
                lemma_numbered_differ(label, k, m);
            }
        }
        assert forall|s: Seq<char>| numbered_upto(label, n).contains(s) implies exists|m: nat|
            2 <= m < n && s == #[trigger] numbered(label, m) by {
            if s == numbered(label, k) {
            } else {
                assert(numbered_upto(label, k).contains(s));
                let m = choose|m: nat| 2 <= m < k && s == #[trigger] numbered(label, m);
                assert(s == numbered(label, m));
            }
        }
    }
}

/// No list of names can hold more numbered names than it is long.
proof fn lemma_some_number_is_free(names: Seq<Seq<char>>, label: Seq<char>, n: nat)
    requires
        n >= 2,
        forall|m: nat| 2 <= m < n ==> names.contains(#[trigger] numbered(label, m)),
    ensures
        n - 2 <= names.len(),
{
    lemma_numbered_upto(label, n);
    let used = numbered_upto(label, n);
    assert(used.subset_of(names.to_set())) by {
        assert forall|s: Seq<char>| used.contains(s) implies names.to_set().contains(s) by {
            let m = choose|m: nat| 2 <= m < n && s == #[trigger] numbered(label, m);
            assert(names.contains(numbered(label, m)));
        }
    }
    vstd::seq_lib::seq_to_set_is_finite(names);
    vstd::set_lib::lemma_len_subset(used, names.to_set());
    names.lemma_cardinality_of_set();
}

/// Whether an account has a name.
pub(crate) fn name_used(accounts: &Vec<Account>, name: &str) -> (r: bool)
    ensures
        r == names_of(account_views(accounts@)).contains(name@),
{
    let ghost names = names_of(account_views(accounts@));
    let mut i: usize = 0;
    while i < accounts.len()
        invariant
            i <= accounts@.len(),
            names == names_of(account_views(accounts@)),
            forall|k: int| 0 <= k < i ==> #[trigger] names[k] != name@,
        decreases accounts.len() - i,
    {
        if same(accounts[i].name.as_str(), name) {
            assert(names[i as int] == name@);
            return true;
        }
        assert(names[i as int] != name@);
        i += 1;
    }
    false
}

/// A name that no account has: the label itself, or the label with a number.
pub fn unique_account_name(accounts: &Vec<Account>, label: &str) -> (r: String)
    requires
        accounts@.len() < i32::MAX,
    ensures
        is_fresh_name(names_of(account_views(accounts@)), label@, r@),
        !names_of(account_views(accounts@)).contains(r@),
{
    let ghost names = names_of(account_views(accounts@));
    if !name_used(accounts, label) {
        return copy_text(label);
    }
    let mut n: u64 = 2;
    loop
        invariant
            names == names_of(account_views(accounts@)),
            names.len() == accounts@.len(),
            accounts@.len() < i32::MAX,
            names.contains(label@),
            n >= 2,
            forall|m: nat| 2 <= m < n ==> names.contains(#[trigger] numbered(label@, m)),
        decreases accounts@.len() + 2 - n,
    {
        proof {
            lemma_some_number_is_free(names, label@, n as nat);
        }
        let mut candidate = copy_text(label);
        candidate.append("-");
        let d = decimal(n);
        candidate.append(d.as_str());
        assert(candidate@ == numbered(label@, n as nat));
        if !name_used(accounts, candidate.as_str()) {
            assert(is_first_free(names, label@, n as nat));
            return candidate;
        }
        n += 1;
        proof {
            lemma_some_number_is_free(names, label@, n as nat);
        }
    }
}

// ---------------------------------------------------------------------------
// Switching
// ---------------------------------------------------------------------------

/// Whether an account stands for an endpoint: the same key at the same address.
pub open spec fn stands_for(a: AccountView, key: Seq<char>, base: Seq<char>) -> bool {
    a.api_key == key && a.api_base == Some(base)
}

fn is_account_for(a: &Account, key: &str, base: &str) -> (r: bool)
    ensures
        r == stands_for(a@, key@, base@),
{
    let same_base = match &a.api_base {
        Some(b) => same(b.as_str(), base),
        None => false,
    };
    same(a.api_key.as_str(), key) && same_base
}

/// Whether any account stands for an endpoint.
pub open spec fn kept_in(v: Seq<AccountView>, key: Seq<char>, base: Seq<char>) -> bool {
    exists|i: int| 0 <= i < v.len() && stands_for(#[trigger] v[i], key, base)
}

/// The accounts among the first `n` that stay when an endpoint becomes the primary one: all but those
/// that stand for it. An account without a key stays.
pub open spec fn promoted_upto(
    v: Seq<AccountView>,
    key: Seq<char>,
    base: Seq<char>,
    n: int,
) -> Seq<AccountView>
    decreases n,
{
    if n <= 0 {
        Seq::empty()
    } else if v[n - 1].api_key.len() == 0 || !stands_for(v[n - 1], key, base) {
        promoted_upto(v, key, base, n - 1).push(v[n - 1])
    } else {
        promoted_upto(v, key, base, n - 1)
    }
}

/// The account that keeps an endpoint that is left.
pub open spec fn is_outgoing(
    a: AccountView,
    names: Seq<Seq<char>>,
    model: Seq<char>,
    base: Seq<char>,
    key: Seq<char>,
) -> bool {
    &&& is_fresh_name(names, label_of(base, model), a.name)
    &&& !names.contains(a.name)
    &&& a.api_key == key
    &&& a.api_base == Some(base)
    &&& a.model == Some(model)
    &&& a.weight == 1
    &&& !a.disabled
}

/// Whether leaving an endpoint for another adds an account that keeps it.
pub open spec fn demotes(v: Seq<AccountView>, old_key: Seq<char>, old_base: Seq<char>) -> bool {
    old_key.len() > 0 && !kept_in(v, old_key, old_base)
}

/// The entry of the list of recent models.
pub open spec fn recent_entry(model: Seq<char>, base: Seq<char>) -> Seq<char> {
    model + "\0"@ + base
}

/// The entries among the first `n` that differ from one.
pub open spec fn others_of(v: Seq<Seq<char>>, entry: Seq<char>, n: int) -> Seq<Seq<char>>
    decreases n,
{
    if n <= 0 {
        Seq::empty()
    } else if v[n - 1] != entry {
        others_of(v, entry, n - 1).push(v[n - 1])
    } else {
        others_of(v, entry, n - 1)
    }
}

/// The list of recent models with one entry at its head: at most twenty, and that entry only once.
pub open spec fn recents_after(v: Seq<Seq<char>>, entry: Seq<char>) -> Seq<Seq<char>> {
    let all = seq![entry] + others_of(v, entry, v.len() as int);
    if all.len() <= 20 {
        all
    } else {
        all.take(20)
    }
}

/// What the accounts are after a switch.
pub open spec fn accounts_after(
    before: EndpointConfig,
    base: Seq<char>,
    key: Seq<char>,
    after: Seq<AccountView>,
) -> bool {
    let v = account_views(before.accounts@);
    if base == before.api_base@ && key == before.api_key@ {
        after == v
    } else if demotes(v, before.api_key@, before.api_base@) {
        exists|a: AccountView|
            {
                let all = v.push(a);
                #[trigger] is_outgoing(
                    a,
                    names_of(v),
                    before.model@,
                    before.api_base@,
                    before.api_key@,
                ) && after == promoted_upto(all, key, base, all.len() as int)
            }
    } else {
        after == promoted_upto(v, key, base, v.len() as int)
    }
}

fn any_stands_for(accounts: &Vec<Account>, key: &str, base: &str) -> (r: bool)
    ensures
        r == kept_in(account_views(accounts@), key@, base@),
{
    let ghost v = account_views(accounts@);
    let mut i: usize = 0;
    while i < accounts.len()
        invariant
            i <= accounts@.len(),
            v == account_views(accounts@),
            forall|k: int| 0 <= k < i ==> !stands_for(#[trigger] v[k], key@, base@),
        decreases accounts.len() - i,
    {
        if is_account_for(&accounts[i], key, base) {
            assert(stands_for(v[i as int], key@, base@));
            return true;
        }
        assert(!stands_for(v[i as int], key@, base@));
        i += 1;
    }
    false
}

fn promote(accounts: &Vec<Account>, key: &str, base: &str) -> (r: Vec<Account>)
    ensures
        account_views(r@) == promoted_upto(
            account_views(accounts@),
            key@,
            base@,
            accounts@.len() as int,
        ),
{
    let ghost v = account_views(accounts@);
    let mut out: Vec<Account> = Vec::new();
    let mut i: usize = 0;
    assert(account_views(out@) =~= Seq::empty());
    while i < accounts.len()
        invariant
            i <= accounts@.len(),
            v == account_views(accounts@),
            account_views(out@) == promoted_upto(v, key@, base@, i as int),
        decreases accounts.len() - i,
    {
        let a = &accounts[i];
        assert(v[i as int] == a@);
        if a.api_key.as_str().is_empty() || !is_account_for(a, key, base) {
            put_account(&mut out, copy_account(a));
        }
        i += 1;
    }
    out
}

fn note_recent(recents: &Vec<String>, model: &str, base: &str) -> (r: Vec<String>)
    ensures
        views(r@) == recents_after(views(recents@), recent_entry(model@, base@)),
{
    let mut entry = copy_text(model);
    entry.append("\0");
    entry.append(base);
    let ghost rec = recent_entry(model@, base@);
    let ghost v = views(recents@);
    let mut out: Vec<String> = Vec::new();
    assert(views(out@) =~= Seq::empty());
    put_string(&mut out, copy_text(entry.as_str()));
    let mut i: usize = 0;
    assert(views(out@) =~= seq![rec] + others_of(v, rec, 0));
    while i < recents.len()
        invariant
            i <= recents@.len(),
            v == views(recents@),
            rec == entry@,
            views(out@) == seq![rec] + others_of(v, rec, i as int),
        decreases recents.len() - i,
    {
        assert(v[i as int] == recents@[i as int]@);
        if !same(recents[i].as_str(), entry.as_str()) {
            put_string(&mut out, copy_text(recents[i].as_str()));
        }
        i += 1;
        assert(views(out@) =~= seq![rec] + others_of(v, rec, i as int));
    }
    let ghost all = views(out@);
    if out.len() > 20 {
        out.truncate(20);
        assert(views(out@) =~= all.take(20));
    }
    out
}

/// Makes an endpoint and a model the current ones. Another endpoint than before puts the one that is
/// left into the pool, so that it is not lost, and takes the new one out of it; another model at the
/// same endpoint leaves the pool alone. The choice is noted among the recent models.
pub fn switch_endpoint_model(config: &mut EndpointConfig, base: &str, key: &str, model: &str)
    requires
        old(config).accounts@.len() < i32::MAX,
    ensures
        final(config).api_base@ == base@,
        final(config).api_key@ == key@,
        final(config).model@ == model@,
        accounts_after(*old(config), base@, key@, account_views(final(config).accounts@)),
        views(final(config).recent_models@) == recents_after(
            views(old(config).recent_models@),
            recent_entry(model@, base@),
        ),
        final(config).fallback_models@ == old(config).fallback_models@,
{
    let ghost before = *config;
    let ghost v = account_views(config.accounts@);
    if !same(base, config.api_base.as_str()) || !same(key, config.api_key.as_str()) {
        let kept = any_stands_for(
            &config.accounts,
            config.api_key.as_str(),
            config.api_base.as_str(),
        );
        if !config.api_key.as_str().is_empty() && !kept {
            let label = account_label(config.api_base.as_str(), config.model.as_str());
            let name = unique_account_name(&config.accounts, label.as_str());
            let outgoing = Account {
                name,
                api_key: copy_text(config.api_key.as_str()),
                api_base: Some(copy_text(config.api_base.as_str())),
                model: Some(copy_text(config.model.as_str())),
                weight: 1,
                disabled: false,
            };
            let ghost a = outgoing@;
            assert(is_outgoing(
                a,
                names_of(v),
                before.model@,
                before.api_base@,
                before.api_key@,
            ));
            put_account(&mut config.accounts, outgoing);
            assert(account_views(config.accounts@) == v.push(a));
        }
        config.accounts = promote(&config.accounts, key, base);
    }
    config.api_base = copy_text(base);
    config.api_key = copy_text(key);
    config.model = copy_text(model);
    config.recent_models = note_recent(&config.recent_models, model, base);
}

proof fn lemma_promoted(v: Seq<AccountView>, key: Seq<char>, base: Seq<char>, n: int)
    requires
        0 <= n <= v.len(),
    ensures
        forall|i: int|
            0 <= i < promoted_upto(v, key, base, n).len() ==> {
                let a = #[trigger] promoted_upto(v, key, base, n)[i];
                a.api_key.len() == 0 || !stands_for(a, key, base)
            },
        forall|k: int|
            0 <= k < n && ((#[trigger] v[k]).api_key.len() == 0 || !stands_for(v[k], key, base))
                ==> promoted_upto(v, key, base, n).contains(v[k]),
        forall|i: int|
            0 <= i < promoted_upto(v, key, base, n).len() ==> exists|k: int|
                0 <= k < n && v[k] == #[trigger] promoted_upto(v, key, base, n)[i],
    decreases n,
{
    if n > 0 {
        lemma_promoted(v, key, base, n - 1);
        let before = promoted_upto(v, key, base, n - 1);
        let all = promoted_upto(v, key, base, n);
        assert forall|k: int|
            0 <= k < n && ((#[trigger] v[k]).api_key.len() == 0 || !stands_for(
                v[k],
                key,
                base,
            )) implies all.contains(v[k]) by {
            if k < n - 1 {
                assert(before.contains(v[k]));
                let j = choose|j: int| 0 <= j < before.len() && before[j] == v[k];
                assert(all[j] == v[k]);
            } else {
                assert(all[all.len() - 1] == v[k]);
            }
        }
        assert forall|i: int| 0 <= i < all.len() implies exists|k: int|
            0 <= k < n && v[k] == #[trigger] all[i] by {
            if i < before.len() {
                assert(all[i] == before[i]);
                let k = choose|k: int| 0 <= k < n - 1 && v[k] == before[i];
                assert(v[k] == all[i]);
            } else {
                assert(v[n - 1] == all[i]);
            }
        }
    }
}

/// Switching to another endpoint never loses the one that is left: where it has a key, an account
/// of the pool stands for it afterwards.
pub proof fn law_switch_keeps_the_old_endpoint(
    before: EndpointConfig,
    base: Seq<char>,
    key: Seq<char>,
    after: Seq<AccountView>,
)
    requires
        base != before.api_base@ || key != before.api_key@,
        before.api_key@.len() > 0,
        accounts_after(before, base, key, after),
    ensures
        kept_in(after, before.api_key@, before.api_base@),
{
    let v = account_views(before.accounts@);
    if demotes(v, before.api_key@, before.api_base@) {
        let a = choose|a: AccountView|
            {
                let all = v.push(a);
                #[trigger] is_outgoing(
                    a,
                    names_of(v),
                    before.model@,
                    before.api_base@,
                    before.api_key@,
                ) && after == promoted_upto(all, key, base, all.len() as int)
            };
        let all = v.push(a);
        lemma_promoted(all, key, base, all.len() as int);
        assert(all[v.len() as int] == a);
        assert(after.contains(a));
        let j = choose|j: int| 0 <= j < after.len() && after[j] == a;
        assert(stands_for(after[j], before.api_key@, before.api_base@));
    } else {
        lemma_promoted(v, key, base, v.len() as int);
        let k = choose|k: int|
            0 <= k < v.len() && stands_for(#[trigger] v[k], before.api_key@, before.api_base@);
        assert(after.contains(v[k]));
        let j = choose|j: int| 0 <= j < after.len() && after[j] == v[k];
        assert(stands_for(after[j], before.api_key@, before.api_base@));
    }
}

/// After a switch to another endpoint that has a key, no account of the pool stands for it.
pub proof fn law_switch_takes_the_new_endpoint_out(
    before: EndpointConfig,
    base: Seq<char>,
    key: Seq<char>,
    after: Seq<AccountView>,
)
    requires
        base != before.api_base@ || key != before.api_key@,
        key.len() > 0,
        accounts_after(before, base, key, after),
    ensures
        !kept_in(after, key, base),
{
    let v = account_views(before.accounts@);
    if demotes(v, before.api_key@, before.api_base@) {
        let a = choose|a: AccountView|
            {
                let all = v.push(a);
                #[trigger] is_outgoing(
                    a,
                    names_of(v),
                    before.model@,
                    before.api_base@,
                    before.api_key@,
                ) && after == promoted_upto(all, key, base, all.len() as int)
            };
        let all = v.push(a);
        lemma_promoted(all, key, base, all.len() as int);
    } else {
        lemma_promoted(v, key, base, v.len() as int);
    }
}

/// Another model at the same endpoint leaves the pool alone.
pub proof fn law_same_endpoint_keeps_the_pool(before: EndpointConfig, after: Seq<AccountView>)
    requires
        accounts_after(before, before.api_base@, before.api_key@, after),
    ensures
        after == account_views(before.accounts@),
{
}

/// Accounts whose names all differ.
pub open spec fn names_differ(v: Seq<AccountView>) -> bool {
    forall|i: int, j: int| 0 <= i < j < v.len() ==> (#[trigger] v[i]).name != (#[trigger] v[j]).name
}

proof fn lemma_promoted_names(v: Seq<AccountView>, key: Seq<char>, base: Seq<char>, n: int)
    requires
        0 <= n <= v.len(),
        names_differ(v),
    ensures
        names_differ(promoted_upto(v, key, base, n)),
    decreases n,
{
    if n > 0 {
        lemma_promoted_names(v, key, base, n - 1);
        lemma_promoted(v, key, base, n - 1);
        let before = promoted_upto(v, key, base, n - 1);
        let all = promoted_upto(v, key, base, n);
        assert forall|i: int, j: int| 0 <= i < j < all.len() implies (#[trigger] all[i]).name != (
        #[trigger] all[j]).name by {
            if j < before.len() {
                assert(all[i] == before[i] && all[j] == before[j]);
            } else {
                assert(all[i] == before[i]);
                let k = choose|k: int| 0 <= k < n - 1 && v[k] == before[i];
                assert(v[k].name != v[n - 1].name);
            }
        }
    }
}

/// Names that all differ stay so through every switch.
pub proof fn law_switch_keeps_names_apart(
    before: EndpointConfig,
    base: Seq<char>,
    key: Seq<char>,
    after: Seq<AccountView>,
)
    requires
        names_differ(account_views(before.accounts@)),
        accounts_after(before, base, key, after),
    ensures
        names_differ(after),
{
    let v = account_views(before.accounts@);
    if base == before.api_base@ && key == before.api_key@ {
    } else if demotes(v, before.api_key@, before.api_base@) {
        let a = choose|a: AccountView|
            {
                let all = v.push(a);
                #[trigger] is_outgoing(
                    a,
                    names_of(v),
                    before.model@,
                    before.api_base@,
                    before.api_key@,
                ) && after == promoted_upto(all, key, base, all.len() as int)
            };
        let all = v.push(a);
        assert forall|i: int, j: int| 0 <= i < j < all.len() implies (#[trigger] all[i]).name != (
        #[trigger] all[j]).name by {
            if j == v.len() {
                assert(names_of(v)[i] == v[i].name);
                assert(names_of(v).contains(v[i].name));
            }
        }
        lemma_promoted_names(all, key, base, all.len() as int);
    } else {
        lemma_promoted_names(v, key, base, v.len() as int);
    }
}

proof fn lemma_others(v: Seq<Seq<char>>, entry: Seq<char>, n: int)
    requires
        0 <= n <= v.len(),
    ensures
        !others_of(v, entry, n).contains(entry),
        others_of(v, entry, n).len() <= n,
    decreases n,
{
    if n > 0 {
        lemma_others(v, entry, n - 1);
        let before = others_of(v, entry, n - 1);
        let all = others_of(v, entry, n);
        if all.contains(entry) {
            let j = choose|j: int| 0 <= j < all.len() && all[j] == entry;
            if j < before.len() {
                assert(before[j] == entry);
                assert(before.contains(entry));
            }
        }
    }
}

/// The latest choice stands first among the recent models, stands there once, and the list never
/// grows beyond twenty.
pub proof fn law_recents(v: Seq<Seq<char>>, entry: Seq<char>, i: int)
    ensures
        recents_after(v, entry).len() <= 20,
        recents_after(v, entry).len() > 0,
        recents_after(v, entry)[0] == entry,
        0 < i < recents_after(v, entry).len() ==> recents_after(v, entry)[i] != entry,
{
    lemma_others(v, entry, v.len() as int);
    let rest = others_of(v, entry, v.len() as int);
    if 0 < i < recents_after(v, entry).len() {
        assert(recents_after(v, entry)[i] == rest[i - 1]);
        assert(rest.contains(rest[i - 1]));
    }
}

// ---------------------------------------------------------------------------
// What becomes of accounts and choices
// ---------------------------------------------------------------------------

/// An account of the pool is the account with its weight, which counts as one where it is less; the
/// primary one has the given key, no address or model of its own, and is off where the key is blank.
pub proof fn law_accounts_of_the_pool(a: AccountView, key: Seq<char>)
    ensures
        pooled(a).name == a.name && pooled(a).api_key == a.api_key
            && pooled(a).api_base == a.api_base
            && pooled(a).model == a.model && pooled(a).disabled == a.disabled,
        a.weight >= 1 ==> pooled(a).weight == a.weight,
        a.weight == 0 ==> pooled(a).weight == 1,
        primary_account(key).name == "primary"@ && primary_account(key).api_key == key
            && primary_account(key).api_base is None && primary_account(key).model is None
            && primary_account(key).weight == 1,
        primary_account(key).disabled <==> is_blank(key),
{
}

proof fn lemma_host_ends(host: Seq<char>, tail: Seq<char>)
    requires
        forall|i: int| 0 <= i < host.len() ==> #[trigger] host[i] != '/' && host[i] != ':',
        tail.len() > 0 ==> tail[0] == '/' || tail[0] == ':',
    ensures
        host_part(host + tail) == host,
    decreases host.len(),
{
    let s = host + tail;
    if host.len() == 0 {
        assert(s =~= tail);
        assert(host_part(s) =~= host);
    } else {
        assert(s[0] == host[0]);
        let rest = host.skip(1);
        assert forall|i: int| 0 <= i < rest.len() implies #[trigger] rest[i] != '/'
            && rest[i] != ':' by {
            assert(rest[i] == host[i + 1]);
        }
        lemma_host_ends(rest, tail);
        assert(s.skip(1) =~= rest + tail);
        assert(host_part(s) =~= host);
    }
}

/// The readable name of an account is the host of its address, which stands between the scheme and the
/// port or the path, where it has a dot; without a scheme or without a dot it is the model.
pub proof fn law_label_of_an_account(
    scheme: Seq<char>,
    host: Seq<char>,
    tail: Seq<char>,
    base: Seq<char>,
    model: Seq<char>,
)
    requires
        !scheme.contains(':'),
        !host.contains('/') && !host.contains(':'),
        tail.len() > 0 ==> tail[0] == '/' || tail[0] == ':',
    ensures
        label_of(scheme + "://"@ + host + tail, model) == (if host.contains('.') {
            host
        } else {
            model
        }),
        (forall|i: int| !#[trigger] occurs_at(base, "://"@, i)) ==> label_of(base, model) == model,
{
    reveal_strlit("://");
    let s = scheme + "://"@ + host + tail;
    let n = scheme.len() as int;
    assert(s.subrange(n, n + 3) =~= "://"@);
    assert(occurs_at(s, "://"@, n));
    law_search_finds_the_first(s, "://"@, 0);
    let i = index_from(s, "://"@, 0)->0;
    if i < n {
        assert(s.subrange(i, i + 3)[0] == "://"@[0]);
        assert(s[i] == ':' && s[i] == scheme[i]);
        assert(scheme.contains(':'));
    }
    assert(s.skip(n + 3) =~= host + tail);
    assert forall|k: int| 0 <= k < host.len() implies #[trigger] host[k] != '/'
        && host[k] != ':' by {
        assert(host.contains(host[k]));
    }
    lemma_host_ends(host, tail);
    law_search_finds_the_first(base, "://"@, 0);
}

/// A new name is the label where that is free, and else the label, a dash and the smallest number from
/// two on that makes it free.
pub proof fn law_new_name(names: Seq<Seq<char>>, label: Seq<char>, name: Seq<char>)
    requires
        is_fresh_name(names, label, name),
    ensures
        !names.contains(name),
        !names.contains(label) ==> name == label,
        names.contains(label) ==> exists|n: nat|
            n >= 2 && name == label + "-"@ + #[trigger] decimal_of(n) && forall|m: nat|
                2 <= m < n ==> names.contains(label + "-"@ + #[trigger] decimal_of(m)),
{
    if names.contains(label) {
        let n = choose|n: nat| #[trigger] is_first_free(names, label, n)
            && name == numbered(label, n);
        assert(name == label + "-"@ + decimal_of(n));
        assert forall|m: nat| 2 <= m < n
            implies names.contains(label + "-"@ + #[trigger] decimal_of(m)) by {
            assert(names.contains(numbered(label, m)));
        }
    }
}

proof fn lemma_promoted_in_order(
    v: Seq<AccountView>,
    key: Seq<char>,
    base: Seq<char>,
    n: int,
) -> (at: Seq<int>)
    requires
        0 <= n <= v.len(),
    ensures
        at.len() == promoted_upto(v, key, base, n).len(),
        forall|k: int|
            0 <= k < at.len() ==> 0 <= #[trigger] at[k] < n
                && (v[at[k]].api_key.len() == 0
                || !(v[at[k]].api_key == key && v[at[k]].api_base == Some(base)))
                && promoted_upto(v, key, base, n)[k]
                == v[at[k]],
        forall|j: int, k: int| 0 <= j < k < at.len() ==> #[trigger] at[j] < #[trigger] at[k],
        forall|i: int| 0 <= i < n && ((#[trigger] v[i]).api_key.len() == 0 || !(v[i].api_key == key
            && v[i].api_base == Some(base))) ==> at.contains(i),
    decreases n,
{
    if n == 0 {
        Seq::empty()
    } else {
        let before = lemma_promoted_in_order(v, key, base, n - 1);
        let at = if v[n - 1].api_key.len() == 0
            || !(v[n - 1].api_key == key && v[n - 1].api_base == Some(base)) {
            before.push(n - 1)
        } else {
            before
        };
        assert forall|k: int| 0 <= k < at.len() implies 0 <= #[trigger] at[k] < n
            && (v[at[k]].api_key.len() == 0
            || !(v[at[k]].api_key == key && v[at[k]].api_base == Some(base)))
            && promoted_upto(v, key, base, n)[k] == v[at[k]] by {
            if k < before.len() {
                assert(at[k] == before[k]);
            }
        }
        assert forall|j: int, k: int| 0 <= j < k < at.len() implies #[trigger] at[j]
            < #[trigger] at[k] by {
            assert(at[j] == before[j]);
            if k < before.len() {
                assert(at[k] == before[k]);
            }
        }
        assert forall|i: int| 0 <= i < n
            && ((#[trigger] v[i]).api_key.len() == 0
            || !(v[i].api_key == key && v[i].api_base == Some(base))) implies at.contains(i) by {
            if i < n - 1 {
                assert(before.contains(i));
                let k = choose|k: int| 0 <= k < before.len() && before[k] == i;
                assert(at[k] == i);
            } else {
                assert(at[before.len() as int] == i);
            }
        }
        at
    }
}

proof fn lemma_others_in_order(v: Seq<Seq<char>>, entry: Seq<char>, n: int) -> (at: Seq<int>)
    requires
        0 <= n <= v.len(),
    ensures
        at.len() == others_of(v, entry, n).len(),
        forall|k: int|
            0 <= k < at.len() ==> 0 <= #[trigger] at[k] < n && (v[at[k]] != entry)
                && others_of(v, entry, n)[k]
                == v[at[k]],
        forall|j: int, k: int| 0 <= j < k < at.len() ==> #[trigger] at[j] < #[trigger] at[k],
        forall|i: int| 0 <= i < n && ((#[trigger] v[i]) != entry) ==> at.contains(i),
    decreases n,
{
    if n == 0 {
        Seq::empty()
    } else {
        let before = lemma_others_in_order(v, entry, n - 1);
        let at = if v[n - 1] != entry {
            before.push(n - 1)
        } else {
            before
        };
        assert forall|k: int| 0 <= k < at.len() implies 0 <= #[trigger] at[k] < n
            && (v[at[k]] != entry)
            && others_of(v, entry, n)[k] == v[at[k]] by {
            if k < before.len() {
                assert(at[k] == before[k]);
            }
        }
        assert forall|j: int, k: int| 0 <= j < k < at.len() implies #[trigger] at[j]
            < #[trigger] at[k] by {
            assert(at[j] == before[j]);
            if k < before.len() {
                assert(at[k] == before[k]);
            }
        }
        assert forall|i: int| 0 <= i < n && ((#[trigger] v[i]) != entry) implies at.contains(i) by {
            if i < n - 1 {
                assert(before.contains(i));
                let k = choose|k: int| 0 <= k < before.len() && before[k] == i;
                assert(at[k] == i);
            } else {
                assert(at[before.len() as int] == i);
            }
        }
        at
    }
}

/// A switch to another endpoint keeps every account that does not stand for the new endpoint, as it is
/// and in its order. One account comes behind them where the old endpoint has a key and no account
/// stands for it: with the old key, address and model, the weight one, switched on, and a new name.
pub proof fn law_switch_keeps_the_other_accounts(
    before: EndpointConfig,
    base: Seq<char>,
    key: Seq<char>,
    after: Seq<AccountView>,
) -> (r: (Seq<AccountView>, Seq<int>))
    requires
        base != before.api_base@ || key != before.api_key@,
        accounts_after(before, base, key, after),
    ensures
        ({
            let v = account_views(before.accounts@);
            let all = r.0;
            let at = r.1;
            let added = before.api_key@.len() > 0 && forall|i: int|
                0 <= i < v.len() ==> !((#[trigger] v[i]).api_key == before.api_key@ && v[i].api_base
                    == Some(before.api_base@));
            &&& all.len() == (if added {
                v.len() + 1
            } else {
                v.len()
            })
            &&& all.take(v.len() as int) == v
            &&& added ==> {
                let a = all.last();
                &&& a.api_key == before.api_key@
                &&& a.api_base == Some(before.api_base@)
                &&& a.model == Some(before.model@)
                &&& a.weight == 1
                &&& !a.disabled
                &&& is_fresh_name(names_of(v), label_of(before.api_base@, before.model@), a.name)
            }
            &&& at.len() == after.len()
            &&& forall|k: int|
                0 <= k < at.len() ==> 0 <= #[trigger] at[k] < all.len() && after[k] == all[at[k]]
            &&& forall|j: int, k: int| 0 <= j < k < at.len() ==> #[trigger] at[j] < #[trigger] at[k]
            &&& forall|i: int|
                0 <= i < all.len() && ((#[trigger] all[i]).api_key.len() == 0 || !(all[i].api_key
                    == key && all[i].api_base == Some(base))) ==> at.contains(i)
        }),
{
    let v = account_views(before.accounts@);
    let all = if demotes(v, before.api_key@, before.api_base@) {
        let a = choose|a: AccountView|
            {
                let all = v.push(a);
                #[trigger] is_outgoing(
                    a,
                    names_of(v),
                    before.model@,
                    before.api_base@,
                    before.api_key@,
                ) && after == promoted_upto(all, key, base, all.len() as int)
            };
        v.push(a)
    } else {
        v
    };
    let at = lemma_promoted_in_order(all, key, base, all.len() as int);
    assert(all.take(v.len() as int) =~= v);
    if before.api_key@.len() > 0 && kept_in(v, before.api_key@, before.api_base@) {
        let i = choose|i: int|
            0 <= i < v.len() && stands_for(#[trigger] v[i], before.api_key@, before.api_base@);
        assert(v[i].api_key == before.api_key@);
    } else if before.api_key@.len() > 0 {
        assert forall|i: int| 0 <= i < v.len()
            implies !((#[trigger] v[i]).api_key == before.api_key@
            && v[i].api_base == Some(before.api_base@)) by {
            assert(!stands_for(v[i], before.api_key@, before.api_base@));
        }
    }
    (all, at)
}

/// The recent models behind the latest choice are the ones before it, in their order and without the
/// choice itself; one is dropped only where the list is full. An entry is the model and the address
/// with a zero character between them.
pub proof fn law_recents_keep_their_order(
    v: Seq<Seq<char>>,
    model: Seq<char>,
    base: Seq<char>,
) -> (at: Seq<int>)
    ensures
        ({
            let entry = model + "\0"@ + base;
            let after = recents_after(v, recent_entry(model, base));
            &&& after.len() == at.len() + 1
            &&& after[0] == entry
            &&& forall|k: int|
                0 <= k < at.len() ==> 0 <= #[trigger] at[k] < v.len() && after[k + 1] == v[at[k]]
            &&& forall|j: int, k: int| 0 <= j < k < at.len() ==> #[trigger] at[j] < #[trigger] at[k]
            &&& forall|i: int|
                0 <= i < v.len() && #[trigger] v[i] != entry ==> at.contains(i) || after.len() == 20
        }),
{
    let entry = recent_entry(model, base);
    let all = lemma_others_in_order(v, entry, v.len() as int);
    let others = others_of(v, entry, v.len() as int);
    let after = recents_after(v, entry);
    let at = all.take(after.len() - 1);
    assert forall|k: int| 0 <= k < at.len() implies 0 <= #[trigger] at[k] < v.len() && after[k + 1]
        == v[at[k]] by {
        assert(at[k] == all[k]);
        assert(after[k + 1] == others[k]);
    }
    assert forall|j: int, k: int| 0 <= j < k < at.len()
        implies #[trigger] at[j] < #[trigger] at[k] by {
        assert(all[j] < all[k]);
    }
    assert forall|i: int| 0 <= i < v.len() && #[trigger] v[i] != entry implies at.contains(i)
        || after.len() == 20 by {
        assert(all.contains(i));
        if after.len() < 20 {
            assert(at =~= all);
        }
    }
    at
}

} // verus!
