//! Traffic statistics: requests, input and output tokens and errors, in total,
//! per provider and per model.
//!
//! Counters wrap around at 2^64, as atomic `fetch_add` counters do.

use vstd::prelude::*;
use crate::table::{is_first_index, names_unique, seq_lookup, Table};

verus! {

/// 2^64.
pub open spec fn counter_modulus() -> int {
    0x1_0000_0000_0000_0000
}

/// `a + b` wrapped around at 2^64.
pub open spec fn wrapping_sum(a: u64, b: u64) -> u64 {
    ((a + b) % counter_modulus()) as u64
}

fn add_wrapping(a: u64, b: u64) -> (r: u64)
    ensures
        r == wrapping_sum(a, b),
{
    if a <= u64::MAX - b {
        proof { vstd::arithmetic::div_mod::lemma_small_mod((a + b) as nat, counter_modulus() as nat); }
        a + b
    } else {
        proof {
            vstd::arithmetic::div_mod::lemma_fundamental_div_mod_converse_mod(
                a + b, counter_modulus(), 1, a + b - counter_modulus());
        }
        b - (u64::MAX - a) - 1
    }
}

/// Which of the four counters.
pub enum CountField {
    Requests,
    TokensInput,
    TokensOutput,
    Errors,
}

/// The four counters of one group.
#[derive(Debug, Clone, Copy, PartialEq, Eq, Structural)]
pub struct Counts {
    pub requests: u64,
    pub tokens_input: u64,
    pub tokens_output: u64,
    pub errors: u64,
}

impl Counts {
    /// All counters at zero.
    pub open spec fn zero() -> Counts {
        Counts { requests: 0, tokens_input: 0, tokens_output: 0, errors: 0 }
    }

    /// The value of one counter.
    pub open spec fn field(self, f: CountField) -> u64 {
        match f {
            CountField::Requests => self.requests,
            CountField::TokensInput => self.tokens_input,
            CountField::TokensOutput => self.tokens_output,
            CountField::Errors => self.errors,
        }
    }

    /// The counters with `x` added (wrapping) to one of them.
    pub open spec fn bumped(self, f: CountField, x: u64) -> Counts {
        match f {
            CountField::Requests => Counts { requests: wrapping_sum(self.requests, x), ..self },
            CountField::TokensInput => Counts { tokens_input: wrapping_sum(self.tokens_input, x), ..self },
            CountField::TokensOutput => Counts { tokens_output: wrapping_sum(self.tokens_output, x), ..self },
            CountField::Errors => Counts { errors: wrapping_sum(self.errors, x), ..self },
        }
    }

    fn new_zero() -> (c: Counts)
        ensures
            c == Counts::zero(),
    {
        Counts { requests: 0, tokens_input: 0, tokens_output: 0, errors: 0 }
    }

    fn bump(&mut self, f: &CountField, x: u64)
        ensures
            *final(self) == old(self).bumped(*f, x),
    {
        match f {
            CountField::Requests => { self.requests = add_wrapping(self.requests, x); },
            CountField::TokensInput => { self.tokens_input = add_wrapping(self.tokens_input, x); },
            CountField::TokensOutput => { self.tokens_output = add_wrapping(self.tokens_output, x); },
            CountField::Errors => { self.errors = add_wrapping(self.errors, x); },
        }
    }
}

/// The counters of one provider.
#[derive(Debug, Clone, Copy, PartialEq, Eq, Structural)]
pub struct ProviderStats {
    pub requests: u64,
    pub tokens_input: u64,
    pub tokens_output: u64,
    pub errors: u64,
}

/// The counters of one model.
#[derive(Debug, Clone, Copy, PartialEq, Eq, Structural)]
pub struct ModelStats {
    pub requests: u64,
    pub tokens_input: u64,
    pub tokens_output: u64,
    pub errors: u64,
}

/// The counters over all requests.
#[derive(Debug, Clone, Copy, PartialEq, Eq, Structural)]
pub struct OverallStats {
    pub total_requests: u64,
    pub total_tokens_input: u64,
    pub total_tokens_output: u64,
    pub total_errors: u64,
}

impl Default for ProviderStats {
    fn default() -> (s: Self)
        ensures
            s == (ProviderStats { requests: 0, tokens_input: 0, tokens_output: 0, errors: 0 }),
    {
        ProviderStats { requests: 0, tokens_input: 0, tokens_output: 0, errors: 0 }
    }
}

impl Default for ModelStats {
    fn default() -> (s: Self)
        ensures
            s == (ModelStats { requests: 0, tokens_input: 0, tokens_output: 0, errors: 0 }),
    {
        ModelStats { requests: 0, tokens_input: 0, tokens_output: 0, errors: 0 }
    }
}

impl Default for OverallStats {
    fn default() -> (s: Self)
        ensures
            s == (OverallStats { total_requests: 0, total_tokens_input: 0, total_tokens_output: 0, total_errors: 0 }),
    {
        OverallStats { total_requests: 0, total_tokens_input: 0, total_tokens_output: 0, total_errors: 0 }
    }
}

/// The provider counters of a group.
pub open spec fn provider_stats_of(c: Counts) -> ProviderStats {
    ProviderStats { requests: c.requests, tokens_input: c.tokens_input, tokens_output: c.tokens_output, errors: c.errors }
}

/// The model counters of a group.
pub open spec fn model_stats_of(c: Counts) -> ModelStats {
    ModelStats { requests: c.requests, tokens_input: c.tokens_input, tokens_output: c.tokens_output, errors: c.errors }
}

/// The overall counters of the total group.
pub open spec fn overall_stats_of(c: Counts) -> OverallStats {
    OverallStats {
        total_requests: c.requests,
        total_tokens_input: c.tokens_input,
        total_tokens_output: c.tokens_output,
        total_errors: c.errors,
    }
}

/// The sum of one counter over a sequence of named groups.
pub open spec fn field_sum(s: Seq<(Seq<char>, Counts)>, f: CountField) -> int
    decreases s.len(),
{
    if s.len() == 0 { 0 } else { field_sum(s.drop_last(), f) + s.last().1.field(f) }
}

proof fn lemma_field_sum_push(s: Seq<(Seq<char>, Counts)>, e: (Seq<char>, Counts), f: CountField)
    ensures
        field_sum(s.push(e), f) == field_sum(s, f) + e.1.field(f),
{
    assert(s.push(e).drop_last() =~= s);
}

proof fn lemma_field_sum_update(s: Seq<(Seq<char>, Counts)>, i: int, e: (Seq<char>, Counts), f: CountField)
    requires
        0 <= i < s.len(),
    ensures
        field_sum(s.update(i, e), f) == field_sum(s, f) - s[i].1.field(f) + e.1.field(f),
    decreases s.len(),
{
    if i == s.len() - 1 {
        assert(s.update(i, e).drop_last() =~= s.drop_last());
    } else {
        lemma_field_sum_update(s.drop_last(), i, e, f);
        assert(s.update(i, e).drop_last() =~= s.drop_last().update(i, e));
    }
}

/// Adding `x` (wrapping) to an entry and to the total keeps the total equal to
/// the sum of the entries, modulo 2^64.
proof fn lemma_bump_keeps_sum(sum: int, old_total: u64, e: u64, x: u64)
    requires
        old_total == sum % counter_modulus(),
    ensures
        wrapping_sum(old_total, x) == (sum - e + wrapping_sum(e, x)) % counter_modulus(),
{
    let m = counter_modulus();
    let q = (e + x) / m;
    vstd::arithmetic::div_mod::lemma_fundamental_div_mod(e + x, m);
    vstd::arithmetic::div_mod::lemma_add_mod_noop(sum, x as int, m);
    vstd::arithmetic::div_mod::lemma_mod_twice(x as int, m);
    vstd::arithmetic::div_mod::lemma_small_mod(x as nat, m as nat);
    vstd::arithmetic::div_mod::lemma_mod_twice(sum, m);
    vstd::arithmetic::div_mod::lemma_add_mod_noop(sum % m, x as int, m);
    vstd::arithmetic::div_mod::lemma_mod_multiples_vanish(-q, sum + x, m);
    assert(sum - e + wrapping_sum(e, x) == m * (-q) + (sum + x)) by (nonlinear_arith)
        requires e + x == m * q + (e + x) % m, wrapping_sum(e, x) == (e + x) % m;
}

/// The statistics, abstractly: the total group and the groups per provider and
/// per model, each in the order first seen.
pub struct StatsView {
    pub total: Counts,
    pub by_provider: Seq<(Seq<char>, Counts)>,
    pub by_model: Seq<(Seq<char>, Counts)>,
}

impl StatsView {
    /// Each total counter is the sum, wrapped at 2^64, of that counter over the
    /// providers, and over the models.
    /// The totals are the sums, and no provider or model has two groups.
    pub open spec fn wf(self) -> bool {
        &&& self.totals_are_sums()
        &&& names_unique(self.by_provider)
        &&& names_unique(self.by_model)
    }

    pub open spec fn totals_are_sums(self) -> bool {
        forall|f: CountField| {
            &&& #[trigger] self.total.field(f) == field_sum(self.by_provider, f) % counter_modulus()
            &&& self.total.field(f) == field_sum(self.by_model, f) % counter_modulus()
        }
    }
}

/// A snapshot of the statistics.
pub struct StatsSnapshot {
    pub overall: OverallStats,
    pub by_provider: Table<ProviderStats>,
    pub by_model: Table<ModelStats>,
}

/// Collects statistics.
pub struct StatsCollector {
    total: Counts,
    by_provider: Table<Counts>,
    by_model: Table<Counts>,
}

impl View for StatsCollector {
    type V = StatsView;

    closed spec fn view(&self) -> StatsView {
        StatsView { total: self.total, by_provider: self.by_provider.pairs(), by_model: self.by_model.pairs() }
    }
}

/// The entries of `s` after adding `x` to counter `f` of the group named `k`,
/// made at zero if there is none.
pub open spec fn bump_entry(s: Seq<(Seq<char>, Counts)>, k: Seq<char>, f: CountField, x: u64) -> Seq<(Seq<char>, Counts)> {
    if exists|i: int| is_first_index(s, k, i) {
        let i = choose|i: int| is_first_index(s, k, i);
        s.update(i, (k, s[i].1.bumped(f, x)))
    } else {
        s.push((k, Counts::zero().bumped(f, x)))
    }
}

impl StatsView {
    /// The statistics after adding `x` to counter `f` of the total, of
    /// provider `provider` and of model `model`.
    pub open spec fn bumped(self, provider: Seq<char>, model: Seq<char>, f: CountField, x: u64) -> StatsView {
        StatsView {
            total: self.total.bumped(f, x),
            by_provider: bump_entry(self.by_provider, provider, f, x),
            by_model: bump_entry(self.by_model, model, f, x),
        }
    }
}

fn bump_table(t: &mut Table<Counts>, key: &str, f: &CountField, x: u64)
    ensures
        final(t).pairs() == bump_entry(old(t).pairs(), key@, *f, x),
        names_unique(old(t).pairs()) ==> names_unique(final(t).pairs()),
        final(t)@ == old(t)@.insert(key@, (if old(t)@.contains_key(key@) { old(t)@[key@] } else { Counts::zero() }).bumped(*f, x)),
{
    proof {
        old(t).lemma_position(key@);
        let s = old(t).pairs();
        if old(t)@.contains_key(key@) {
            let i = old(t).position_of(key@)->0;
            assert(is_first_index(s, key@, i));
            let j = choose|j: int| is_first_index(s, key@, j);
            assert(is_first_index(s, key@, j));
            if j < i {
                assert(s[j].0 != key@);
            } else if i < j {
                assert(s[i].0 != key@);
            }
        } else {
            if exists|j: int| is_first_index(s, key@, j) {
                let j = choose|j: int| is_first_index(s, key@, j);
                assert(old(t).first_at(key@, j));
            }
        }
    }
    let c = t.get_or_insert(key, Counts::new_zero());
    c.bump(f, x);
}

impl StatsCollector {
    #[verifier::type_invariant]
    closed spec fn inv(self) -> bool {
        self@.wf()
    }

    /// No statistics yet.
    pub fn new() -> (s: Self)
        ensures
            s@.total == Counts::zero(),
            s@.by_provider == Seq::<(Seq<char>, Counts)>::empty(),
            s@.by_model == Seq::<(Seq<char>, Counts)>::empty(),
            s@.wf(),
    {
        StatsCollector { total: Counts::new_zero(), by_provider: Table::new(), by_model: Table::new() }
    }

    proof fn lemma_bump_keeps_sums(v: StatsView, provider: Seq<char>, model: Seq<char>, f: CountField, x: u64)
        requires
            v.totals_are_sums(),
        ensures
            v.bumped(provider, model, f, x).totals_are_sums(),
    {
        let w = v.bumped(provider, model, f, x);
        assert forall|g: CountField| {
            &&& #[trigger] w.total.field(g) == field_sum(w.by_provider, g) % counter_modulus()
            &&& w.total.field(g) == field_sum(w.by_model, g) % counter_modulus()
        } by {
            Self::lemma_bump_entry_sum(v.by_provider, provider, f, x, g, v.total);
            Self::lemma_bump_entry_sum(v.by_model, model, f, x, g, v.total);
        }
    }

    proof fn lemma_bump_entry_sum(s: Seq<(Seq<char>, Counts)>, k: Seq<char>, f: CountField, x: u64, g: CountField, total: Counts)
        requires
            total.field(g) == field_sum(s, g) % counter_modulus(),
        ensures
            total.bumped(f, x).field(g) == field_sum(bump_entry(s, k, f, x), g) % counter_modulus(),
    {
        if exists|i: int| is_first_index(s, k, i) {
            let i = choose|i: int| is_first_index(s, k, i);
            lemma_field_sum_update(s, i, (k, s[i].1.bumped(f, x)), g);
            match (f, g) {
                (CountField::Requests, CountField::Requests) | (CountField::TokensInput, CountField::TokensInput)
                | (CountField::TokensOutput, CountField::TokensOutput) | (CountField::Errors, CountField::Errors) => {
                    lemma_bump_keeps_sum(field_sum(s, g), total.field(g), s[i].1.field(g), x);
                },
                _ => {},
            }
        } else {
            lemma_field_sum_push(s, (k, Counts::zero().bumped(f, x)), g);
            match (f, g) {
                (CountField::Requests, CountField::Requests) | (CountField::TokensInput, CountField::TokensInput)
                | (CountField::TokensOutput, CountField::TokensOutput) | (CountField::Errors, CountField::Errors) => {
                    lemma_bump_keeps_sum(field_sum(s, g), total.field(g), 0, x);
                },
                _ => {},
            }
        }
    }

    fn bump(&mut self, provider: &str, model: &str, f: CountField, x: u64)
        ensures
            final(self)@ == old(self)@.bumped(provider@, model@, f, x),
            final(self)@.wf(),
    {
        proof { use_type_invariant(&*self); }
        let ghost before = self@;
        let mut taken = StatsCollector::new();
        std::mem::swap(self, &mut taken);
        proof { use_type_invariant(&taken); }
        let StatsCollector { mut total, mut by_provider, mut by_model } = taken;
        total.bump(&f, x);
        bump_table(&mut by_provider, provider, &f, x);
        bump_table(&mut by_model, model, &f, x);
        proof { Self::lemma_bump_keeps_sums(before, provider@, model@, f, x); }
        *self = StatsCollector { total, by_provider, by_model };
        proof { use_type_invariant(&*self); }
    }

    /// Counts one request.
    pub fn record_request(&mut self, provider: &str, model: &str)
        ensures
            final(self)@ == old(self)@.bumped(provider@, model@, CountField::Requests, 1),
            final(self)@.wf(),
    {
        self.bump(provider, model, CountField::Requests, 1);
    }

    /// Counts `input` input tokens and `output` output tokens.
    pub fn record_tokens(&mut self, provider: &str, model: &str, input: u64, output: u64)
        ensures
            final(self)@ == old(self)@.bumped(provider@, model@, CountField::TokensInput, input)
                .bumped(provider@, model@, CountField::TokensOutput, output),
            final(self)@.wf(),
    {
        self.bump(provider, model, CountField::TokensInput, input);
        self.bump(provider, model, CountField::TokensOutput, output);
    }

    /// Counts one error.
    pub fn record_error(&mut self, provider: &str, model: &str)
        ensures
            final(self)@ == old(self)@.bumped(provider@, model@, CountField::Errors, 1),
            final(self)@.wf(),
    {
        self.bump(provider, model, CountField::Errors, 1);
    }
}

proof fn lemma_seq_first_exists(s: Seq<(Seq<char>, Counts)>, k: Seq<char>, w: int)
    requires
        0 <= w < s.len(),
        s[w].0 == k,
    ensures
        exists|i: int| is_first_index(s, k, i),
    decreases w,
{
    if forall|j: int| 0 <= j < w ==> #[trigger] s[j].0 != k {
        assert(is_first_index(s, k, w));
    } else {
        let v = choose|j: int| 0 <= j < w && #[trigger] s[j].0 == k;
        lemma_seq_first_exists(s, k, v);
    }
}

proof fn lemma_seq_first_unique(s: Seq<(Seq<char>, Counts)>, k: Seq<char>, i: int, j: int)
    requires
        is_first_index(s, k, i),
        is_first_index(s, k, j),
    ensures
        i == j,
{
    if i < j {
        assert(s[i].0 != k);
    } else if j < i {
        assert(s[j].0 != k);
    }
}

/// Two sequences with the same names at every position, and the same value
/// wherever the name is `k`, give the same lookup of `k`.
proof fn lemma_seq_lookup_same(s: Seq<(Seq<char>, Counts)>, t: Seq<(Seq<char>, Counts)>, k: Seq<char>)
    requires
        s.len() == t.len(),
        forall|j: int| 0 <= j < s.len() ==> #[trigger] s[j].0 == t[j].0,
        forall|j: int| 0 <= j < s.len() && s[j].0 == k ==> #[trigger] s[j].1 == t[j].1,
    ensures
        seq_lookup(s, k) == seq_lookup(t, k),
{
    if exists|i: int| is_first_index(s, k, i) {
        let i = choose|i: int| is_first_index(s, k, i);
        assert forall|j: int| 0 <= j < i implies #[trigger] t[j].0 != k by {
            assert(s[j].0 == t[j].0);
        }
        assert(s[i].0 == t[i].0);
        assert(is_first_index(t, k, i));
        let j = choose|j: int| is_first_index(t, k, j);
        lemma_seq_first_unique(t, k, i, j);
        assert(s[i].1 == t[i].1);
    } else if exists|j: int| is_first_index(t, k, j) {
        let j = choose|j: int| is_first_index(t, k, j);
        assert forall|m: int| 0 <= m < j implies #[trigger] s[m].0 != k by {
            assert(s[m].0 == t[m].0);
        }
        assert(s[j].0 == t[j].0);
        assert(is_first_index(s, k, j));
    }
}

/// Counting into a group: afterwards the group named `k` holds its counters
/// before (all zero for a group not seen yet) with `x` added to counter `f`,
/// and every other group holds what it held.
pub proof fn lemma_bump_entry_lookup(s: Seq<(Seq<char>, Counts)>, k: Seq<char>, f: CountField, x: u64, other: Seq<char>)
    ensures
        seq_lookup(bump_entry(s, k, f, x), k) == Some((match seq_lookup(s, k) {
            Some(c) => c,
            None => Counts::zero(),
        }).bumped(f, x)),
        other != k ==> seq_lookup(bump_entry(s, k, f, x), other) == seq_lookup(s, other),
{
    let t = bump_entry(s, k, f, x);
    if exists|i: int| is_first_index(s, k, i) {
        let i = choose|i: int| is_first_index(s, k, i);
        assert(t == s.update(i, (k, s[i].1.bumped(f, x))));
        assert forall|j: int| 0 <= j < i implies #[trigger] t[j].0 != k by {
            assert(t[j] == s[j]);
        }
        assert(is_first_index(t, k, i));
        let j = choose|j: int| is_first_index(t, k, j);
        lemma_seq_first_unique(t, k, i, j);
        if other != k {
            lemma_seq_lookup_same(s, t, other);
        }
    } else {
        assert(t == s.push((k, Counts::zero().bumped(f, x))));
        assert forall|j: int| 0 <= j < s.len() implies #[trigger] s[j].0 != k by {
            if s[j].0 == k {
                lemma_seq_first_exists(s, k, j);
            }
        }
        assert(is_first_index(t, k, s.len() as int));
        let j = choose|j: int| is_first_index(t, k, j);
        lemma_seq_first_unique(t, k, s.len() as int, j);
        if other != k {
            assert(seq_lookup(s, other) == seq_lookup(t, other)) by {
                if exists|i: int| is_first_index(s, other, i) {
                    let i = choose|i: int| is_first_index(s, other, i);
                    assert(is_first_index(t, other, i));
                    let j2 = choose|j2: int| is_first_index(t, other, j2);
                    lemma_seq_first_unique(t, other, i, j2);
                } else if exists|j2: int| is_first_index(t, other, j2) {
                    let j2 = choose|j2: int| is_first_index(t, other, j2);
                    assert(j2 != s.len());
                    assert forall|j: int| 0 <= j < j2 implies #[trigger] s[j].0 != other by {
                        assert(t[j] == s[j]);
                    }
                    assert(t[j2] == s[j2]);
                    assert(is_first_index(s, other, j2));
                }
            }
        }
    }
}

/// Counting a request of a provider and model: afterwards the provider's
/// group and the model's group each hold one more request (wrapping at
/// 2^64, starting from zero for a group not seen yet), and the total one
/// more; no other group changes.
pub proof fn lemma_request_counted(v: StatsView, provider: Seq<char>, model: Seq<char>, other: Seq<char>)
    ensures
        ({
            let after = v.bumped(provider, model, CountField::Requests, 1);
            &&& after.total.requests == wrapping_sum(v.total.requests, 1)
            &&& seq_lookup(after.by_provider, provider) matches Some(c) && c.requests == wrapping_sum(
                match seq_lookup(v.by_provider, provider) { Some(c0) => c0.requests, None => 0 }, 1)
            &&& seq_lookup(after.by_model, model) matches Some(c) && c.requests == wrapping_sum(
                match seq_lookup(v.by_model, model) { Some(c0) => c0.requests, None => 0 }, 1)
            &&& other != provider ==> seq_lookup(after.by_provider, other) == seq_lookup(v.by_provider, other)
            &&& other != model ==> seq_lookup(after.by_model, other) == seq_lookup(v.by_model, other)
        }),
{
    lemma_bump_entry_lookup(v.by_provider, provider, CountField::Requests, 1, other);
    lemma_bump_entry_lookup(v.by_model, model, CountField::Requests, 1, other);
}

/// The provider view of each group, in order.
pub open spec fn provider_entries(s: Seq<(Seq<char>, Counts)>) -> Seq<(Seq<char>, ProviderStats)> {
    s.map_values(|e: (Seq<char>, Counts)| (e.0, provider_stats_of(e.1)))
}

/// The model view of each group, in order.
pub open spec fn model_entries(s: Seq<(Seq<char>, Counts)>) -> Seq<(Seq<char>, ModelStats)> {
    s.map_values(|e: (Seq<char>, Counts)| (e.0, model_stats_of(e.1)))
}

fn provider_table(t: &Table<Counts>) -> (r: Table<ProviderStats>)
    requires
        names_unique(t.pairs()),
    ensures
        r.pairs() == provider_entries(t.pairs()),
{
    let mut r = Table::new();
    let n = t.len();
    let mut i: usize = 0;
    while i < n
        invariant
            n == t.pairs().len(),
            i <= n,
            names_unique(t.pairs()),
            names_unique(r.pairs()),
            r.pairs() == provider_entries(t.pairs().take(i as int)),
        decreases n - i,
    {
        let (k, c) = t.entry(i);
        proof {
            r.lemma_position(k@);
            if r@.contains_key(k@) {
                let j = r.position_of(k@)->0;
                assert(r.pairs()[j].0 == t.pairs()[j].0);
            }
        }
        let v = r.get_or_insert(k, ProviderStats {
            requests: c.requests,
            tokens_input: c.tokens_input,
            tokens_output: c.tokens_output,
            errors: c.errors,
        });
        proof {
            assert(t.pairs().take(i + 1) =~= t.pairs().take(i as int).push(t.pairs()[i as int]));
            assert(provider_entries(t.pairs().take(i + 1)) =~= provider_entries(t.pairs().take(i as int)).push(
                (k@, provider_stats_of(*c))));
        }
        i += 1;
    }
    proof { assert(t.pairs().take(n as int) =~= t.pairs()); }
    r
}

fn model_table(t: &Table<Counts>) -> (r: Table<ModelStats>)
    requires
        names_unique(t.pairs()),
    ensures
        r.pairs() == model_entries(t.pairs()),
{
    let mut r = Table::new();
    let n = t.len();
    let mut i: usize = 0;
    while i < n
        invariant
            n == t.pairs().len(),
            i <= n,
            names_unique(t.pairs()),
            names_unique(r.pairs()),
            r.pairs() == model_entries(t.pairs().take(i as int)),
        decreases n - i,
    {
        let (k, c) = t.entry(i);
        proof {
            r.lemma_position(k@);
            if r@.contains_key(k@) {
                let j = r.position_of(k@)->0;
                assert(r.pairs()[j].0 == t.pairs()[j].0);
            }
        }
        let v = r.get_or_insert(k, ModelStats {
            requests: c.requests,
            tokens_input: c.tokens_input,
            tokens_output: c.tokens_output,
            errors: c.errors,
        });
        proof {
            assert(t.pairs().take(i + 1) =~= t.pairs().take(i as int).push(t.pairs()[i as int]));
            assert(model_entries(t.pairs().take(i + 1)) =~= model_entries(t.pairs().take(i as int)).push(
                (k@, model_stats_of(*c))));
        }
        i += 1;
    }
    proof { assert(t.pairs().take(n as int) =~= t.pairs()); }
    r
}

impl StatsCollector {
    /// A snapshot of all counters: the totals, and the groups per provider
    /// and per model in the order first seen. The totals are the sums of the
    /// groups, wrapped at 2^64.
    pub fn get_stats(&self) -> (snap: StatsSnapshot)
        ensures
            snap.overall == overall_stats_of(self@.total),
            snap.by_provider.pairs() == provider_entries(self@.by_provider),
            snap.by_model.pairs() == model_entries(self@.by_model),
            self@.wf(),
    {
        proof { use_type_invariant(self); }
        let t = self.total;
        StatsSnapshot {
            overall: OverallStats {
                total_requests: t.requests,
                total_tokens_input: t.tokens_input,
                total_tokens_output: t.tokens_output,
                total_errors: t.errors,
            },
            by_provider: provider_table(&self.by_provider),
            by_model: model_table(&self.by_model),
        }
    }

    /// The counters of `provider`, if it has any.
    pub fn get_provider_stats(&self, provider: &str) -> (r: Option<ProviderStats>)
        ensures
            match seq_lookup(self@.by_provider, provider@) {
                Some(c) => r == Some(provider_stats_of(c)),
                None => r is None,
            },
    {
        proof { self.by_provider.lemma_lookup(provider@); }
        match self.by_provider.get(provider) {
            Some(c) => Some(ProviderStats {
                requests: c.requests,
                tokens_input: c.tokens_input,
                tokens_output: c.tokens_output,
                errors: c.errors,
            }),
            None => None,
        }
    }
}

impl Default for StatsCollector {
    fn default() -> (s: Self)
        ensures
            s@.total == Counts::zero(),
            s@.by_provider == Seq::<(Seq<char>, Counts)>::empty(),
            s@.by_model == Seq::<(Seq<char>, Counts)>::empty(),
    {
        StatsCollector::new()
    }
}

} // verus!
