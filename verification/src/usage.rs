use vstd::prelude::*;

use crate::text::{
    chars_of, lemma_seq_lt_asymmetric, lemma_seq_lt_irreflexive, lemma_seq_lt_total,
    lemma_seq_lt_transitive, precedence, seq_lt, Precedence,
};

verus! {

/// One quota window reported by Codex: a stable id, its length in minutes, how much of it
/// has been used, and when it resets.
#[derive(Debug, Clone)]
pub struct RateLimitWindow {
    pub id: String,
    pub duration_minutes: u64,
    pub used_percent: u8,
    pub resets_at: Option<i64>,
}

impl Default for RateLimitWindow {
    fn default() -> (r: Self)
        ensures
            r.id@ == Seq::<char>::empty(),
            r.duration_minutes == 0,
            r.used_percent == 0,
            r.resets_at is None,
    {
        RateLimitWindow { id: String::new(), duration_minutes: 0, used_percent: 0, resets_at: None }
    }
}

impl RateLimitWindow {
    /// The share of the window still available: `100 - used`, with `used` clamped to 100.
    pub fn remaining_percent(&self) -> (r: u8)
        ensures
            r == 100 - (if self.used_percent > 100 { 100 } else { self.used_percent as int }),
    {
        let used = if self.used_percent < 100 { self.used_percent } else { 100 };
        100 - used
    }
}

/// Token counters of one model. The cached-input and reasoning counters are absent when the
/// source never reported them.
#[derive(Debug, Clone, Copy, PartialEq, Eq, Structural)]
pub struct ModelUsage {
    pub input: u64,
    pub cached_input: Option<u64>,
    pub output: u64,
    pub reasoning: Option<u64>,
    pub total: u64,
}

impl Default for ModelUsage {
    fn default() -> (r: Self)
        ensures
            r == zero_usage(),
    {
        ModelUsage { input: 0, cached_input: None, output: 0, reasoning: None, total: 0 }
    }
}

/// All counters zero, the optional counters absent.
pub open spec fn zero_usage() -> ModelUsage {
    ModelUsage { input: 0, cached_input: None, output: 0, reasoning: None, total: 0 }
}

/// The value of an optional counter, absence counting as zero.
pub open spec fn or_zero(value: Option<u64>) -> int {
    match value {
        Some(v) => v as int,
        None => 0,
    }
}

/// Adds two optional counters: absent when both are absent, otherwise the sum with absence
/// counting as zero.
pub open spec fn optional_sum(left: Option<u64>, right: Option<u64>) -> Option<u64> {
    if left is None && right is None {
        None
    } else {
        Some((or_zero(left) + or_zero(right)) as u64)
    }
}

/// Whether every counter of `a + b` fits in 64 bits.
pub open spec fn sum_fits(a: ModelUsage, b: ModelUsage) -> bool {
    &&& a.input + b.input <= u64::MAX
    &&& or_zero(a.cached_input) + or_zero(b.cached_input) <= u64::MAX
    &&& a.output + b.output <= u64::MAX
    &&& or_zero(a.reasoning) + or_zero(b.reasoning) <= u64::MAX
    &&& a.total + b.total <= u64::MAX
}

/// The counter-wise sum of two usages.
pub open spec fn usage_sum(a: ModelUsage, b: ModelUsage) -> ModelUsage {
    ModelUsage {
        input: (a.input + b.input) as u64,
        cached_input: optional_sum(a.cached_input, b.cached_input),
        output: (a.output + b.output) as u64,
        reasoning: optional_sum(a.reasoning, b.reasoning),
        total: (a.total + b.total) as u64,
    }
}

/// Adds two optional counters (see `optional_sum`).
pub fn sum_optional(left: Option<u64>, right: Option<u64>) -> (r: Option<u64>)
    requires
        or_zero(left) + or_zero(right) <= u64::MAX,
    ensures
        r == optional_sum(left, right),
{
    match (left, right) {
        (None, None) => None,
        (Some(l), None) => Some(l),
        (None, Some(r)) => Some(r),
        (Some(l), Some(r)) => Some(l + r),
    }
}

/// Whether every counter of `a + b` fits in 64 bits.
pub fn usage_sum_fits(a: &ModelUsage, b: &ModelUsage) -> (r: bool)
    ensures
        r == sum_fits(*a, *b),
{
    let ac = match a.cached_input {
        Some(v) => v,
        None => 0,
    };
    let bc = match b.cached_input {
        Some(v) => v,
        None => 0,
    };
    let ar = match a.reasoning {
        Some(v) => v,
        None => 0,
    };
    let br = match b.reasoning {
        Some(v) => v,
        None => 0,
    };
    a.input <= u64::MAX - b.input && ac <= u64::MAX - bc && a.output <= u64::MAX - b.output
        && ar <= u64::MAX - br && a.total <= u64::MAX - b.total
}

impl ModelUsage {
    /// Adds `other` to these counters.
    pub fn add_assign(&mut self, other: &Self)
        requires
            sum_fits(*old(self), *other),
        ensures
            *final(self) == usage_sum(*old(self), *other),
    {
        self.input = self.input + other.input;
        self.cached_input = sum_optional(self.cached_input, other.cached_input);
        self.output = self.output + other.output;
        self.reasoning = sum_optional(self.reasoning, other.reasoning);
        self.total = self.total + other.total;
    }
}

/// The usage of one model within a breakdown.
#[derive(Debug, Clone)]
pub struct ModelEntry {
    pub model: String,
    pub usage: ModelUsage,
}

/// Whether the models of `entries` are strictly increasing.
pub open spec fn keys_strictly_sorted(entries: Seq<ModelEntry>) -> bool {
    forall|i: int, j: int|
        0 <= i < j < entries.len() ==> seq_lt(#[trigger] entries[i].model@, #[trigger] entries[j].model@)
}

/// Whether some entry is for `model`.
pub open spec fn has_model(entries: Seq<ModelEntry>, model: Seq<char>) -> bool {
    exists|i: int| 0 <= i < entries.len() && #[trigger] entries[i].model@ == model
}

/// A position of an entry for `model`, when there is one.
pub open spec fn entry_index(entries: Seq<ModelEntry>, model: Seq<char>) -> int {
    choose|i: int| 0 <= i < entries.len() && #[trigger] entries[i].model@ == model
}

/// The map from model to usage that `entries` stands for.
pub open spec fn entries_map(entries: Seq<ModelEntry>) -> Map<Seq<char>, ModelUsage> {
    Map::new(
        |model: Seq<char>| has_model(entries, model),
        |model: Seq<char>| entries[entry_index(entries, model)].usage,
    )
}

/// In sorted entries, the map holds each entry's usage under its model.
pub proof fn lemma_entries_map_at(entries: Seq<ModelEntry>, i: int)
    requires
        keys_strictly_sorted(entries),
        0 <= i < entries.len(),
    ensures
        entries_map(entries).dom().contains(entries[i].model@),
        entries_map(entries)[entries[i].model@] == entries[i].usage,
{
    let model = entries[i].model@;
    assert(has_model(entries, model));
    let j = entry_index(entries, model);
    if j != i {
        if j < i {
            assert(seq_lt(entries[j].model@, entries[i].model@));
        } else {
            assert(seq_lt(entries[i].model@, entries[j].model@));
        }
        lemma_seq_lt_irreflexive(model);
    }
    assert(entries_map(entries).dom().contains(model));
    assert(entries_map(entries)[model] == entries[j].usage);
}

/// Usage per model, kept in increasing order of the model's name.
#[derive(Debug)]
pub struct ModelBreakdown {
    entries: Vec<ModelEntry>,
}

impl View for ModelBreakdown {
    type V = Map<Seq<char>, ModelUsage>;

    open spec fn view(&self) -> Map<Seq<char>, ModelUsage> {
        entries_map(self.entry_seq())
    }
}

/// Where a model stands among sorted entries: the first position whose model does not come
/// before it, and whether the model there is the one searched for.
pub open spec fn locate_spec(entries: Seq<ModelEntry>, model: Seq<char>, pos: int, found: bool) -> bool {
    &&& 0 <= pos <= entries.len()
    &&& forall|i: int| 0 <= i < pos ==> seq_lt(#[trigger] entries[i].model@, model)
    &&& pos < entries.len() ==> !seq_lt(entries[pos].model@, model)
    &&& found <==> (pos < entries.len() && entries[pos].model@ == model)
}

impl ModelBreakdown {
    #[verifier::type_invariant]
    spec fn sorted(self) -> bool {
        keys_strictly_sorted(self.entries@)
    }

    /// The entries in order.
    pub closed spec fn entry_seq(self) -> Seq<ModelEntry> {
        self.entries@
    }

    /// An empty breakdown.
    pub fn new() -> (r: Self)
        ensures
            r.entry_seq() == Seq::<ModelEntry>::empty(),
            r@ == Map::<Seq<char>, ModelUsage>::empty(),
    {
        let r = ModelBreakdown { entries: Vec::new() };
        assert(r@ =~= Map::<Seq<char>, ModelUsage>::empty());
        r
    }

    /// The entries, in increasing order of model.
    pub fn entries(&self) -> (r: &Vec<ModelEntry>)
        ensures
            r@ == self.entry_seq(),
            keys_strictly_sorted(r@),
    {
        proof {
            use_type_invariant(self);
        }
        &self.entries
    }

    /// The number of models.
    pub fn len(&self) -> (r: usize)
        ensures
            r == self.entry_seq().len(),
            r == self@.len(),
    {
        proof {
            use_type_invariant(self);
            lemma_sorted_map_len(self.entries@);
        }
        self.entries.len()
    }

    /// Whether no model has usage.
    pub fn is_empty(&self) -> (r: bool)
        ensures
            r == (self@.len() == 0),
    {
        self.len() == 0
    }

    /// Finds where `model` stands (see `locate_spec`).
    fn locate(&self, model: &str) -> (r: (usize, bool))
        ensures
            locate_spec(self.entries@, model@, r.0 as int, r.1),
    {
        proof {
            use_type_invariant(self);
        }
        let mut i: usize = 0;
        while i < self.entries.len()
            invariant
                i <= self.entries@.len(),
                keys_strictly_sorted(self.entries@),
                forall|k: int| 0 <= k < i ==> seq_lt(#[trigger] self.entries@[k].model@, model@),
            decreases self.entries@.len() - i,
        {
            match precedence(self.entries[i].model.as_str(), model) {
                Precedence::Before => {
                    i = i + 1;
                },
                Precedence::Same => {
                    return (i, true);
                },
                Precedence::After => {
                    proof {
                        lemma_seq_lt_asymmetric(model@, self.entries@[i as int].model@);
                    }
                    return (i, false);
                },
            }
        }
        (i, false)
    }

    /// The usage of `model`, if it has any.
    pub fn get(&self, model: &str) -> (r: Option<&ModelUsage>)
        ensures
            r is Some <==> self@.dom().contains(model@),
            r matches Some(u) ==> *u == self@[model@],
    {
        proof {
            use_type_invariant(self);
        }
        let (pos, found) = self.locate(model);
        proof {
            lemma_locate_absent(self.entries@, model@, pos as int, found);
        }
        if found {
            proof {
                lemma_entries_map_at(self.entries@, pos as int);
            }
            Some(&self.entries[pos].usage)
        } else {
            None
        }
    }

    /// Sets the usage of `model`, returning what it was.
    pub fn insert(&mut self, model: String, usage: ModelUsage) -> (r: Option<ModelUsage>)
        ensures
            final(self)@ == old(self)@.insert(model@, usage),
            r == (if old(self)@.dom().contains(model@) { Some(old(self)@[model@]) } else { None }),
    {
        proof {
            use_type_invariant(&*self);
        }
        let (pos, found) = self.locate(model.as_str());
        let mut entries: Vec<ModelEntry> = Vec::new();
        std::mem::swap(&mut entries, &mut self.entries);
        let ghost old_entries = entries@;
        proof {
            lemma_locate_absent(old_entries, model@, pos as int, found);
        }
        let previous = if found {
            let previous = entries[pos].usage;
            proof {
                lemma_entries_map_at(old_entries, pos as int);
                lemma_set_sorted(old_entries, pos as int, ModelEntry { model, usage });
            }
            entries.set(pos, ModelEntry { model, usage });
            Some(previous)
        } else {
            proof {
                lemma_insert_sorted(old_entries, pos as int, ModelEntry { model, usage });
            }
            entries.insert(pos, ModelEntry { model, usage });
            None
        };
        proof {
            lemma_map_after_write(old_entries, entries@, pos as int, found, model@, usage);
        }
        self.entries = entries;
        previous
    }

    /// Adds `usage` to the counters of `model`, starting from zero for a model not yet present.
    pub fn add(&mut self, model: &str, usage: &ModelUsage)
        requires
            sum_fits(usage_or_zero(old(self)@, model@), *usage),
        ensures
            final(self)@ == old(self)@.insert(
                model@,
                usage_sum(usage_or_zero(old(self)@, model@), *usage),
            ),
            written_at(
                old(self).entry_seq(),
                final(self).entry_seq(),
                model@,
                usage_sum(usage_or_zero(old(self)@, model@), *usage),
            ),
    {
        proof {
            use_type_invariant(&*self);
        }
        let (pos, found) = self.locate(model);
        let mut entries: Vec<ModelEntry> = Vec::new();
        std::mem::swap(&mut entries, &mut self.entries);
        let ghost old_entries = entries@;
        proof {
            lemma_locate_absent(old_entries, model@, pos as int, found);
        }
        let mut current = if found {
            proof {
                lemma_entries_map_at(old_entries, pos as int);
            }
            entries[pos].usage
        } else {
            ModelUsage::default()
        };
        current.add_assign(usage);
        let name = model.to_owned();
        if found {
            proof {
                lemma_set_sorted(old_entries, pos as int, ModelEntry { model: name, usage: current });
            }
            entries.set(pos, ModelEntry { model: name, usage: current });
        } else {
            proof {
                lemma_insert_sorted(old_entries, pos as int, ModelEntry { model: name, usage: current });
            }
            entries.insert(pos, ModelEntry { model: name, usage: current });
        }
        proof {
            lemma_map_after_write(old_entries, entries@, pos as int, found, model@, current);
            assert(entries@[pos as int].model@ == model@);
        }
        self.entries = entries;
    }
}

/// `new` is `old` with the entry for `model` set to `usage`: replaced in place when `model`
/// was present, inserted otherwise.
pub open spec fn written_at(old: Seq<ModelEntry>, new: Seq<ModelEntry>, model: Seq<char>, usage: ModelUsage) -> bool {
    exists|pos: int|
        0 <= pos < new.len() && #[trigger] new[pos].model@ == model && new[pos].usage == usage && (
        (pos < old.len() && old[pos].model@ == model && new == old.update(pos, new[pos]))
        || (!has_model(old, model) && pos <= old.len() && new == old.insert(pos, new[pos])))
}

/// The sum of one counter over entries.
pub open spec fn counter_sum(entries: Seq<ModelEntry>, counter: spec_fn(ModelUsage) -> int) -> int
    decreases entries.len(),
{
    if entries.len() == 0 {
        0
    } else {
        counter(entries[0].usage) + counter_sum(entries.drop_first(), counter)
    }
}

/// Whether the totals `t` are what the entries add up to: each counter is the sum over the
/// entries, and an optional counter is absent exactly when it is absent from every entry.
pub open spec fn totals_match(t: ModelUsage, entries: Seq<ModelEntry>) -> bool {
    &&& t.input == counter_sum(entries, |u: ModelUsage| u.input as int)
    &&& or_zero(t.cached_input) == counter_sum(entries, |u: ModelUsage| or_zero(u.cached_input))
    &&& (t.cached_input is None <==> forall|i: int| 0 <= i < entries.len() ==> (#[trigger] entries[i]).usage.cached_input is None)
    &&& t.output == counter_sum(entries, |u: ModelUsage| u.output as int)
    &&& or_zero(t.reasoning) == counter_sum(entries, |u: ModelUsage| or_zero(u.reasoning))
    &&& (t.reasoning is None <==> forall|i: int| 0 <= i < entries.len() ==> (#[trigger] entries[i]).usage.reasoning is None)
    &&& t.total == counter_sum(entries, |u: ModelUsage| u.total as int)
}

proof fn lemma_counter_sum_insert(entries: Seq<ModelEntry>, pos: int, e: ModelEntry, counter: spec_fn(ModelUsage) -> int)
    requires
        0 <= pos <= entries.len(),
    ensures
        counter_sum(entries.insert(pos, e), counter) == counter_sum(entries, counter) + counter(e.usage),
    decreases pos,
{
    if pos == 0 {
        assert(entries.insert(0, e).drop_first() =~= entries);
    } else {
        lemma_counter_sum_insert(entries.drop_first(), pos - 1, e, counter);
        assert(entries.insert(pos, e).drop_first() =~= entries.drop_first().insert(pos - 1, e));
    }
}

proof fn lemma_counter_sum_update(entries: Seq<ModelEntry>, pos: int, e: ModelEntry, counter: spec_fn(ModelUsage) -> int)
    requires
        0 <= pos < entries.len(),
    ensures
        counter_sum(entries.update(pos, e), counter) == counter_sum(entries, counter) - counter(entries[pos].usage) + counter(e.usage),
    decreases pos,
{
    if pos == 0 {
        assert(entries.update(0, e).drop_first() =~= entries.drop_first());
    } else {
        lemma_counter_sum_update(entries.drop_first(), pos - 1, e, counter);
        assert(entries.update(pos, e).drop_first() =~= entries.drop_first().update(pos - 1, e));
    }
}

/// The usage of `model` in `map`, or zero counters when it has none.
pub open spec fn usage_or_zero(map: Map<Seq<char>, ModelUsage>, model: Seq<char>) -> ModelUsage {
    if map.dom().contains(model) {
        map[model]
    } else {
        zero_usage()
    }
}

/// In sorted entries, the number of keys is the number of entries.
proof fn lemma_sorted_map_len(entries: Seq<ModelEntry>)
    requires
        keys_strictly_sorted(entries),
    ensures
        entries_map(entries).dom().finite(),
        entries_map(entries).len() == entries.len(),
    decreases entries.len(),
{
    if entries.len() == 0 {
        assert(entries_map(entries) =~= Map::<Seq<char>, ModelUsage>::empty());
    } else {
        let init = entries.drop_last();
        let last = entries.last();
        lemma_sorted_map_len(init);
        assert(keys_strictly_sorted(init));
        assert(entries_map(entries).dom() =~= entries_map(init).dom().insert(last.model@)) by {
            assert forall|m: Seq<char>| entries_map(entries).dom().contains(m) implies
                entries_map(init).dom().contains(m) || m == last.model@ by {
                let i = choose|i: int| 0 <= i < entries.len() && #[trigger] entries[i].model@ == m;
                if i < entries.len() - 1 {
                    assert(init[i].model@ == m);
                }
            }
            assert forall|m: Seq<char>| entries_map(init).dom().contains(m) implies
                entries_map(entries).dom().contains(m) by {
                let i = choose|i: int| 0 <= i < init.len() && #[trigger] init[i].model@ == m;
                assert(entries[i].model@ == m);
            }
            assert(entries[entries.len() - 1].model@ == last.model@);
        }
        if entries_map(init).dom().contains(last.model@) {
            let i = choose|i: int| 0 <= i < init.len() && #[trigger] init[i].model@ == last.model@;
            assert(seq_lt(entries[i].model@, entries[entries.len() - 1].model@));
            lemma_seq_lt_irreflexive(last.model@);
        }
    }
}

/// A model that `locate` did not find is absent; a found one is at the position returned.
proof fn lemma_locate_absent(entries: Seq<ModelEntry>, model: Seq<char>, pos: int, found: bool)
    requires
        keys_strictly_sorted(entries),
        locate_spec(entries, model, pos, found),
    ensures
        !found ==> !has_model(entries, model),
        !found ==> !entries_map(entries).dom().contains(model),
        forall|i: int| pos < i < entries.len() ==> seq_lt(model, #[trigger] entries[i].model@),
        !found && pos < entries.len() ==> seq_lt(model, entries[pos].model@),
{
    if pos < entries.len() && !found {
        lemma_seq_lt_total(model, entries[pos].model@);
    }
    assert forall|i: int| pos < i < entries.len() implies seq_lt(model, #[trigger] entries[i].model@) by {
        assert(seq_lt(entries[pos].model@, entries[i].model@));
        lemma_seq_lt_total(model, entries[pos].model@);
        if seq_lt(model, entries[pos].model@) {
            lemma_seq_lt_transitive(model, entries[pos].model@, entries[i].model@);
        }
    }
    if !found && has_model(entries, model) {
        let i = choose|i: int| 0 <= i < entries.len() && #[trigger] entries[i].model@ == model;
        lemma_seq_lt_irreflexive(model);
        if i < pos {
            assert(seq_lt(entries[i].model@, model));
        } else if i > pos {
            assert(seq_lt(model, entries[i].model@));
        } else {
            lemma_seq_lt_total(model, entries[pos].model@);
        }
    }
}

/// Replacing an entry by one for the same model keeps the entries sorted.
proof fn lemma_set_sorted(entries: Seq<ModelEntry>, pos: int, entry: ModelEntry)
    requires
        keys_strictly_sorted(entries),
        0 <= pos < entries.len(),
        entry.model@ == entries[pos].model@,
    ensures
        keys_strictly_sorted(entries.update(pos, entry)),
{
    let updated = entries.update(pos, entry);
    assert forall|i: int, j: int| 0 <= i < j < updated.len() implies seq_lt(
        #[trigger] updated[i].model@,
        #[trigger] updated[j].model@,
    ) by {
        assert(seq_lt(entries[i].model@, entries[j].model@));
    }
}

/// Inserting a new model where `locate` placed it keeps the entries sorted.
proof fn lemma_insert_sorted(entries: Seq<ModelEntry>, pos: int, entry: ModelEntry)
    requires
        keys_strictly_sorted(entries),
        locate_spec(entries, entry.model@, pos, false),
    ensures
        keys_strictly_sorted(entries.insert(pos, entry)),
{
    lemma_locate_absent(entries, entry.model@, pos, false);
    let inserted = entries.insert(pos, entry);
    assert forall|i: int, j: int| 0 <= i < j < inserted.len() implies seq_lt(
        #[trigger] inserted[i].model@,
        #[trigger] inserted[j].model@,
    ) by {
        if j < pos {
            assert(seq_lt(entries[i].model@, entries[j].model@));
        } else if j == pos {
            assert(seq_lt(entries[i].model@, entry.model@));
        } else if i < pos {
            assert(seq_lt(entries[i].model@, entry.model@));
            assert(seq_lt(entry.model@, entries[j - 1].model@));
            lemma_seq_lt_transitive(entries[i].model@, entry.model@, entries[j - 1].model@);
        } else if i == pos {
            assert(seq_lt(entry.model@, entries[j - 1].model@));
        } else {
            assert(seq_lt(entries[i - 1].model@, entries[j - 1].model@));
        }
    }
}

/// Writing an entry where `locate` placed its model sets that model in the map and leaves
/// the others as they were.
proof fn lemma_map_after_write(
    old_entries: Seq<ModelEntry>,
    new_entries: Seq<ModelEntry>,
    pos: int,
    found: bool,
    model: Seq<char>,
    usage: ModelUsage,
)
    requires
        keys_strictly_sorted(old_entries),
        keys_strictly_sorted(new_entries),
        locate_spec(old_entries, model, pos, found),
        new_entries == (if found {
            old_entries.update(pos, new_entries[pos])
        } else {
            old_entries.insert(pos, new_entries[pos])
        }),
        new_entries[pos].model@ == model,
        new_entries[pos].usage == usage,
    ensures
        entries_map(new_entries) == entries_map(old_entries).insert(model, usage),
{
    lemma_locate_absent(old_entries, model, pos, found);
    let target = entries_map(old_entries).insert(model, usage);
    lemma_entries_map_at(new_entries, pos);
    assert forall|m: Seq<char>| #[trigger] entries_map(new_entries).dom().contains(m) <==> target.dom().contains(m) by {
        if m != model {
            if entries_map(new_entries).dom().contains(m) {
                let j = choose|j: int| 0 <= j < new_entries.len() && #[trigger] new_entries[j].model@ == m;
                if found {
                    assert(old_entries[j].model@ == m);
                } else if j < pos {
                    assert(old_entries[j].model@ == m);
                } else {
                    assert(old_entries[j - 1].model@ == m);
                }
            }
            if entries_map(old_entries).dom().contains(m) {
                let i = choose|i: int| 0 <= i < old_entries.len() && #[trigger] old_entries[i].model@ == m;
                if found || i < pos {
                    assert(new_entries[i].model@ == m);
                } else {
                    assert(new_entries[i + 1].model@ == m);
                }
            }
        }
    }
    assert forall|m: Seq<char>| #[trigger] entries_map(new_entries).dom().contains(m) implies entries_map(new_entries)[m] == target[m] by {
        if m != model {
            let i = choose|i: int| 0 <= i < old_entries.len() && #[trigger] old_entries[i].model@ == m;
            lemma_entries_map_at(old_entries, i);
            if found || i < pos {
                lemma_entries_map_at(new_entries, i);
            } else {
                lemma_entries_map_at(new_entries, i + 1);
            }
        }
    }
    assert(entries_map(new_entries) =~= target);
}

} // verus!

verus! {

/// Token usage over a period: totals across all models and the usage of each model.
#[derive(Debug)]
pub struct TokenUsage {
    pub input: u64,
    pub cached_input: Option<u64>,
    pub output: u64,
    pub reasoning: Option<u64>,
    pub total: u64,
    pub by_model: ModelBreakdown,
}

impl Default for TokenUsage {
    fn default() -> (r: Self)
        ensures
            r.totals() == zero_usage(),
            r.by_model.entry_seq() == Seq::<ModelEntry>::empty(),
            r.by_model@ == Map::<Seq<char>, ModelUsage>::empty(),
    {
        TokenUsage {
            input: 0,
            cached_input: None,
            output: 0,
            reasoning: None,
            total: 0,
            by_model: ModelBreakdown::new(),
        }
    }
}

impl TokenUsage {
    /// The totals across all models, as one usage.
    pub open spec fn totals(self) -> ModelUsage {
        ModelUsage {
            input: self.input,
            cached_input: self.cached_input,
            output: self.output,
            reasoning: self.reasoning,
            total: self.total,
        }
    }

    /// Whether the totals are what the per-model breakdown adds up to.
    pub open spec fn consistent(self) -> bool {
        totals_match(self.totals(), self.by_model.entry_seq())
    }

    /// Whether `push(model, usage)` keeps every counter within 64 bits.
    pub open spec fn push_fits(self, model: Seq<char>, usage: ModelUsage) -> bool {
        &&& sum_fits(self.totals(), usage)
        &&& sum_fits(usage_or_zero(self.by_model@, model), usage)
    }

    /// Whether `push(model, usage)` keeps every counter within 64 bits.
    pub fn can_push(&self, model: &str, usage: &ModelUsage) -> (r: bool)
        ensures
            r == self.push_fits(model@, *usage),
    {
        let totals = ModelUsage {
            input: self.input,
            cached_input: self.cached_input,
            output: self.output,
            reasoning: self.reasoning,
            total: self.total,
        };
        if !usage_sum_fits(&totals, usage) {
            return false;
        }
        match self.by_model.get(model) {
            Some(current) => usage_sum_fits(current, usage),
            None => {
                let zero = ModelUsage::default();
                usage_sum_fits(&zero, usage)
            },
        }
    }

    /// Records `usage` of `model`: it is added both to the totals and to that model's counters.
    pub fn push(&mut self, model: &str, usage: ModelUsage)
        requires
            old(self).push_fits(model@, usage),
        ensures
            final(self).totals() == usage_sum(old(self).totals(), usage),
            final(self).by_model@ == old(self).by_model@.insert(
                model@,
                usage_sum(usage_or_zero(old(self).by_model@, model@), usage),
            ),
            old(self).consistent() ==> final(self).consistent(),
    {
        proof {
            use_type_invariant(&self.by_model);
        }
        let ghost before = *self;
        self.input = self.input + usage.input;
        self.cached_input = sum_optional(self.cached_input, usage.cached_input);
        self.output = self.output + usage.output;
        self.reasoning = sum_optional(self.reasoning, usage.reasoning);
        self.total = self.total + usage.total;
        self.by_model.add(model, &usage);
        proof {
            if before.consistent() {
                lemma_push_keeps_totals_matching(
                    before.totals(),
                    before.by_model.entry_seq(),
                    self.by_model.entry_seq(),
                    model@,
                    usage,
                );
            }
        }
    }
}

/// Totals that match their breakdown still match it after the same usage is added to both.
proof fn lemma_push_keeps_totals_matching(
    t: ModelUsage,
    old_entries: Seq<ModelEntry>,
    new_entries: Seq<ModelEntry>,
    model: Seq<char>,
    usage: ModelUsage,
)
    requires
        keys_strictly_sorted(old_entries),
        totals_match(t, old_entries),
        sum_fits(t, usage),
        sum_fits(usage_or_zero(entries_map(old_entries), model), usage),
        written_at(old_entries, new_entries, model, usage_sum(usage_or_zero(entries_map(old_entries), model), usage)),
    ensures
        totals_match(usage_sum(t, usage), new_entries),
{
    let prev = usage_or_zero(entries_map(old_entries), model);
    let next = usage_sum(prev, usage);
    let pos = choose|pos: int|
        0 <= pos < new_entries.len() && #[trigger] new_entries[pos].model@ == model && new_entries[pos].usage == next && (
        (pos < old_entries.len() && old_entries[pos].model@ == model && new_entries == old_entries.update(pos, new_entries[pos]))
        || (!has_model(old_entries, model) && pos <= old_entries.len() && new_entries == old_entries.insert(pos, new_entries[pos])));
    let e = new_entries[pos];
    let replaced = pos < old_entries.len() && old_entries[pos].model@ == model && new_entries == old_entries.update(pos, e);
    let f_input = |u: ModelUsage| u.input as int;
    let f_cached = |u: ModelUsage| or_zero(u.cached_input);
    let f_output = |u: ModelUsage| u.output as int;
    let f_reasoning = |u: ModelUsage| or_zero(u.reasoning);
    let f_total = |u: ModelUsage| u.total as int;
    if replaced {
        lemma_entries_map_at(old_entries, pos);
        assert(old_entries[pos].usage == prev);
        lemma_counter_sum_update(old_entries, pos, e, f_input);
        lemma_counter_sum_update(old_entries, pos, e, f_cached);
        lemma_counter_sum_update(old_entries, pos, e, f_output);
        lemma_counter_sum_update(old_entries, pos, e, f_reasoning);
        lemma_counter_sum_update(old_entries, pos, e, f_total);
    } else {
        assert(!entries_map(old_entries).dom().contains(model));
        assert(prev == zero_usage());
        lemma_counter_sum_insert(old_entries, pos, e, f_input);
        lemma_counter_sum_insert(old_entries, pos, e, f_cached);
        lemma_counter_sum_insert(old_entries, pos, e, f_output);
        lemma_counter_sum_insert(old_entries, pos, e, f_reasoning);
        lemma_counter_sum_insert(old_entries, pos, e, f_total);
    }
    let nt = usage_sum(t, usage);
    assert(nt.cached_input is None <==> forall|i: int| 0 <= i < new_entries.len() ==> (#[trigger] new_entries[i]).usage.cached_input is None) by {
        if usage.cached_input is None && t.cached_input is Some {
            let k = choose|k: int| 0 <= k < old_entries.len() && !(old_entries[k].usage.cached_input is None);
            if replaced {
                if k != pos {
                    assert(new_entries[k] == old_entries[k]);
                } else {
                    assert(new_entries[pos].usage.cached_input is Some);
                }
            } else if k < pos {
                assert(new_entries[k] == old_entries[k]);
            } else {
                assert(new_entries[k + 1] == old_entries[k]);
            }
        }
        if usage.cached_input is None && t.cached_input is None {
            assert forall|i: int| 0 <= i < new_entries.len() implies (#[trigger] new_entries[i]).usage.cached_input is None by {
                if replaced {
                    if i != pos {
                        assert(new_entries[i] == old_entries[i]);
                    } else {
                        assert(old_entries[pos].usage.cached_input is None);
                    }
                } else if i < pos {
                    assert(new_entries[i] == old_entries[i]);
                } else if i > pos {
                    assert(new_entries[i] == old_entries[i - 1]);
                }
            }
        }
    }
    assert(nt.reasoning is None <==> forall|i: int| 0 <= i < new_entries.len() ==> (#[trigger] new_entries[i]).usage.reasoning is None) by {
        if usage.reasoning is None && t.reasoning is Some {
            let k = choose|k: int| 0 <= k < old_entries.len() && !(old_entries[k].usage.reasoning is None);
            if replaced {
                if k != pos {
                    assert(new_entries[k] == old_entries[k]);
                } else {
                    assert(new_entries[pos].usage.reasoning is Some);
                }
            } else if k < pos {
                assert(new_entries[k] == old_entries[k]);
            } else {
                assert(new_entries[k + 1] == old_entries[k]);
            }
        }
        if usage.reasoning is None && t.reasoning is None {
            assert forall|i: int| 0 <= i < new_entries.len() implies (#[trigger] new_entries[i]).usage.reasoning is None by {
                if replaced {
                    if i != pos {
                        assert(new_entries[i] == old_entries[i]);
                    } else {
                        assert(old_entries[pos].usage.reasoning is None);
                    }
                } else if i < pos {
                    assert(new_entries[i] == old_entries[i]);
                } else if i > pos {
                    assert(new_entries[i] == old_entries[i - 1]);
                }
            }
        }
    }
}

/// The totals of the empty usage match its breakdown (and `push` keeps them matching).
pub proof fn law_totals_match_breakdown(t: TokenUsage)
    requires
        t.totals() == zero_usage(),
        t.by_model.entry_seq() == Seq::<ModelEntry>::empty(),
    ensures
        t.consistent(),
{
}

} // verus!
