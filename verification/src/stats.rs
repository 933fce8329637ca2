use vstd::prelude::*;

use crate::text::str_eq;

verus! {

/// One named cumulative counter.
pub struct StatEntry {
    pub name: String,
    pub value: u64,
}

/// The mathematical value of a counter entry.
pub ghost struct StatModel {
    pub name: Seq<char>,
    pub value: u64,
}

impl View for StatEntry {
    type V = StatModel;

    open spec fn view(&self) -> StatModel {
        StatModel { name: self.name@, value: self.value }
    }
}

/// The views of an entry vector, in order.
pub open spec fn spec_stat_entries(entries: Seq<StatEntry>) -> Seq<StatModel> {
    Seq::new(entries.len(), |i: int| entries[i]@)
}

/// The value of a counter: the first entry carrying the name, or zero
/// when no entry does. Readers never fail on an unknown name.
pub open spec fn spec_stat_value(entries: Seq<StatModel>, name: Seq<char>) -> u64
    decreases entries.len(),
{
    if entries.len() == 0 {
        0
    } else if entries[0].name == name {
        entries[0].value
    } else {
        spec_stat_value(entries.drop_first(), name)
    }
}

/// Stats default: a counter name that no entry carries reads as zero.
pub proof fn lemma_missing_counter_is_zero(entries: Seq<StatModel>, name: Seq<char>)
    requires
        forall|i: int| 0 <= i < entries.len() ==> (#[trigger] entries[i]).name != name,
    ensures
        spec_stat_value(entries, name) == 0,
    decreases entries.len(),
{
    if entries.len() == 0 {
    } else {
        assert(forall|i: int|
            1 <= i < entries.len() ==> entries.drop_first()[i - 1] == #[trigger] entries[i]);
        lemma_missing_counter_is_zero(entries.drop_first(), name);
    }
}

/// The state after writing a counter: the first entry carrying the name
/// is overwritten; when none does, a new entry is appended.
pub open spec fn spec_stat_set(entries: Seq<StatModel>, name: Seq<char>, value: u64) -> Seq<
    StatModel,
>
    decreases entries.len(),
{
    if entries.len() == 0 {
        seq![StatModel { name, value }]
    } else if entries[0].name == name {
        seq![StatModel { name, value }] + entries.drop_first()
    } else {
        seq![entries[0]] + spec_stat_set(entries.drop_first(), name, value)
    }
}

/// A point-in-time copy of the live counters: a mapping from counter
/// name to cumulative value, read without blocking the writers.
pub struct StatsSnapshot {
    entries: Vec<StatEntry>,
}

impl View for StatsSnapshot {
    type V = Seq<StatModel>;

    closed spec fn view(&self) -> Seq<StatModel> {
        spec_stat_entries(self.entries@)
    }
}

fn clone_entry(e: &StatEntry) -> (r: StatEntry)
    ensures
        r@ == e@,
{
    StatEntry { name: e.name.clone(), value: e.value }
}

impl StatsSnapshot {
    /// An empty aggregator: every counter reads as zero.
    pub fn new() -> (r: StatsSnapshot)
        ensures
            r@ == Seq::<StatModel>::empty(),
    {
        let r = StatsSnapshot { entries: Vec::new() };
        proof {
            assert(r@ =~= Seq::<StatModel>::empty());
        }
        r
    }

    /// Reads one counter; an absent name reads as zero rather than
    /// failing.
    pub fn get(&self, name: &str) -> (r: u64)
        ensures
            r == spec_stat_value(self@, name@),
    {
        let ghost model = self@;
        proof {
            assert(model.skip(0) =~= model);
        }
        let n = self.entries.len();
        let mut i: usize = 0;
        while i < n
            invariant
                i <= n,
                n == self.entries@.len(),
                model == self@,
                model.len() == n,
                spec_stat_value(model.skip(i as int), name@) == spec_stat_value(model, name@),
                model == spec_stat_entries(self.entries@),
            decreases n - i,
        {
            proof {
                assert(model.skip(i as int)[0] == model[i as int]);
                assert(model.skip(i as int).drop_first() =~= model.skip(i + 1));
            }
            if str_eq(self.entries[i].name.as_str(), name) {
                return self.entries[i].value;
            }
            i = i + 1;
        }
        proof {
            assert(model.skip(n as int) =~= Seq::<StatModel>::empty());
        }
        0
    }

    /// Writes one counter: overwrites the first entry carrying the name,
    /// or appends a new entry when none does.
    pub fn set(&mut self, name: &str, value: u64)
        ensures
            final(self)@ == spec_stat_set(old(self)@, name@, value),
    {
        let ghost model = self@;
        let ghost target = spec_stat_set(model, name@, value);
        let mut out: Vec<StatEntry> = Vec::new();
        let mut replaced = false;
        proof {
            assert(model.skip(0) =~= model);
            assert(spec_stat_entries(out@) =~= Seq::<StatModel>::empty());
        }
        let n = self.entries.len();
        let mut i: usize = 0;
        while i < n
            invariant
                i <= n,
                n == self.entries@.len(),
                model == spec_stat_entries(self.entries@),
                model.len() == n,
                target == spec_stat_set(model, name@, value),
                spec_stat_entries(out@).len() == i,
                (if replaced {
                    target == spec_stat_entries(out@) + model.skip(i as int)
                } else {
                    target == spec_stat_entries(out@) + spec_stat_set(
                        model.skip(i as int),
                        name@,
                        value,
                    )
                }),
            decreases n - i,
        {
            proof {
                assert(model.skip(i as int)[0] == model[i as int]);
                assert(model.skip(i as int).drop_first() =~= model.skip(i + 1));
                assert(model[i as int] == self.entries@[i as int]@);
            }
            let ghost out_before = spec_stat_entries(out@);
            if !replaced && str_eq(self.entries[i].name.as_str(), name) {
                out.push(StatEntry { name: name.to_owned(), value });
                replaced = true;
                proof {
                    assert(spec_stat_entries(out@) =~= out_before + seq![
                        StatModel { name: name@, value },
                    ]);
                    assert(target =~= spec_stat_entries(out@) + model.skip(i + 1));
                }
            } else {
                out.push(clone_entry(&self.entries[i]));
                proof {
                    assert(spec_stat_entries(out@) =~= out_before + seq![model[i as int]]);
                    if replaced {
                        assert(target =~= spec_stat_entries(out@) + model.skip(i + 1));
                    } else {
                        assert(target =~= spec_stat_entries(out@) + spec_stat_set(
                            model.skip(i + 1),
                            name@,
                            value,
                        ));
                    }
                }
            }
            i = i + 1;
        }
        proof {
            assert(model.skip(n as int) =~= Seq::<StatModel>::empty());
        }
        if !replaced {
            let ghost out_before = spec_stat_entries(out@);
            out.push(StatEntry { name: name.to_owned(), value });
            proof {
                assert(spec_stat_entries(out@) =~= out_before + seq![
                    StatModel { name: name@, value },
                ]);
                assert(target =~= spec_stat_entries(out@));
            }
        } else {
            proof {
                assert(target =~= spec_stat_entries(out@) + model.skip(n as int));
                assert(target =~= spec_stat_entries(out@));
            }
        }
        self.entries = out;
    }
}

} // verus!
