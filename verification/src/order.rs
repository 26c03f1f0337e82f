//! Sorting rows by the resources they ask for.

use crate::error::{BadChoice, Error};
use crate::manifest::Manifest;
use crate::text::{
    chars_of, compare_chars, lemma_lex_irreflexive, lemma_lex_total, lemma_lex_transitive, lex_lt,
    str_eq, Rank,
};
use crate::totals::{sat_add, ResourceTotals};
use vstd::prelude::*;

verus! {

/// The resource that rows are sorted by.
#[derive(Clone, Copy, Debug, PartialEq, Eq, Structural)]
pub enum ResourceOrder {
    Cpu,
    Memory,
}

/// How numbers are written out.
#[derive(Clone, Copy, Debug, PartialEq, Eq, Structural)]
pub enum OutputFormat {
    /// A table for people to read.
    Table,
    /// Plain numbers, in millicores and bytes.
    Yaml,
}

/// The resource that the word `s` names.
pub open spec fn order_named(s: Seq<char>) -> Result<ResourceOrder, Error> {
    if s == "cpu"@ {
        Ok(ResourceOrder::Cpu)
    } else if s == "memory"@ {
        Ok(ResourceOrder::Memory)
    } else {
        Err(Error::Choice(BadChoice::ResourceOrder))
    }
}

/// The output format that the word `s` names.
pub open spec fn format_named(s: Seq<char>) -> Result<OutputFormat, Error> {
    if s == "table"@ {
        Ok(OutputFormat::Table)
    } else if s == "yaml"@ {
        Ok(OutputFormat::Yaml)
    } else {
        Err(Error::Choice(BadChoice::OutputFormat))
    }
}

impl ResourceOrder {
    /// Reads `cpu` or `memory`.
    pub fn from_str(input: &str) -> (r: Result<Self, Error>)
        ensures
            r == order_named(input@),
    {
        if str_eq(input, "cpu") {
            Ok(ResourceOrder::Cpu)
        } else if str_eq(input, "memory") {
            Ok(ResourceOrder::Memory)
        } else {
            Err(Error::Choice(BadChoice::ResourceOrder))
        }
    }
}

impl OutputFormat {
    /// Reads `table` or `yaml`.
    pub fn from_str(input: &str) -> (r: Result<Self, Error>)
        ensures
            r == format_named(input@),
    {
        if str_eq(input, "table") {
            Ok(OutputFormat::Table)
        } else if str_eq(input, "yaml") {
            Ok(OutputFormat::Yaml)
        } else {
            Err(Error::Choice(BadChoice::OutputFormat))
        }
    }
}

impl Default for OutputFormat {
    /// The table.
    fn default() -> (r: Self)
        ensures
            r == OutputFormat::Table,
    {
        OutputFormat::Table
    }
}

/// Something that rows are told apart by: a manifest by the name of its
/// service, a group by its label.
pub trait Named {
    spec fn label(&self) -> Seq<char>;

    fn label_text(&self) -> (r: &str)
        ensures
            r@ == self.label(),
    ;
}

impl Named for Manifest {
    open spec fn label(&self) -> Seq<char> {
        self.name@
    }

    fn label_text(&self) -> (r: &str) {
        self.name.as_str()
    }
}

impl Named for String {
    open spec fn label(&self) -> Seq<char> {
        self@
    }

    fn label_text(&self) -> (r: &str) {
        self.as_str()
    }
}

/// The number that totals are sorted by and reported with: the requested
/// CPU in millicores or the requested memory in bytes, of the primary
/// container alone (the lower bound) or with the containers beside it (the
/// upper bound).
pub open spec fn measure(t: ResourceTotals, order: ResourceOrder, upper: bool) -> u64 {
    match order {
        ResourceOrder::Cpu => if upper {
            sat_add(t.base.requests.cpu, t.extra.requests.cpu)
        } else {
            t.base.requests.cpu
        },
        ResourceOrder::Memory => if upper {
            sat_add(t.base.requests.memory, t.extra.requests.memory)
        } else {
            t.base.requests.memory
        },
    }
}

/// A row with the measure `ma` and the label `la` comes strictly before one
/// with `mb` and `lb`: the larger measure first, and of two equal measures
/// the label that is first in the dictionary.
pub open spec fn ranks_before(ma: u64, la: Seq<char>, mb: u64, lb: Seq<char>) -> bool {
    ma > mb || (ma == mb && lex_lt(la, lb))
}

/// The row `a` comes strictly before the row `b`.
pub open spec fn row_before<T: Named>(
    a: (T, ResourceTotals),
    b: (T, ResourceTotals),
    order: ResourceOrder,
    upper: bool,
) -> bool {
    ranks_before(measure(a.1, order, upper), a.0.label(), measure(b.1, order, upper), b.0.label())
}

/// No row of `s` comes strictly before a row that stands in front of it.
pub open spec fn in_order<T: Named>(
    s: Seq<(T, ResourceTotals)>,
    order: ResourceOrder,
    upper: bool,
) -> bool {
    forall|i: int, j: int|
        #![trigger s[i], s[j]]
        0 <= i < j < s.len() ==> !row_before(s[j], s[i], order, upper)
}

/// The first place from `from` on whose row the row `e` comes strictly
/// before; the length of `s` where there is none.
pub open spec fn insertion_point<T: Named>(
    s: Seq<(T, ResourceTotals)>,
    e: (T, ResourceTotals),
    order: ResourceOrder,
    upper: bool,
    from: int,
) -> int
    decreases s.len() - from,
{
    if from < 0 || from >= s.len() {
        s.len() as int
    } else if row_before(e, s[from], order, upper) {
        from
    } else {
        insertion_point(s, e, order, upper, from + 1)
    }
}

/// The first `n` of `rows`, sorted: each row is put, in turn, in front of the
/// first row that it comes strictly before. So rows that neither measure nor
/// label tells apart keep the order in which they came.
pub open spec fn sorted_rows<T: Named>(
    rows: Seq<(T, ResourceTotals)>,
    order: ResourceOrder,
    upper: bool,
    n: int,
) -> Seq<(T, ResourceTotals)>
    decreases n,
{
    if n <= 0 {
        Seq::empty()
    } else {
        let front = sorted_rows(rows, order, upper, n - 1);
        front.insert(insertion_point(front, rows[n - 1], order, upper, 0), rows[n - 1])
    }
}

/// If `a` comes before `b` and `b` before `c`, then `a` comes before `c`;
/// and of two rows never each comes before the other.
pub proof fn lemma_ranks_before(
    ma: u64,
    la: Seq<char>,
    mb: u64,
    lb: Seq<char>,
    mc: u64,
    lc: Seq<char>,
)
    ensures
        ranks_before(ma, la, mb, lb) && ranks_before(mb, lb, mc, lc) ==> ranks_before(
            ma,
            la,
            mc,
            lc,
        ),
        !(ranks_before(ma, la, mb, lb) && ranks_before(mb, lb, ma, la)),
{
    lemma_lex_total(la, lb);
    if lex_lt(la, lb) && lex_lt(lb, lc) {
        lemma_lex_transitive(la, lb, lc);
    }
}

impl ResourceTotals {
    /// The number that the totals are sorted by and reported with.
    pub fn measure(&self, order: ResourceOrder, upper_bounds: bool) -> (r: u64)
        ensures
            r == measure(*self, order, upper_bounds),
    {
        match order {
            ResourceOrder::Cpu => if upper_bounds {
                self.base.requests.cpu.saturating_add(self.extra.requests.cpu)
            } else {
                self.base.requests.cpu
            },
            ResourceOrder::Memory => if upper_bounds {
                self.base.requests.memory.saturating_add(self.extra.requests.memory)
            } else {
                self.base.requests.memory
            },
        }
    }
}

/// Putting a row into a sequence adds it to what the sequence holds.
proof fn lemma_insert_to_multiset<A>(s: Seq<A>, p: int, e: A)
    requires
        0 <= p <= s.len(),
    ensures
        s.insert(p, e).to_multiset() == s.to_multiset().insert(e),
{
    broadcast use vstd::seq_lib::group_to_multiset_ensures;
    broadcast use vstd::multiset::group_multiset_axioms;

    let t = s.insert(p, e);
    assert(t.remove(p) =~= s);
    assert(t[p] == e);
    assert(t.remove(p).to_multiset() =~= t.to_multiset().remove(e));
    assert(t.contains(e));
    assert(t.to_multiset().count(e) > 0);
    assert(t.to_multiset() =~= t.to_multiset().remove(e).insert(e));
}

/// Sorts rows by their measure, the largest first; rows with the same
/// measure stand in dictionary order of their labels, and rows with the same
/// measure and label in the order in which they came.
pub fn sort_resources<T: Named>(
    entries: Vec<(T, ResourceTotals)>,
    order: ResourceOrder,
    upper_bounds: bool,
) -> (out: Vec<(T, ResourceTotals)>)
    ensures
        out@ == sorted_rows(entries@, order, upper_bounds, entries@.len() as int),
        out@.to_multiset() == entries@.to_multiset(),
        in_order(out@, order, upper_bounds),
{
    let ghost all = entries@;
    let mut out: Vec<(T, ResourceTotals)> = Vec::new();
    assert(all.take(0) =~= Seq::<(T, ResourceTotals)>::empty());
    for e in it: entries
        invariant
            it.seq() == all,
            out@ == sorted_rows(all, order, upper_bounds, it.index() as int),
            out@.to_multiset() == all.take(it.index() as int).to_multiset(),
            in_order(out@, order, upper_bounds),
    {
        let ghost i = it.index() as int;
        let m = e.1.measure(order, upper_bounds);
        let name = chars_of(e.0.label_text());
        let mut p: usize = 0;
        while p < out.len()
            invariant
                p <= out.len(),
                m == measure(e.1, order, upper_bounds),
                name@ == e.0.label(),
                insertion_point(out@, e, order, upper_bounds, 0) == insertion_point(
                    out@,
                    e,
                    order,
                    upper_bounds,
                    p as int,
                ),
                forall|j: int|
                    0 <= j < p ==> !row_before(e, #[trigger] out@[j], order, upper_bounds),
            ensures
                p < out.len() ==> row_before(e, out@[p as int], order, upper_bounds),
            decreases out.len() - p,
        {
            let other = out[p].1.measure(order, upper_bounds);
            if m > other {
                break ;
            }
            if m == other {
                let there = chars_of(out[p].0.label_text());
                match compare_chars(&name, &there) {
                    Rank::Before => {
                        break ;
                    },
                    _ => {
                        proof {
                            lemma_lex_irreflexive(name@);
                        }
                    },
                }
            }
            p += 1;
        }
        proof {
            let old_out = out@;
            let new_out = old_out.insert(p as int, e);
            lemma_insert_to_multiset(old_out, p as int, e);
            assert(all.take(i + 1) =~= all.take(i).push(e));
            broadcast use vstd::seq_lib::group_to_multiset_ensures;

            assert forall|a: int, b: int| 0 <= a < b < new_out.len() implies !row_before(
                #[trigger] new_out[b],
                #[trigger] new_out[a],
                order,
                upper_bounds,
            ) by {
                let xa = new_out[a];
                let xb = new_out[b];
                if a < p && b < p {
                    assert(xa == old_out[a] && xb == old_out[b]);
                } else if a < p && b == p {
                    assert(xa == old_out[a]);
                } else if a < p && b > p {
                    assert(xa == old_out[a] && xb == old_out[b - 1]);
                } else if a == p {
                    assert(xb == old_out[b - 1]);
                    assert(row_before(e, old_out[p as int], order, upper_bounds));
                    if b - 1 > p {
                        assert(!row_before(old_out[b - 1], old_out[p as int], order, upper_bounds));
                    }
                    lemma_ranks_before(
                        measure(xb.1, order, upper_bounds),
                        xb.0.label(),
                        measure(e.1, order, upper_bounds),
                        e.0.label(),
                        measure(old_out[p as int].1, order, upper_bounds),
                        old_out[p as int].0.label(),
                    );
                    lemma_ranks_before(
                        measure(e.1, order, upper_bounds),
                        e.0.label(),
                        measure(old_out[p as int].1, order, upper_bounds),
                        old_out[p as int].0.label(),
                        measure(e.1, order, upper_bounds),
                        e.0.label(),
                    );
                } else {
                    assert(xa == old_out[a - 1] && xb == old_out[b - 1]);
                }
            }
        }
        out.insert(p, e);
    }
    assert(all.take(all.len() as int) =~= all);
    out
}

} // verus!
