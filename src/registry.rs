use vstd::prelude::*;
use vstd::arithmetic::div_mod::lemma_div_multiples_vanish;
use crate::time::{conversion, lemma_convert_round_trip, rescale, TimeError, MINUTE_KIND, SECONDS_PER_MINUTE, SECOND_KIND};

verus! {

/// The ratio that `entries` gives `kind`: that of its last entry of that kind.
spec fn lookup(entries: Seq<(u64, u64)>, kind: u64) -> Option<u64>
    decreases entries.len(),
{
    if entries.len() == 0 {
        None
    } else if entries.last().0 == kind {
        Some(entries.last().1)
    } else {
        lookup(entries.drop_last(), kind)
    }
}

/// The outcome of declaring that one unit of `kind` lasts `factor` units of
/// `known`, over the table `table`: the table with the new unit, the table
/// unchanged where `kind` already has that very ratio, and an error where
/// `known` is not in the table, the ratio is zero or does not fit in `u64`,
/// or `kind` already has another ratio.
pub open spec fn registration(table: Map<u64, u64>, kind: u64, known: u64, factor: u64) -> Result<
    Map<u64, u64>,
    TimeError,
> {
    if !table.contains_key(known) || factor == 0 || factor * table[known] > u64::MAX {
        Err(TimeError::InvalidUnitRegistration)
    } else if table.contains_key(kind) && table[kind] != factor * table[known] {
        Err(TimeError::InvalidUnitRegistration)
    } else {
        Ok(table.insert(kind, (factor * table[known]) as u64))
    }
}

/// A unit registered as `factor` units of `known` converts into `known` as
/// exactly `factor` of them, and `factor` units of `known` convert back into
/// one of it.
pub proof fn lemma_registered_ratio(
    before: UnitRegistry,
    after: UnitRegistry,
    kind: u64,
    known: u64,
    factor: u64,
)
    requires
        before.wf(),
        registration(before@, kind, known, factor) == Ok::<Map<u64, u64>, TimeError>(after@),
        kind != known,
        factor <= i64::MAX,
    ensures
        conversion(1, kind, after.ratio(kind), known, after.ratio(known)) == Ok::<i64, TimeError>(
            factor as i64,
        ),
        conversion(factor as i64, known, after.ratio(known), kind, after.ratio(kind)) == Ok::<
            i64,
            TimeError,
        >(1),
{
    let b = before@[known];
    assert(after.ratio(kind) == Some((factor * b) as u64));
    assert(after.ratio(known) == Some(b));
    assert(factor * b > 0) by (nonlinear_arith)
        requires
            factor > 0,
            b > 0,
    ;
    lemma_div_multiples_vanish(factor as int, b as int);
    assert(1 * (factor * b) == b * factor) by (nonlinear_arith);
    assert((1 * (factor * b)) % (b as int) == 0) by (nonlinear_arith)
        requires
            b > 0,
            1 * (factor * b) == b * factor,
    ;
    lemma_convert_round_trip(1, kind, (factor * b) as u64, known, b);
}

/// A table of units, each with the number of seconds that one of it lasts.
/// Units are told apart by their kind; every ratio is derived from that of a
/// unit already in the table, starting from the second.
pub struct UnitRegistry {
    entries: Vec<(u64, u64)>,
}

impl View for UnitRegistry {
    type V = Map<u64, u64>;

    closed spec fn view(&self) -> Map<u64, u64> {
        Map::new(|k: u64| lookup(self.entries@, k) is Some, |k: u64| lookup(self.entries@, k)->0)
    }
}

impl UnitRegistry {
    /// Every unit in the table lasts a positive number of seconds.
    pub open spec fn wf(&self) -> bool {
        forall|k: u64| #[trigger] self@.contains_key(k) ==> self@[k] > 0
    }

    /// Seconds in one unit of `kind`, where the table has it.
    pub open spec fn ratio(&self, kind: u64) -> Option<u64> {
        if self@.contains_key(kind) {
            Some(self@[kind])
        } else {
            None
        }
    }

    proof fn lemma_push(&self, e: (u64, u64), s: Seq<(u64, u64)>)
        requires
            s == self.entries@.push(e),
        ensures
            Map::new(|k: u64| lookup(s, k) is Some, |k: u64| lookup(s, k)->0) == self@.insert(e.0, e.1),
    {
        assert(s.drop_last() =~= self.entries@);
        assert(Map::new(|k: u64| lookup(s, k) is Some, |k: u64| lookup(s, k)->0) =~= self@.insert(
            e.0,
            e.1,
        ));
    }

    /// A table that holds the second alone.
    pub fn new() -> (r: Self)
        ensures
            r.wf(),
            r@ == map![SECOND_KIND => 1u64],
    {
        let r = UnitRegistry { entries: Vec::new() };
        let ghost empty = r;
        assert(empty@ =~= Map::<u64, u64>::empty());
        let mut r = r;
        r.entries.push((SECOND_KIND, 1));
        proof {
            empty.lemma_push((SECOND_KIND, 1), r.entries@);
            assert(r@ =~= map![SECOND_KIND => 1u64]);
        }
        r
    }

    /// A table that holds the second and the minute.
    pub fn standard() -> (r: Self)
        ensures
            r.wf(),
            r@ == map![SECOND_KIND => 1u64, MINUTE_KIND => SECONDS_PER_MINUTE],
    {
        let mut r = UnitRegistry::new();
        let registered = r.register(MINUTE_KIND, SECOND_KIND, SECONDS_PER_MINUTE);
        proof {
            assert(registered is Ok);
            assert(r@ =~= map![SECOND_KIND => 1u64, MINUTE_KIND => SECONDS_PER_MINUTE]);
        }
        r
    }

    /// Seconds in one unit of `kind`, where the table has it.
    pub fn seconds_of(&self, kind: u64) -> (r: Option<u64>)
        requires
            self.wf(),
        ensures
            r == self.ratio(kind),
    {
        let mut i: usize = self.entries.len();
        assert(self.entries@.take(i as int) =~= self.entries@);
        while i > 0
            invariant
                i <= self.entries@.len(),
                lookup(self.entries@, kind) == lookup(self.entries@.take(i as int), kind),
            decreases i,
        {
            let e = self.entries[i - 1];
            assert(self.entries@.take(i as int).drop_last() =~= self.entries@.take(i - 1));
            if e.0 == kind {
                return Some(e.1);
            }
            i = i - 1;
        }
        assert(self.entries@.take(0) =~= Seq::<(u64, u64)>::empty());
        None
    }

    /// Declares that one unit of `kind` lasts `factor` units of `known`.
    /// The table is left unchanged where that fails.
    pub fn register(&mut self, kind: u64, known: u64, factor: u64) -> (r: Result<(), TimeError>)
        requires
            old(self).wf(),
        ensures
            final(self).wf(),
            match registration(old(self)@, kind, known, factor) {
                Ok(t) => r is Ok && final(self)@ == t,
                Err(e) => r == Err::<(), TimeError>(e) && final(self)@ == old(self)@,
            },
    {
        let base = match self.seconds_of(known) {
            Some(b) => b,
            None => return Err(TimeError::InvalidUnitRegistration),
        };
        if factor == 0 || factor > u64::MAX / base {
            proof {
                if factor > 0 {
                    assert(factor * base > u64::MAX) by (nonlinear_arith)
                        requires
                            factor > u64::MAX / base,
                            base > 0,
                    ;
                }
            }
            return Err(TimeError::InvalidUnitRegistration);
        }
        proof {
            assert(factor * base <= u64::MAX) by (nonlinear_arith)
                requires
                    factor <= u64::MAX / base,
                    base > 0,
            ;
            assert(factor * base > 0) by (nonlinear_arith)
                requires
                    factor > 0,
                    base > 0,
            ;
        }
        let seconds: u64 = factor * base;
        match self.seconds_of(kind) {
            Some(s) => {
                if s == seconds {
                    Ok(())
                } else {
                    Err(TimeError::InvalidUnitRegistration)
                }
            },
            None => {
                let ghost before = *self;
                self.entries.push((kind, seconds));
                proof {
                    before.lemma_push((kind, seconds), self.entries@);
                }
                Ok(())
            },
        }
    }

    /// Converts `value`, counted in units of `from`, into units of `to`.
    /// Between units of one kind the value comes back unchanged, whether or
    /// not the table has them.
    pub fn convert(&self, value: i64, from: u64, to: u64) -> (r: Result<i64, TimeError>)
        requires
            self.wf(),
        ensures
            r == conversion(value, from, self.ratio(from), to, self.ratio(to)),
    {
        if from == to {
            return Ok(value);
        }
        match (self.seconds_of(from), self.seconds_of(to)) {
            (Some(f), Some(t)) => rescale(value, f, t),
            _ => Err(TimeError::UnsupportedConversion),
        }
    }
}

} // verus!
