//! Cost calculator: simulates time and price accumulation across
//! per-minute rate windows and optional prepaid packages, and selects
//! the cheapest covering of a trip.

use vstd::prelude::*;
use crate::model::{
    parts_view, rate_covered, BreakdownPart, CalculationResult, CarCategory, CategorySet, Package,
    PackageV, PartV, RateWindow, ResultV, Tariff, TripRequest, KM_SCALE, MINUTES_PER_DAY,
    MONEY_LIMIT, PACKAGE_DURATION_LIMIT, TRIP_LIMIT,
};
use crate::text::clone_chars;
use vstd::arithmetic::div_mod::{lemma_mod_bound, lemma_mod_decreases};
use vstd::arithmetic::mul::{lemma_mul_by_zero_is_zero, lemma_mul_inequality, lemma_mul_upper_bound};

verus! {

/// Minute-of-day of an instant counted in minutes from the epoch.
pub open spec fn spec_time_of_day(t: nat) -> nat {
    t % (MINUTES_PER_DAY as nat)
}

/// The instant at which charging inside window `w` ends when the cursor
/// stands at `cursor`: the window's end on the cursor's calendar day if
/// that is still ahead, else the window's end on the next day.
pub open spec fn spec_next_boundary(w: RateWindow, cursor: nat) -> nat {
    let day_start = (cursor - spec_time_of_day(cursor)) as nat;
    let same_day = (day_start + w.end_min) as nat;
    if cursor < same_day {
        same_day
    } else {
        (same_day + MINUTES_PER_DAY) as nat
    }
}

/// The boundary lies strictly ahead of the cursor, so the simulated
/// clock always advances.
pub proof fn lemma_next_boundary_advances(w: RateWindow, cursor: nat)
    ensures
        spec_next_boundary(w, cursor) > cursor,
{
    lemma_mod_bound(cursor as int, MINUTES_PER_DAY as int);
    lemma_mod_decreases(cursor, MINUTES_PER_DAY as nat);
}

/// Index of the first window of `rates` containing minute-of-day `tod`.
pub open spec fn spec_find_rate(rates: Seq<RateWindow>, tod: nat) -> Option<int>
    decreases rates.len(),
{
    if rates.len() == 0 {
        None
    } else if rates[0].spec_contains(tod) {
        Some(0int)
    } else {
        match spec_find_rate(rates.drop_first(), tod) {
            None => None,
            Some(i) => Some(i + 1),
        }
    }
}

/// What `spec_find_rate` finds is a containing window, and it is the
/// first one.
pub proof fn lemma_find_rate_some(rates: Seq<RateWindow>, tod: nat)
    requires
        spec_find_rate(rates, tod) is Some,
    ensures
        0 <= spec_find_rate(rates, tod)->Some_0 < rates.len(),
        rates[spec_find_rate(rates, tod)->Some_0].spec_contains(tod),
    decreases rates.len(),
{
    if rates.len() > 0 && !rates[0].spec_contains(tod) {
        lemma_find_rate_some(rates.drop_first(), tod);
    }
}

/// If the first `upto` windows miss `tod` and window `upto` contains it,
/// the search returns exactly `upto`.
pub proof fn lemma_find_rate_first(rates: Seq<RateWindow>, tod: nat, upto: int)
    requires
        0 <= upto < rates.len(),
        rates[upto].spec_contains(tod),
        forall|j: int| 0 <= j < upto ==> !(#[trigger] rates[j]).spec_contains(tod),
    ensures
        spec_find_rate(rates, tod) == Some(upto),
    decreases upto,
{
    if upto > 0 {
        assert(forall|j: int|
            0 <= j < upto - 1 ==> !(#[trigger] rates.drop_first()[j]).spec_contains(tod));
        lemma_find_rate_first(rates.drop_first(), tod, upto - 1);
    }
}

/// Price and breakdown of walking the per-minute rate windows from
/// `cursor` to `end`: each step charges the minutes up to the current
/// window's next boundary (or the trip end) at the window's rate.  The
/// price is in money units; the caller scales it.
pub open spec fn spec_consume(rates: Seq<RateWindow>, cursor: nat, end: nat) -> (int, Seq<PartV>)
    decreases end - cursor,
        via spec_consume_decreases
{
    if cursor >= end {
        (0int, Seq::<PartV>::empty())
    } else {
        match spec_find_rate(rates, spec_time_of_day(cursor)) {
            None => (0int, Seq::<PartV>::empty()),
            Some(i) => {
                let w = rates[i];
                let boundary = spec_next_boundary(w, cursor);
                let next = if boundary < end {
                    boundary
                } else {
                    end
                };
                let rest = spec_consume(rates, next, end);
                (
                    (next - cursor) * w.price_per_minute + rest.0,
                    seq![PartV::RateSegment { start_min: w.start_min, end_min: w.end_min }]
                        + rest.1,
                )
            },
        }
    }
}

#[via_fn]
proof fn spec_consume_decreases(rates: Seq<RateWindow>, cursor: nat, end: nat) {
    if cursor < end {
        if spec_find_rate(rates, spec_time_of_day(cursor)) is Some {
            let i = spec_find_rate(rates, spec_time_of_day(cursor))->Some_0;
            lemma_find_rate_some(rates, spec_time_of_day(cursor));
            lemma_next_boundary_advances(rates[i], cursor);
        }
    }
}

/// The walk never charges a negative price.
pub proof fn lemma_consume_nonneg(rates: Seq<RateWindow>, cursor: nat, end: nat)
    ensures
        spec_consume(rates, cursor, end).0 >= 0,
    decreases end - cursor,
{
    if cursor < end {
        match spec_find_rate(rates, spec_time_of_day(cursor)) {
            None => {},
            Some(i) => {
                let w = rates[i];
                lemma_find_rate_some(rates, spec_time_of_day(cursor));
                lemma_next_boundary_advances(w, cursor);
                let boundary = spec_next_boundary(w, cursor);
                let next: nat = if boundary < end { boundary } else { end };
                lemma_consume_nonneg(rates, next, end);
                lemma_mul_inequality(0, (next - cursor) as int, w.price_per_minute as int);
            },
        }
    }
}

/// The walk charges at most `MONEY_LIMIT` per remaining minute.
pub proof fn lemma_consume_bound(rates: Seq<RateWindow>, cursor: nat, end: nat)
    requires
        forall|i: int| 0 <= i < rates.len() ==> (#[trigger] rates[i]).wf(),
    ensures
        spec_consume(rates, cursor, end).0 <= (if cursor < end {
            (end - cursor) * MONEY_LIMIT
        } else {
            0int
        }),
    decreases end - cursor,
{
    if cursor < end {
        match spec_find_rate(rates, spec_time_of_day(cursor)) {
            None => {
                lemma_mul_inequality(0, (end - cursor) as int, MONEY_LIMIT as int);
            },
            Some(i) => {
                let w = rates[i];
                lemma_find_rate_some(rates, spec_time_of_day(cursor));
                lemma_next_boundary_advances(w, cursor);
                let boundary = spec_next_boundary(w, cursor);
                let next: nat = if boundary < end { boundary } else { end };
                lemma_consume_bound(rates, next, end);
                lemma_mul_upper_bound(
                    (next - cursor) as int,
                    (next - cursor) as int,
                    w.price_per_minute as int,
                    MONEY_LIMIT as int,
                );
                lemma_mul_inequality((next - cursor) as int, (end - cursor) as int, MONEY_LIMIT as int);
                if next < end {
                    lemma_mul_inequality(0, (end - next) as int, MONEY_LIMIT as int);
                    assert((next - cursor) * MONEY_LIMIT + (end - next) * MONEY_LIMIT
                        == (end - cursor) * MONEY_LIMIT) by (nonlinear_arith);
                }
            },
        }
    }
}

/// Distance still to pay for after a package's allowance, floored at
/// zero.
pub open spec fn spec_remaining_km(distance: u64, pkg: Option<PackageV>) -> int {
    match pkg {
        None => distance as int,
        Some(p) => if distance >= p.included_km {
            distance - p.included_km
        } else {
            0int
        },
    }
}

/// Where the per-minute walk starts: the trip begin, pushed forward by
/// the package's duration if one is chosen.
pub open spec fn spec_loop_start(begin: u64, pkg: Option<PackageV>) -> nat {
    match pkg {
        None => begin as nat,
        Some(p) => (begin + p.duration_min) as nat,
    }
}

/// The package's flat price in price units, if one is chosen.
pub open spec fn spec_package_price(pkg: Option<PackageV>) -> int {
    match pkg {
        None => 0int,
        Some(p) => p.price * KM_SCALE,
    }
}

/// The breakdown entries written before any time is consumed.
pub open spec fn spec_prefix_parts(cat: CarCategory, pkg: Option<PackageV>) -> Seq<PartV> {
    match pkg {
        None => seq![PartV::Category { category: cat }],
        Some(p) => seq![
            PartV::Category { category: cat },
            PartV::PackageUsed { name: p.name },
        ],
    }
}

/// The view of an optional borrowed package.
pub open spec fn spec_pkg_opt(pkg: Option<&Package>) -> Option<PackageV> {
    match pkg {
        None => None,
        Some(p) => Some(p@),
    }
}

/// First index of `rates` whose window contains minute-of-day `tod`.
#[verifier::loop_isolation(false)]
fn find_rate_index(rates: &Vec<RateWindow>, tod: u16) -> (idx: usize)
    requires
        rate_covered(rates@, tod as nat),
    ensures
        spec_find_rate(rates@, tod as nat) == Some(idx as int),
        idx < rates@.len(),
        rates@[idx as int].spec_contains(tod as nat),
{
    let mut i: usize = 0;
    while i < rates.len()
        invariant
            i <= rates@.len(),
            forall|j: int| 0 <= j < i ==> !(#[trigger] rates@[j]).spec_contains(tod as nat),
        decreases rates@.len() - i,
    {
        if rates[i].contains_time(tod) {
            proof {
                lemma_find_rate_first(rates@, tod as nat, i as int);
            }
            return i;
        }
        i = i + 1;
    }
    proof {
        assert(false);
    }
    unreached()
}

/// Exact cost of covering the trip with one package option (or none):
/// the package's flat price, plus every minute between the cursor and
/// the trip end at the matching window's rate, plus the uncovered
/// distance at the tier's per-kilometre price.
pub open spec fn spec_calculate_for_package(
    tariff: Tariff,
    cat: CarCategory,
    pkg: Option<PackageV>,
    trip: TripRequest,
) -> ResultV {
    let consumed = spec_consume(
        tariff.spec_car(cat).rates@,
        spec_loop_start(trip.begin_min, pkg),
        trip.end_min as nat,
    );
    let rem = spec_remaining_km(trip.distance, pkg);
    ResultV {
        price: spec_package_price(pkg) + consumed.0 * KM_SCALE + rem * tariff.per_km_price,
        parts: spec_prefix_parts(cat, pkg) + consumed.1 + (if rem > 0 {
            seq![PartV::ExtraDistance]
        } else {
            Seq::<PartV>::empty()
        }),
    }
}

/// The cheapest of a non-empty sequence of results, where earlier
/// entries win ties: the fold keeps the current best unless a later
/// candidate is strictly cheaper.
pub open spec fn spec_best(s: Seq<ResultV>) -> ResultV
    recommends
        s.len() > 0,
    decreases s.len(),
{
    if s.len() <= 1 {
        s[0]
    } else {
        let prev = spec_best(s.drop_last());
        if prev.price <= s.last().price {
            prev
        } else {
            s.last()
        }
    }
}

/// The best of a non-empty candidate sequence is one of the
/// candidates, and no candidate is cheaper.
pub proof fn lemma_best_member_min(s: Seq<ResultV>)
    requires
        s.len() > 0,
    ensures
        exists|i: int| 0 <= i < s.len() && spec_best(s) == s[i],
        forall|i: int| 0 <= i < s.len() ==> spec_best(s).price <= (#[trigger] s[i]).price,
    decreases s.len(),
{
    if s.len() <= 1 {
        assert(spec_best(s) == s[0]);
    } else {
        lemma_best_member_min(s.drop_last());
        let prev = spec_best(s.drop_last());
        let j = choose|j: int| 0 <= j < s.drop_last().len() && prev == s.drop_last()[j];
        assert(prev == s[j]);
        if prev.price <= s.last().price {
            assert(spec_best(s) == s[j]);
        } else {
            assert(spec_best(s) == s[s.len() - 1]);
        }
        assert forall|i: int| 0 <= i < s.len() implies spec_best(s).price <= (
        #[trigger] s[i]).price by {
            if i < s.len() - 1 {
                assert(prev.price <= s.drop_last()[i].price);
            }
        }
    }
}

/// `spec_best` over one more candidate keeps the earlier best unless
/// the candidate is strictly cheaper.
pub proof fn lemma_best_push(s: Seq<ResultV>, x: ResultV)
    ensures
        spec_best(s.push(x)) == (if s.len() == 0 {
            x
        } else if spec_best(s).price <= x.price {
            spec_best(s)
        } else {
            x
        }),
{
    assert(s.push(x).drop_last() =~= s);
    assert(s.push(x).last() == x);
}

/// The package options enumerated for a category: each package in
/// table order, then "no package" last.
pub open spec fn spec_package_options(packages: Seq<Package>) -> Seq<Option<PackageV>> {
    packages.map(|i: int, p: Package| Some(p@)).push(None)
}

/// Cost of the trip for one car category: the cheapest package option,
/// earlier options winning ties.
pub open spec fn spec_calculate_for_car(tariff: Tariff, cat: CarCategory, trip: TripRequest) -> ResultV {
    spec_best(
        spec_package_options(tariff.spec_car(cat).packages@).map(
            |i: int, pkg: Option<PackageV>| spec_calculate_for_package(tariff, cat, pkg, trip),
        ),
    )
}

/// The eligible categories in canonical order.
pub open spec fn spec_eligible(cats: CategorySet) -> Seq<CarCategory> {
    (if cats.legend {
        seq![CarCategory::Legend]
    } else {
        Seq::<CarCategory>::empty()
    }) + (if cats.fancy {
        seq![CarCategory::Fancy]
    } else {
        Seq::<CarCategory>::empty()
    }) + (if cats.boss {
        seq![CarCategory::Boss]
    } else {
        Seq::<CarCategory>::empty()
    })
}

/// Cost of the trip over a non-empty set of eligible categories: the
/// cheapest per-category result, the canonically first category
/// winning ties.
pub open spec fn spec_calculate(tariff: Tariff, cats: CategorySet, trip: TripRequest) -> ResultV {
    spec_best(
        spec_eligible(cats).map(|i: int, c: CarCategory| spec_calculate_for_car(tariff, c, trip)),
    )
}

impl Tariff {
    /// Price the trip for one car category under one package option
    /// (`None` means pure per-minute pricing).  The result is exactly
    /// the package's flat price, plus every minute from the cursor
    /// (trip begin, pushed forward by the package duration) to the trip
    /// end at the containing window's per-minute rate, plus any
    /// distance beyond the package allowance at the per-kilometre
    /// price.  The package's time restriction, if any, is deliberately
    /// not enforced, mirroring the service's current behaviour.
    #[verifier::loop_isolation(false)]
    #[verifier::rlimit(60)]
    pub fn calculate_for_package(
        &self,
        cat: CarCategory,
        pkg: Option<&Package>,
        trip: TripRequest,
    ) -> (r: CalculationResult)
        requires
            self.wf(),
            trip.valid(),
            pkg matches Some(p) ==> p@.wf(),
        ensures
            r@ == spec_calculate_for_package(*self, cat, spec_pkg_opt(pkg), trip),
    {
        let ghost pkgv = spec_pkg_opt(pkg);
        let mut cursor: u64 = trip.begin_min;
        let mut remaining: u64 = trip.distance;
        let mut price: u128 = 0;
        let mut parts: Vec<BreakdownPart> = Vec::new();
        parts.push(BreakdownPart::Category { category: cat });
        if let Some(p) = pkg {
            cursor = cursor + p.duration_min;
            remaining = if remaining >= p.included_km {
                remaining - p.included_km
            } else {
                0
            };
            proof {
                lemma_mul_upper_bound(
                    p.price as int,
                    MONEY_LIMIT as int,
                    KM_SCALE as int,
                    KM_SCALE as int,
                );
            }
            price = (p.price as u128) * (KM_SCALE as u128);
            parts.push(BreakdownPart::PackageUsed { name: clone_chars(&p.name) });
        }
        let ghost rates_seq = self.spec_car(cat).rates@;
        let ghost end_nat = trip.end_min as nat;
        let ghost total = spec_consume(rates_seq, cursor as nat, end_nat);
        let ghost base_price = price as int;
        proof {
            assert(parts_view(parts@) =~= spec_prefix_parts(cat, pkgv));
            assert(cursor as nat == spec_loop_start(trip.begin_min, pkgv));
            assert(base_price == spec_package_price(pkgv));
            assert(remaining as int == spec_remaining_km(trip.distance, pkgv));
            assert(self.spec_car(cat).wf());
            lemma_consume_bound(rates_seq, cursor as nat, end_nat);
            if (cursor as nat) < end_nat {
                lemma_mul_inequality(
                    end_nat - cursor as nat,
                    TRIP_LIMIT as int,
                    MONEY_LIMIT as int,
                );
            }
        }
        while cursor < trip.end_min
            invariant
                cursor <= TRIP_LIMIT + PACKAGE_DURATION_LIMIT,
                base_price + total.0 * KM_SCALE == price as int + spec_consume(
                    rates_seq,
                    cursor as nat,
                    end_nat,
                ).0 * KM_SCALE,
                spec_prefix_parts(cat, pkgv) + total.1 == parts_view(parts@) + spec_consume(
                    rates_seq,
                    cursor as nat,
                    end_nat,
                ).1,
            decreases trip.end_min - cursor,
        {
            let ghost pre_consume = spec_consume(rates_seq, cursor as nat, end_nat);
            let tod64: u64 = cursor % MINUTES_PER_DAY;
            proof {
                lemma_mod_bound(cursor as int, MINUTES_PER_DAY as int);
                lemma_mod_decreases(cursor as nat, MINUTES_PER_DAY as nat);
            }
            let tod: u16 = tod64 as u16;
            let car = self.car(cat);
            proof {
                assert(rate_covered(rates_seq, tod as nat));
            }
            let idx = find_rate_index(&car.rates, tod);
            let w = car.rates[idx];
            let day_start = cursor - tod64;
            let same_day = day_start + (w.end_min as u64);
            let boundary = if cursor < same_day {
                same_day
            } else {
                same_day + MINUTES_PER_DAY
            };
            let next = if boundary < trip.end_min {
                boundary
            } else {
                trip.end_min
            };
            proof {
                assert(boundary as nat == spec_next_boundary(w, cursor as nat));
                lemma_next_boundary_advances(w, cursor as nat);
            }
            let minutes = next - cursor;
            let ghost post_consume = spec_consume(rates_seq, next as nat, end_nat);
            proof {
                assert(pre_consume.0 == minutes * w.price_per_minute + post_consume.0);
                assert(pre_consume.1 == seq![
                    PartV::RateSegment { start_min: w.start_min, end_min: w.end_min },
                ] + post_consume.1);
                lemma_consume_nonneg(rates_seq, cursor as nat, end_nat);
                lemma_consume_nonneg(rates_seq, next as nat, end_nat);
                lemma_mul_upper_bound(
                    minutes as int,
                    TRIP_LIMIT as int,
                    w.price_per_minute as int,
                    MONEY_LIMIT as int,
                );
            }
            price = price + (minutes as u128) * (w.price_per_minute as u128) * (KM_SCALE as u128);
            parts.push(BreakdownPart::RateSegment { start_min: w.start_min, end_min: w.end_min });
            cursor = next;
            proof {
                assert(spec_prefix_parts(cat, pkgv) + total.1 =~= parts_view(parts@)
                    + post_consume.1);
            }
        }
        let ghost after_loop_price = price as int;
        proof {
            assert(after_loop_price == base_price + total.0 * KM_SCALE);
            assert(remaining as int == spec_remaining_km(trip.distance, pkgv));
            lemma_mul_upper_bound(
                remaining as int,
                TRIP_LIMIT as int,
                self.per_km_price as int,
                MONEY_LIMIT as int,
            );
        }
        if remaining > 0 {
            price = price + (remaining as u128) * (self.per_km_price as u128);
            parts.push(BreakdownPart::ExtraDistance);
            proof {
                assert(price as int == after_loop_price + spec_remaining_km(trip.distance, pkgv)
                    * self.per_km_price);
            }
        } else {
            proof {
                lemma_mul_by_zero_is_zero(self.per_km_price as int);
                assert(spec_remaining_km(trip.distance, pkgv) == 0);
                assert(price as int == after_loop_price + spec_remaining_km(trip.distance, pkgv)
                    * self.per_km_price);
            }
        }
        let r = CalculationResult { price, parts };
        proof {
            let spec_r = spec_calculate_for_package(*self, cat, pkgv, trip);
            assert(r@.price == spec_r.price);
            assert(r@.parts =~= spec_r.parts);
        }
        r
    }

    /// Price the trip for one car category: every package of the
    /// category is tried, in table order, then plain per-minute
    /// pricing; the cheapest result wins, earlier options winning
    /// ties.
    #[verifier::loop_isolation(false)]
    pub fn calculate_for_car(&self, cat: CarCategory, trip: TripRequest) -> (r: CalculationResult)
        requires
            self.wf(),
            trip.valid(),
        ensures
            r@ == spec_calculate_for_car(*self, cat, trip),
    {
        let ghost options = spec_package_options(self.spec_car(cat).packages@);
        let ghost results = options.map(
            |i: int, pkg: Option<PackageV>| spec_calculate_for_package(*self, cat, pkg, trip),
        );
        let car = self.car(cat);
        let n = car.packages.len();
        if n == 0 {
            let r = self.calculate_for_package(cat, None, trip);
            proof {
                assert(results =~= seq![r@]);
            }
            return r;
        }
        let mut best = self.calculate_for_package(cat, Some(&car.packages[0]), trip);
        proof {
            assert(best@ == spec_best(results.take(1)));
        }
        let mut j: usize = 1;
        while j < n
            invariant
                1 <= j <= n,
                best@ == spec_best(results.take(j as int)),
            decreases n - j,
        {
            let cand = self.calculate_for_package(cat, Some(&car.packages[j]), trip);
            proof {
                assert(results.take(j as int).push(results[j as int]) =~= results.take(
                    j as int + 1,
                ));
                lemma_best_push(results.take(j as int), results[j as int]);
            }
            if cand.price < best.price {
                best = cand;
            }
            j = j + 1;
        }
        let cand = self.calculate_for_package(cat, None, trip);
        proof {
            assert(results.take(n as int).push(results[n as int]) =~= results);
            lemma_best_push(results.take(n as int), results[n as int]);
        }
        if cand.price < best.price {
            best = cand;
        }
        best
    }

    /// Price the trip over the eligible categories, which must not be
    /// empty: the cheapest per-category result wins, the canonically
    /// first category winning ties.
    pub fn calculate(&self, cats: CategorySet, trip: TripRequest) -> (r: CalculationResult)
        requires
            self.wf(),
            trip.valid(),
            cats.spec_non_empty(),
        ensures
            r@ == spec_calculate(*self, cats, trip),
    {
        let ghost results = spec_eligible(cats).map(
            |i: int, c: CarCategory| spec_calculate_for_car(*self, c, trip),
        );
        let mut best: Option<CalculationResult> = None;
        let ghost mut done: Seq<CarCategory> = Seq::empty();
        if cats.legend {
            best = Some(self.calculate_for_car(CarCategory::Legend, trip));
            proof {
                done = done.push(CarCategory::Legend);
            }
        }
        if cats.fancy {
            let cand = self.calculate_for_car(CarCategory::Fancy, trip);
            proof {
                lemma_best_push(
                    done.map(|i: int, c: CarCategory| spec_calculate_for_car(*self, c, trip)),
                    cand@,
                );
                assert(done.map(
                    |i: int, c: CarCategory| spec_calculate_for_car(*self, c, trip),
                ).push(cand@) =~= done.push(CarCategory::Fancy).map(
                    |i: int, c: CarCategory| spec_calculate_for_car(*self, c, trip),
                ));
                done = done.push(CarCategory::Fancy);
            }
            best = match best {
                None => Some(cand),
                Some(b) => if cand.price < b.price {
                    Some(cand)
                } else {
                    Some(b)
                },
            };
        }
        if cats.boss {
            let cand = self.calculate_for_car(CarCategory::Boss, trip);
            proof {
                lemma_best_push(
                    done.map(|i: int, c: CarCategory| spec_calculate_for_car(*self, c, trip)),
                    cand@,
                );
                assert(done.map(
                    |i: int, c: CarCategory| spec_calculate_for_car(*self, c, trip),
                ).push(cand@) =~= done.push(CarCategory::Boss).map(
                    |i: int, c: CarCategory| spec_calculate_for_car(*self, c, trip),
                ));
                done = done.push(CarCategory::Boss);
            }
            best = match best {
                None => Some(cand),
                Some(b) => if cand.price < b.price {
                    Some(cand)
                } else {
                    Some(b)
                },
            };
        }
        proof {
            assert(done =~= spec_eligible(cats));
            assert(done.map(|i: int, c: CarCategory| spec_calculate_for_car(*self, c, trip))
                =~= results);
        }
        match best {
            Some(b) => b,
            None => unreached(),
        }
    }
}

} // verus!
