//! Turning a raw spot price into the price a household actually pays:
//! energy (spot softened by the strømstøtte refund, or the fixed Norgespris)
//! plus the grid rent's energy rate, electricity tax, and VAT on the lot.
//!
//! Money is µNOK/kWh ex-VAT; `vat_rate` and `subsidy_rate` are parts per
//! million. Results round down to the micro-krone.

use vstd::prelude::*;

use crate::time::{night_or_weekend, oslo_clock, spec_night_or_weekend};
use crate::units::{floor_div, valid_time, MAX_SPOT, MICROS};

verus! {

/// Which deal prices the energy itself.
#[derive(Debug, Clone, Copy, PartialEq, Eq, Structural)]
pub enum EnergyModel {
    /// Hourly spot price, softened by the strømstøtte refund above a threshold.
    Spot,
    /// Norgespris: a fixed price per kWh regardless of the spot market.
    Norgespris,
}

/// Components of the electricity price beyond the market.
#[derive(Debug, Clone, Copy, PartialEq, Eq, Structural)]
pub struct Tariff {
    pub energy_model: EnergyModel,
    /// The Norgespris fixed energy price, µNOK/kWh ex-VAT.
    pub norgespris_nok_per_kwh: i64,
    /// Grid-rent energy rate on weekdays 06:00–22:00 Oslo, µNOK/kWh ex-VAT.
    pub grid_energy_day_nok_per_kwh: i64,
    /// Grid-rent energy rate at night (22:00–06:00) and on weekends.
    pub grid_energy_night_nok_per_kwh: i64,
    /// Electricity tax, µNOK/kWh ex-VAT.
    pub electricity_tax_nok_per_kwh: i64,
    /// VAT as parts per million (250 000 is 25 %).
    pub vat_rate: i64,
    /// Spot price (ex-VAT) above which strømstøtte refunds, µNOK/kWh.
    pub subsidy_threshold_nok_per_kwh: i64,
    /// Part per million of the spot price above the threshold that is refunded.
    pub subsidy_rate: i64,
}

pub open spec fn valid_component(x: int) -> bool {
    -MAX_SPOT <= x <= MAX_SPOT
}

/// A raw spot price the effective-price transform accepts.
pub open spec fn valid_spot(x: int) -> bool {
    valid_component(x)
}

impl Tariff {
    /// The ranges within which the effective price is computed exactly: each
    /// money component within `MAX_SPOT`, the threshold no lower than
    /// `-MAX_SPOT` (any height, so "never refund" is `i64::MAX`), and both
    /// rates fractions between 0 and 1.
    pub open spec fn wf(self) -> bool {
        &&& valid_component(self.norgespris_nok_per_kwh as int)
        &&& valid_component(self.grid_energy_day_nok_per_kwh as int)
        &&& valid_component(self.grid_energy_night_nok_per_kwh as int)
        &&& valid_component(self.electricity_tax_nok_per_kwh as int)
        &&& -MAX_SPOT <= self.subsidy_threshold_nok_per_kwh
        &&& 0 <= self.vat_rate <= MICROS
        &&& 0 <= self.subsidy_rate <= MICROS
    }

    /// The strømstøtte refund for a raw spot price: zero at or below the
    /// threshold, `rate × (spot − threshold)` above it.
    pub open spec fn spec_subsidy(self, spot: int) -> int {
        let over = spot - self.subsidy_threshold_nok_per_kwh;
        if over > 0 {
            floor_div(over * self.subsidy_rate, MICROS as int)
        } else {
            0
        }
    }

    /// The grid-rent energy rate for a given night/weekend flag.
    pub open spec fn spec_grid_rate(self, night: bool) -> int {
        if night {
            self.grid_energy_night_nok_per_kwh as int
        } else {
            self.grid_energy_day_nok_per_kwh as int
        }
    }

    /// The price of the energy itself under the tariff's energy model.
    pub open spec fn spec_energy(self, spot: int) -> int {
        match self.energy_model {
            EnergyModel::Spot => spot - self.spec_subsidy(spot),
            EnergyModel::Norgespris => self.norgespris_nok_per_kwh as int,
        }
    }

    /// The all-in price for a spot price, given whether the hour is in the
    /// cheap grid-rate period.
    pub open spec fn spec_effective(self, spot: int, night: bool) -> int {
        let ex_vat = self.spec_energy(spot) + self.spec_grid_rate(night)
            + self.electricity_tax_nok_per_kwh;
        floor_div(ex_vat * (MICROS + self.vat_rate), MICROS as int)
    }

    /// The all-in price for one kWh in the hour starting at `at`.
    pub open spec fn spec_effective_at(self, spot: int, at: i64) -> int {
        self.spec_effective(spot, spec_night_or_weekend(oslo_clock(at)))
    }

    /// A pass-through tariff: the effective price equals raw spot.
    pub fn raw_spot() -> (t: Tariff)
        ensures
            t == raw_spot_tariff(),
            t.wf(),
            t.energy_model == EnergyModel::Spot,
            t.norgespris_nok_per_kwh == 0,
            t.grid_energy_day_nok_per_kwh == 0,
            t.grid_energy_night_nok_per_kwh == 0,
            t.electricity_tax_nok_per_kwh == 0,
            t.vat_rate == 0,
            t.subsidy_threshold_nok_per_kwh == i64::MAX,
            t.subsidy_rate == 0,
    {
        Tariff {
            energy_model: EnergyModel::Spot,
            norgespris_nok_per_kwh: 0,
            grid_energy_day_nok_per_kwh: 0,
            grid_energy_night_nok_per_kwh: 0,
            electricity_tax_nok_per_kwh: 0,
            vat_rate: 0,
            subsidy_threshold_nok_per_kwh: i64::MAX,
            subsidy_rate: 0,
        }
    }

    /// The strømstøtte refund applied to a raw spot price (µNOK/kWh ex-VAT).
    pub fn subsidy(&self, spot_nok_per_kwh: i64) -> (s: i64)
        requires
            self.wf(),
            valid_spot(spot_nok_per_kwh as int),
        ensures
            s == self.spec_subsidy(spot_nok_per_kwh as int),
            0 <= s,
            s > 0 ==> s <= spot_nok_per_kwh - self.subsidy_threshold_nok_per_kwh,
    {
        let over: i128 = spot_nok_per_kwh as i128 - self.subsidy_threshold_nok_per_kwh as i128;
        if over > 0 {
            proof {
                lemma_refund_within(over as int, self.subsidy_rate as int);
            }
            let q = crate::units::div_floor(over * self.subsidy_rate as i128, MICROS as i128);
            q as i64
        } else {
            0
        }
    }

    /// The grid-rent energy rate in force at `at` (µNOK/kWh ex-VAT).
    pub fn grid_energy_at(&self, at: i64) -> (g: i64)
        requires
            valid_time(at as int),
        ensures
            g == self.spec_grid_rate(spec_night_or_weekend(oslo_clock(at))),
    {
        if night_or_weekend(at) {
            self.grid_energy_night_nok_per_kwh
        } else {
            self.grid_energy_day_nok_per_kwh
        }
    }

    /// The all-in price the customer pays for one kWh consumed in the hour
    /// starting at `at`, given that hour's raw spot price (ex-VAT), rounded
    /// down to the micro-krone.
    pub fn effective_at(&self, spot_nok_per_kwh: i64, at: i64) -> (e: i64)
        requires
            self.wf(),
            valid_spot(spot_nok_per_kwh as int),
            valid_time(at as int),
        ensures
            e == self.spec_effective_at(spot_nok_per_kwh as int, at),
            -6 * MAX_SPOT <= e <= 6 * MAX_SPOT,
    {
        let energy: i64 = match self.energy_model {
            EnergyModel::Spot => spot_nok_per_kwh - self.subsidy(spot_nok_per_kwh),
            EnergyModel::Norgespris => self.norgespris_nok_per_kwh,
        };
        proof {
            if self.energy_model == EnergyModel::Spot {
                let s = self.spec_subsidy(spot_nok_per_kwh as int);
                assert(s > 0 ==> -MAX_SPOT <= energy);
            }
        }
        let ex_vat: i128 = energy as i128 + self.grid_energy_at(at) as i128
            + self.electricity_tax_nok_per_kwh as i128;
        let scale: i128 = MICROS as i128 + self.vat_rate as i128;
        proof {
            lemma_scaled_bounds(ex_vat as int, scale as int);
        }
        let e = crate::units::div_floor(ex_vat * scale, MICROS as i128);
        e as i64
    }
}

/// The tariff assumed when none is configured: spot with strømstøtte, the
/// grid and tax rates of 2026, and 25 % VAT.
/// Spot pricing unless configured otherwise.
pub fn d_model() -> (m: EnergyModel)
    ensures
        m == EnergyModel::Spot,
{
    EnergyModel::Spot
}

/// Norgespris, 0.40 kr/kWh ex-VAT (the advertised 0.50 with VAT).
pub fn d_norgespris() -> (v: i64)
    ensures
        v == 400_000,
{
    400_000
}

/// Grid-rent energy rate in the day, 0.40 kr/kWh ex-VAT.
pub fn d_grid_day() -> (v: i64)
    ensures
        v == 400_000,
{
    400_000
}

/// Grid-rent energy rate at night and on weekends, 0.32 kr/kWh ex-VAT.
pub fn d_grid_night() -> (v: i64)
    ensures
        v == 320_000,
{
    320_000
}

/// Electricity tax for 2026, 0.0713 kr/kWh ex-VAT.
pub fn d_elavgift() -> (v: i64)
    ensures
        v == 71_300,
{
    71_300
}

/// VAT, 25 %.
pub fn d_vat() -> (v: i64)
    ensures
        v == 250_000,
{
    250_000
}

/// Strømstøtte threshold for 2026, 0.77 kr/kWh ex-VAT.
pub fn d_subsidy_threshold() -> (v: i64)
    ensures
        v == 770_000,
{
    770_000
}

/// Strømstøtte refunds 90 % above the threshold.
pub fn d_subsidy_rate() -> (v: i64)
    ensures
        v == 900_000,
{
    900_000
}

impl Default for Tariff {
    fn default() -> (t: Tariff)
        ensures
            t.wf(),
            t.energy_model == EnergyModel::Spot,
            t.norgespris_nok_per_kwh == 400_000,
            t.grid_energy_day_nok_per_kwh == 400_000,
            t.grid_energy_night_nok_per_kwh == 320_000,
            t.electricity_tax_nok_per_kwh == 71_300,
            t.vat_rate == 250_000,
            t.subsidy_threshold_nok_per_kwh == 770_000,
            t.subsidy_rate == 900_000,
    {
        Tariff {
            energy_model: d_model(),
            norgespris_nok_per_kwh: d_norgespris(),
            grid_energy_day_nok_per_kwh: d_grid_day(),
            grid_energy_night_nok_per_kwh: d_grid_night(),
            electricity_tax_nok_per_kwh: d_elavgift(),
            vat_rate: d_vat(),
            subsidy_threshold_nok_per_kwh: d_subsidy_threshold(),
            subsidy_rate: d_subsidy_rate(),
        }
    }
}

proof fn lemma_refund_within(over: int, rate: int)
    requires
        0 < over,
        0 <= rate <= MICROS,
    ensures
        0 <= floor_div(over * rate, MICROS as int) <= over,
{
    assert(0 <= over * rate <= over * MICROS) by (nonlinear_arith)
        requires 0 < over, 0 <= rate <= MICROS;
    vstd::arithmetic::div_mod::lemma_div_pos_is_pos(over * rate, MICROS as int);
    vstd::arithmetic::div_mod::lemma_div_is_ordered(over * rate, over * MICROS, MICROS as int);
    vstd::arithmetic::div_mod::lemma_div_by_multiple(over, MICROS as int);
}

proof fn lemma_scaled_bounds(x: int, scale: int)
    requires
        -3 * MAX_SPOT <= x <= 3 * MAX_SPOT,
        MICROS <= scale <= 2 * MICROS,
    ensures
        -6 * MAX_SPOT <= floor_div(x * scale, MICROS as int) <= 6 * MAX_SPOT,
        -6 * MAX_SPOT * MICROS <= x * scale <= 6 * MAX_SPOT * MICROS,
{
    assert(-6 * MAX_SPOT * MICROS <= x * scale <= 6 * MAX_SPOT * MICROS) by (nonlinear_arith)
        requires -3 * MAX_SPOT <= x <= 3 * MAX_SPOT, MICROS <= scale <= 2 * MICROS;
    vstd::arithmetic::div_mod::lemma_div_is_ordered(x * scale, 6 * MAX_SPOT * MICROS, MICROS as int);
    vstd::arithmetic::div_mod::lemma_div_is_ordered(-6 * MAX_SPOT * MICROS, x * scale, MICROS as int);
    vstd::arithmetic::div_mod::lemma_div_multiples_vanish(6 * MAX_SPOT, MICROS as int);
    vstd::arithmetic::div_mod::lemma_div_multiples_vanish(-6 * MAX_SPOT, MICROS as int);
    assert(MICROS * (6 * MAX_SPOT) == 6 * MAX_SPOT * MICROS);
    assert(MICROS * (-6 * MAX_SPOT) == -6 * MAX_SPOT * MICROS);
}

/// The pass-through tariff: spot energy, no grid rent, no tax, no VAT, and a
/// refund threshold no price reaches.
pub open spec fn raw_spot_tariff() -> Tariff {
    Tariff {
        energy_model: EnergyModel::Spot,
        norgespris_nok_per_kwh: 0,
        grid_energy_day_nok_per_kwh: 0,
        grid_energy_night_nok_per_kwh: 0,
        electricity_tax_nok_per_kwh: 0,
        vat_rate: 0,
        subsidy_threshold_nok_per_kwh: i64::MAX,
        subsidy_rate: 0,
    }
}

/// Under the pass-through tariff the effective price is the raw spot price,
/// day or night.
pub proof fn raw_spot_is_pass_through(spot: int, night: bool)
    requires
        valid_spot(spot),
    ensures
        raw_spot_tariff().spec_effective(spot, night) == spot,
{
    let t = raw_spot_tariff();
    assert(t.spec_subsidy(spot) == 0);
    assert(spot * (MICROS + 0) == spot * MICROS);
    vstd::arithmetic::div_mod::lemma_div_multiples_vanish(spot, MICROS as int);
    assert(MICROS * spot == spot * MICROS) by (nonlinear_arith);
}

/// Under Norgespris the spot price plays no part: any two spot prices give
/// the same effective price in the same hour.
pub proof fn norgespris_ignores_spot(t: Tariff, spot_a: int, spot_b: int, night: bool)
    requires
        t.energy_model == EnergyModel::Norgespris,
    ensures
        t.spec_effective(spot_a, night) == t.spec_effective(spot_b, night),
{
}

/// The energy price never falls as spot rises: the refund takes at most the
/// whole of each extra krone above the threshold.
pub proof fn energy_is_monotonic_in_spot(t: Tariff, s1: int, s2: int)
    requires
        t.wf(),
        s1 <= s2,
    ensures
        t.spec_energy(s1) <= t.spec_energy(s2),
{
    if t.energy_model == EnergyModel::Spot {
        let th = t.subsidy_threshold_nok_per_kwh as int;
        let r = t.subsidy_rate as int;
        let m = MICROS as int;
        if s2 - th > 0 {
            let o2 = s2 - th;
            lemma_refund_within(o2, r);
            if s1 - th > 0 {
                let o1 = s1 - th;
                let d = o2 - o1;
                let a1 = o1 * r;
                let a2 = o2 * r;
                assert(a2 <= a1 + d * m) by (nonlinear_arith)
                    requires a1 == o1 * r, a2 == o2 * r, d == o2 - o1, d >= 0, 0 <= r <= m;
                let q1 = a1 / m;
                let q2 = a2 / m;
                vstd::arithmetic::div_mod::lemma_fundamental_div_mod(a1, m);
                vstd::arithmetic::div_mod::lemma_fundamental_div_mod(a2, m);
                assert(q2 <= q1 + d) by (nonlinear_arith)
                    requires
                        a1 == m * q1 + a1 % m,
                        a2 == m * q2 + a2 % m,
                        0 <= a1 % m < m,
                        0 <= a2 % m < m,
                        a2 <= a1 + d * m,
                        m > 0;
            }
        }
    }
}

/// The effective price never falls as spot rises, within the same hour.
pub proof fn effective_is_monotonic_in_spot(t: Tariff, s1: int, s2: int, night: bool)
    requires
        t.wf(),
        s1 <= s2,
    ensures
        t.spec_effective(s1, night) <= t.spec_effective(s2, night),
{
    energy_is_monotonic_in_spot(t, s1, s2);
    let g = t.spec_grid_rate(night) + t.electricity_tax_nok_per_kwh;
    let x1 = t.spec_energy(s1) + g;
    let x2 = t.spec_energy(s2) + g;
    let scale = MICROS + t.vat_rate;
    assert(x1 * scale <= x2 * scale) by (nonlinear_arith)
        requires x1 <= x2, scale >= 0;
    vstd::arithmetic::div_mod::lemma_div_is_ordered(x1 * scale, x2 * scale, MICROS as int);
}

} // verus!
