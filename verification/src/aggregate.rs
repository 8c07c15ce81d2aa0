//! Attribute selection and aggregation.
//!
//! The record store hands over, per record, the looked-up attribute as a
//! plain value; this module selects the usable ones (present, numeric,
//! within the 16-bit range), rejects an empty selection before any
//! session starts, and aggregates the rest through a garbled-circuit
//! session.

use vstd::prelude::*;
use crate::errors::TwopcError;
use crate::session::garbled_sum;

verus! {

/// One record's attribute, as the record store reports it.
#[derive(Clone, Copy, PartialEq, Eq, Structural, Debug)]
pub enum AttrValue {
    /// The attribute is present and numeric.
    Num(u64),
    /// The attribute is present but not a number.
    NonNumeric,
    /// The record has no such attribute.
    Missing,
}

/// A value is kept when it is numeric and fits the 16-bit input range.
pub open spec fn keep(v: AttrValue) -> bool {
    match v {
        AttrValue::Num(x) => x <= 0xFFFF,
        AttrValue::NonNumeric => false,
        AttrValue::Missing => false,
    }
}

/// The 16-bit value of a kept attribute.
pub open spec fn val_of(v: AttrValue) -> u16 {
    match v {
        AttrValue::Num(x) => x as u16,
        AttrValue::NonNumeric => 0,
        AttrValue::Missing => 0,
    }
}

/// The kept values of a record sequence, in record order.
pub open spec fn spec_selected(s: Seq<AttrValue>) -> Seq<u16>
    decreases s.len(),
{
    if s.len() == 0 {
        Seq::empty()
    } else {
        let init = spec_selected(s.drop_last());
        if keep(s.last()) {
            init.push(val_of(s.last()))
        } else {
            init
        }
    }
}

/// The total of a value sequence.
pub open spec fn spec_sum(s: Seq<u16>) -> nat
    decreases s.len(),
{
    if s.len() == 0 {
        0
    } else {
        spec_sum(s.drop_last()) + (s.last() as nat)
    }
}

/// Selects the usable attribute values: present, numeric, within the
/// 16-bit range; everything else is skipped, in order.
pub fn select_values(entries: &Vec<AttrValue>) -> (r: Vec<u16>)
    ensures
        r@ == spec_selected(entries@),
{
    let mut r: Vec<u16> = Vec::new();
    let mut i: usize = 0;
    while i < entries.len()
        invariant
            i <= entries@.len(),
            r@ == spec_selected(entries@.take(i as int)),
        decreases entries@.len() - i,
    {
        let ghost pre = entries@.take(i as int);
        proof {
            assert(entries@.take(i + 1).drop_last() =~= pre);
            assert(entries@.take(i + 1).last() == entries@[i as int]);
        }
        match entries[i] {
            AttrValue::Num(x) => {
                if x <= 0xFFFF {
                    r.push(x as u16);
                }
            },
            AttrValue::NonNumeric => {},
            AttrValue::Missing => {},
        }
        i = i + 1;
    }
    proof {
        assert(entries@.take(entries@.len() as int) =~= entries@);
    }
    r
}

/// Adds up the selected values; the total of machine-bounded many
/// 16-bit values always fits the result type.
pub fn sum_values(values: &Vec<u16>) -> (r: u128)
    ensures
        r as nat == spec_sum(values@),
{
    let mut acc: u128 = 0;
    let mut i: usize = 0;
    while i < values.len()
        invariant
            i <= values@.len(),
            acc as nat == spec_sum(values@.take(i as int)),
            acc as nat <= 0xFFFF * i,
        decreases values@.len() - i,
    {
        proof {
            assert(values@.take(i + 1).drop_last() =~= values@.take(i as int));
            assert(values@.take(i + 1).last() == values@[i as int]);
            assert(0xFFFF * (i as int) <= 0xFFFF * (usize::MAX as int)) by (nonlinear_arith)
                requires
                    i <= usize::MAX,
            ;
        }
        acc = acc + (values[i] as u128);
        i = i + 1;
    }
    proof {
        assert(values@.take(values@.len() as int) =~= values@);
    }
    acc
}

/// The aggregation entry point: selects the usable values, rejects an
/// empty selection before any session starts, and computes the total
/// through a garbled-circuit session.
pub fn aggregate_sum(entries: &Vec<AttrValue>) -> (r: Result<u128, TwopcError>)
    ensures
        match r {
            Ok(v) => {
                &&& spec_selected(entries@).len() > 0
                &&& v as nat == spec_sum(spec_selected(entries@))
            },
            Err(e) => {
                &&& e == TwopcError::EmptySelection
                &&& spec_selected(entries@).len() == 0
            },
        },
{
    let selected = select_values(entries);
    if selected.len() == 0 {
        return Err(TwopcError::EmptySelection);
    }
    match garbled_sum(selected) {
        Ok(v) => Ok(v),
        Err(e) => {
            proof {
                assert(false);
            }
            Err(e)
        },
    }
}

} // verus!
