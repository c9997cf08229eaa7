use vstd::prelude::*;
use std::collections::HashMap;

use crate::arith::{clamp_i128, div_trunc, sat_add_i128};
use crate::contract::StellarGrantsContract;
use crate::errors::ContractError;
use crate::keys::{lemma_pair_key_injective, pair_key, spec_pair_key};
use crate::types::{AccountId, InvoiceStatus};

verus! {

broadcast use vstd::std_specs::hash::group_hash_axioms;

/// One line of an invoice: `quantity` units at `unit_price`, for `total`.
#[derive(Clone, Debug)]
pub struct LineItem {
    pub description: String,
    pub quantity: u32,
    pub unit_price: i128,
    pub total: i128,
}

/// An invoice for a milestone.
#[derive(Debug)]
pub struct Invoice {
    pub grant_id: u64,
    pub milestone_idx: u32,
    pub invoice_number: String,
    pub contributor: AccountId,
    pub line_items: Vec<LineItem>,
    pub subtotal: i128,
    pub tax_bps: u32,
    pub total: i128,
    pub currency_token: AccountId,
    pub status: InvoiceStatus,
    pub submitted_at: u64,
    pub approved_at: Option<u64>,
    pub notes: Option<String>,
}

/// Whether line `i` states the product of its quantity and unit price.
pub open spec fn spec_line_ok(items: Seq<LineItem>, i: int) -> bool {
    items[i].total == items[i].quantity * items[i].unit_price
}

/// Running (saturating) sum of the first `k` line totals.
pub open spec fn spec_subtotal(items: Seq<LineItem>, k: int) -> int
    decreases k,
{
    if k <= 0 {
        0
    } else {
        clamp_i128(spec_subtotal(items, k - 1) + items[k - 1].total)
    }
}

/// The subtotal plus `tax_bps` basis points of it (truncated), saturating.
pub open spec fn spec_invoice_total(subtotal: int, tax_bps: u32) -> int {
    clamp_i128(subtotal + div_trunc(subtotal * tax_bps, 10_000))
}

/// What checking line items gives: the subtotal and the total with tax, or `InvalidInput`
/// when there is no line or a line's total is not quantity times unit price.
pub open spec fn spec_line_items(items: Seq<LineItem>, tax_bps: u32) -> Result<(i128, i128), ContractError> {
    if items.len() == 0 || exists|i: int| 0 <= i < items.len() && !#[trigger] spec_line_ok(items, i) {
        Err(ContractError::InvalidInput)
    } else {
        let sub = spec_subtotal(items, items.len() as int);
        Ok((sub as i128, spec_invoice_total(sub, tax_bps) as i128))
    }
}

/// The products of the lines that are checked, and the tax on the subtotal, stay within
/// `i128`.
pub open spec fn spec_line_items_fit(items: Seq<LineItem>, tax_bps: u32) -> bool {
    &&& forall|i: int|
        0 <= i < items.len() && (forall|j: int| 0 <= j < i ==> #[trigger] spec_line_ok(items, j)) ==> i128::MIN
            <= #[trigger] (items[i].quantity * items[i].unit_price) <= i128::MAX
    &&& spec_line_items(items, tax_bps) is Ok ==> i128::MIN <= spec_subtotal(items, items.len() as int) * tax_bps
        <= i128::MAX
}

/// Check line items and compute the subtotal and the total with tax.
pub fn validate_line_items(items: &Vec<LineItem>, tax_bps: u32) -> (r: Result<(i128, i128), ContractError>)
    requires
        spec_line_items_fit(items@, tax_bps),
    ensures
        r == spec_line_items(items@, tax_bps),
{
    if items.len() == 0 {
        return Err(ContractError::InvalidInput);
    }
    let mut subtotal: i128 = 0;
    let mut i: usize = 0;
    while i < items.len()
        invariant
            i <= items.len(),
            spec_line_items_fit(items@, tax_bps),
            forall|j: int| 0 <= j < i ==> #[trigger] spec_line_ok(items@, j),
            subtotal == spec_subtotal(items@, i as int),
        decreases items.len() - i,
    {
        let item = &items[i];
        assert(i128::MIN <= (items@[i as int].quantity * items@[i as int].unit_price) <= i128::MAX);
        let expected_total = (item.quantity as i128) * item.unit_price;
        if item.total != expected_total {
            assert(!spec_line_ok(items@, i as int));
            return Err(ContractError::InvalidInput);
        }
        subtotal = sat_add_i128(subtotal, item.total);
        i += 1;
    }
    let tax_amount = (subtotal * (tax_bps as i128)) / 10_000;
    let total = sat_add_i128(subtotal, tax_amount);
    Ok((subtotal, total))
}

/// Whether an invoice total is within 1% (truncated) of the milestone amount.
pub open spec fn spec_within_tolerance(total: int, amount: int) -> bool {
    let diff = if total > amount { total - amount } else { amount - total };
    diff <= div_trunc(amount, 100)
}

/// Both differences of `total` and `amount` stay within `i128`.
pub open spec fn spec_diff_fits(total: int, amount: int) -> bool {
    i128::MIN <= total - amount <= i128::MAX && i128::MIN <= amount - total <= i128::MAX
}

fn within_tolerance(total: i128, amount: i128) -> (r: bool)
    requires
        spec_diff_fits(total as int, amount as int),
    ensures
        r == spec_within_tolerance(total as int, amount as int),
{
    let tolerance = amount / 100;
    let diff = if total > amount { total - amount } else { amount - total };
    diff <= tolerance
}

/// The invoice of each (grant, milestone).
pub struct InvoiceBook {
    invoices: HashMap<u128, Invoice>,
}

impl InvoiceBook {
    /// The invoice of milestone `idx` of grant `grant_id`, if any.
    pub closed spec fn invoice(&self, grant_id: u64, idx: u32) -> Option<Invoice> {
        let k = spec_pair_key(grant_id, idx as u64);
        if self.invoices@.contains_key(k) {
            Some(self.invoices@[k])
        } else {
            None
        }
    }

    pub fn new() -> (b: InvoiceBook)
        ensures
            forall|g: u64, i: u32| #[trigger] b.invoice(g, i) is None,
    {
        InvoiceBook { invoices: HashMap::new() }
    }

    fn set(&mut self, grant_id: u64, idx: u32, inv: Invoice)
        ensures
            forall|g: u64, i: u32| #[trigger] final(self).invoice(g, i) == if g == grant_id && i == idx {
                Some(inv)
            } else {
                old(self).invoice(g, i)
            },
    {
        let ghost v = inv;
        self.invoices.insert(pair_key(grant_id, idx as u64), inv);
        proof {
            assert forall|g: u64, i: u32| #[trigger] self.invoice(g, i) == if g == grant_id && i == idx {
                Some(v)
            } else {
                old(self).invoice(g, i)
            } by {
                lemma_pair_key_injective(g, i as u64, grant_id, idx as u64);
            }
        }
    }

    fn take(&mut self, grant_id: u64, idx: u32) -> (r: Option<Invoice>)
        ensures
            r == old(self).invoice(grant_id, idx),
            forall|g: u64, i: u32| #[trigger] final(self).invoice(g, i) == if g == grant_id && i == idx {
                None
            } else {
                old(self).invoice(g, i)
            },
    {
        let r = self.invoices.remove(&pair_key(grant_id, idx as u64));
        proof {
            assert forall|g: u64, i: u32| #[trigger] self.invoice(g, i) == if g == grant_id && i == idx {
                None::<Invoice>
            } else {
                old(self).invoice(g, i)
            } by {
                lemma_pair_key_injective(g, i as u64, grant_id, idx as u64);
            }
        }
        r
    }

    /// The invoice of a milestone.
    pub fn get_invoice(&self, grant_id: u64, milestone_idx: u32) -> (r: Option<&Invoice>)
        ensures
            match r {
                Some(x) => self.invoice(grant_id, milestone_idx) == Some(*x),
                None => self.invoice(grant_id, milestone_idx) is None,
            },
    {
        self.invoices.get(&pair_key(grant_id, milestone_idx as u64))
    }

    /// Why submitting an invoice is refused, if it is.
    pub open spec fn spec_submit_check(
        &self,
        c: &StellarGrantsContract,
        contributor: AccountId,
        grant_id: u64,
        milestone_idx: u32,
        line_items: Seq<LineItem>,
        tax_bps: u32,
    ) -> Result<(), ContractError> {
        let g = c.grants.views()[grant_id];
        let m = c.milestones.milestone(grant_id, milestone_idx);
        let items = spec_line_items(line_items, tax_bps);
        if !c.grants.views().contains_key(grant_id) {
            Err(ContractError::GrantNotFound)
        } else if g.owner != contributor {
            Err(ContractError::Unauthorized)
        } else if m is None {
            Err(ContractError::MilestoneNotFound)
        } else if self.invoice(grant_id, milestone_idx) is Some {
            Err(ContractError::InvoiceAlreadySubmitted)
        } else if items is Err {
            Err(items->Err_0)
        } else if !spec_within_tolerance(items->Ok_0.1 as int, m->0.amount as int) {
            Err(ContractError::InvalidInput)
        } else {
            Ok(())
        }
    }

    /// The grant's owner invoices a milestone: the lines must add up (with tax) to within 1%
    /// of the milestone amount.
    pub fn submit_invoice(
        &mut self,
        c: &StellarGrantsContract,
        contributor: AccountId,
        grant_id: u64,
        milestone_idx: u32,
        invoice_number: String,
        line_items: Vec<LineItem>,
        tax_bps: u32,
        notes: Option<String>,
        now: u64,
    ) -> (r: Result<(), ContractError>)
        requires
            spec_line_items_fit(line_items@, tax_bps),
            spec_line_items(line_items@, tax_bps) is Ok && c.milestones.milestone(grant_id, milestone_idx) is Some
                ==> spec_diff_fits(
                spec_line_items(line_items@, tax_bps)->Ok_0.1 as int,
                c.milestones.milestone(grant_id, milestone_idx)->0.amount as int,
            ),
        ensures
            r == old(self).spec_submit_check(c, contributor, grant_id, milestone_idx, line_items@, tax_bps),
            r is Err ==> forall|g: u64, i: u32| #[trigger] final(self).invoice(g, i) == old(self).invoice(g, i),
            r is Ok ==> {
                let totals = spec_line_items(line_items@, tax_bps)->Ok_0;
                &&& forall|g: u64, i: u32|
                    !(g == grant_id && i == milestone_idx) ==> #[trigger] final(self).invoice(g, i) == old(self).invoice(g, i)
                &&& final(self).invoice(grant_id, milestone_idx) == Some(
                    Invoice {
                        grant_id,
                        milestone_idx,
                        invoice_number,
                        contributor,
                        line_items,
                        subtotal: totals.0,
                        tax_bps,
                        total: totals.1,
                        currency_token: c.grants.views()[grant_id].token,
                        status: InvoiceStatus::Submitted,
                        submitted_at: now,
                        approved_at: None,
                        notes,
                    },
                )
            },
    {
        let token = match c.grants.get(grant_id) {
            Some(g) => {
                if g.owner != contributor {
                    return Err(ContractError::Unauthorized);
                }
                g.token
            },
            None => return Err(ContractError::GrantNotFound),
        };
        let amount = match c.milestones.amount_of(grant_id, milestone_idx) {
            Some(a) => a,
            None => return Err(ContractError::MilestoneNotFound),
        };
        if self.invoices.contains_key(&pair_key(grant_id, milestone_idx as u64)) {
            return Err(ContractError::InvoiceAlreadySubmitted);
        }
        let (subtotal, total) = match validate_line_items(&line_items, tax_bps) {
            Ok(t) => t,
            Err(e) => return Err(e),
        };
        if !within_tolerance(total, amount) {
            return Err(ContractError::InvalidInput);
        }
        let invoice = Invoice {
            grant_id,
            milestone_idx,
            invoice_number,
            contributor,
            line_items,
            subtotal,
            tax_bps,
            total,
            currency_token: token,
            status: InvoiceStatus::Submitted,
            submitted_at: now,
            approved_at: None,
            notes,
        };
        self.set(grant_id, milestone_idx, invoice);
        Ok(())
    }

    /// A assessor of the grant rejects a submitted invoice with a reason.
    pub fn reject_invoice(
        &mut self,
        c: &StellarGrantsContract,
        reviewer: AccountId,
        grant_id: u64,
        milestone_idx: u32,
        reason: String,
    ) -> (r: Result<(), ContractError>)
        ensures
            ({
                let g = c.grants.views()[grant_id];
                let inv = old(self).invoice(grant_id, milestone_idx);
                &&& !c.grants.views().contains_key(grant_id) ==> r == Err::<(), ContractError>(ContractError::GrantNotFound)
                &&& c.grants.views().contains_key(grant_id) && !g.reviewers.contains(reviewer) ==> r == Err::<
                    (),
                    ContractError,
                >(ContractError::Unauthorized)
                &&& c.grants.views().contains_key(grant_id) && g.reviewers.contains(reviewer) && inv is None ==> r
                    == Err::<(), ContractError>(ContractError::InvoiceNotFound)
                &&& c.grants.views().contains_key(grant_id) && g.reviewers.contains(reviewer) && inv is Some
                    && inv->0.status != InvoiceStatus::Submitted ==> r == Err::<(), ContractError>(
                    ContractError::InvalidState)
                &&& r is Ok <==> c.grants.views().contains_key(grant_id) && g.reviewers.contains(reviewer) && inv is Some
                    && inv->0.status == InvoiceStatus::Submitted
                &&& r is Err ==> forall|gg: u64, i: u32| #[trigger] final(self).invoice(gg, i) == old(self).invoice(gg, i)
                &&& r is Ok ==> {
                    &&& forall|gg: u64, i: u32|
                        !(gg == grant_id && i == milestone_idx) ==> #[trigger] final(self).invoice(gg, i) == old(
                            self,
                        ).invoice(gg, i)
                    &&& final(self).invoice(grant_id, milestone_idx) == Some(
                        Invoice { status: InvoiceStatus::Rejected, notes: Some(reason), ..inv->0 },
                    )
                }
            }),
    {
        match c.grants.get(grant_id) {
            Some(g) => {
                if !crate::escrow::contains_account(&g.reviewers, reviewer) {
                    return Err(ContractError::Unauthorized);
                }
            },
            None => return Err(ContractError::GrantNotFound),
        }
        let mut invoice = match self.take(grant_id, milestone_idx) {
            Some(i) => i,
            None => return Err(ContractError::InvoiceNotFound),
        };
        if invoice.status != InvoiceStatus::Submitted {
            self.set(grant_id, milestone_idx, invoice);
            return Err(ContractError::InvalidState);
        }
        invoice.status = InvoiceStatus::Rejected;
        invoice.notes = Some(reason);
        self.set(grant_id, milestone_idx, invoice);
        Ok(())
    }

    /// Why resubmitting an invoice is refused, if it is.
    pub open spec fn spec_resubmit_check(
        &self,
        c: &StellarGrantsContract,
        contributor: AccountId,
        grant_id: u64,
        milestone_idx: u32,
        updated_items: Seq<LineItem>,
    ) -> Result<(), ContractError> {
        let g = c.grants.views()[grant_id];
        let m = c.milestones.milestone(grant_id, milestone_idx);
        let inv = self.invoice(grant_id, milestone_idx);
        let items = spec_line_items(updated_items, inv->0.tax_bps);
        if !c.grants.views().contains_key(grant_id) {
            Err(ContractError::GrantNotFound)
        } else if g.owner != contributor {
            Err(ContractError::Unauthorized)
        } else if m is None {
            Err(ContractError::MilestoneNotFound)
        } else if inv is None {
            Err(ContractError::InvoiceNotFound)
        } else if inv->0.status != InvoiceStatus::Rejected {
            Err(ContractError::InvalidState)
        } else if items is Err {
            Err(items->Err_0)
        } else if !spec_within_tolerance(items->Ok_0.1 as int, m->0.amount as int) {
            Err(ContractError::InvalidInput)
        } else {
            Ok(())
        }
    }

    /// The grant's owner resubmits a rejected invoice with corrected lines.
    pub fn resubmit_invoice(
        &mut self,
        c: &StellarGrantsContract,
        contributor: AccountId,
        grant_id: u64,
        milestone_idx: u32,
        updated_items: Vec<LineItem>,
        now: u64,
    ) -> (r: Result<(), ContractError>)
        requires
            old(self).invoice(grant_id, milestone_idx) is Some ==> spec_line_items_fit(
                updated_items@,
                old(self).invoice(grant_id, milestone_idx)->0.tax_bps,
            ),
            ({
                let inv = old(self).invoice(grant_id, milestone_idx);
                let items = spec_line_items(updated_items@, inv->0.tax_bps);
                inv is Some && items is Ok && c.milestones.milestone(grant_id, milestone_idx) is Some ==> spec_diff_fits(
                    items->Ok_0.1 as int,
                    c.milestones.milestone(grant_id, milestone_idx)->0.amount as int,
                )
            }),
        ensures
            r == old(self).spec_resubmit_check(c, contributor, grant_id, milestone_idx, updated_items@),
            r is Err ==> forall|g: u64, i: u32| #[trigger] final(self).invoice(g, i) == old(self).invoice(g, i),
            r is Ok ==> {
                let inv = old(self).invoice(grant_id, milestone_idx)->0;
                let totals = spec_line_items(updated_items@, inv.tax_bps)->Ok_0;
                &&& forall|g: u64, i: u32|
                    !(g == grant_id && i == milestone_idx) ==> #[trigger] final(self).invoice(g, i) == old(self).invoice(g, i)
                &&& final(self).invoice(grant_id, milestone_idx) == Some(
                    Invoice {
                        line_items: updated_items,
                        subtotal: totals.0,
                        total: totals.1,
                        status: InvoiceStatus::Submitted,
                        submitted_at: now,
                        notes: None,
                        ..inv
                    },
                )
            },
    {
        match c.grants.get(grant_id) {
            Some(g) => {
                if g.owner != contributor {
                    return Err(ContractError::Unauthorized);
                }
            },
            None => return Err(ContractError::GrantNotFound),
        }
        let amount = match c.milestones.amount_of(grant_id, milestone_idx) {
            Some(a) => a,
            None => return Err(ContractError::MilestoneNotFound),
        };
        let (status, tax_bps) = match self.get_invoice(grant_id, milestone_idx) {
            Some(i) => (i.status, i.tax_bps),
            None => return Err(ContractError::InvoiceNotFound),
        };
        if status != InvoiceStatus::Rejected {
            return Err(ContractError::InvalidState);
        }
        let (subtotal, total) = match validate_line_items(&updated_items, tax_bps) {
            Ok(t) => t,
            Err(e) => return Err(e),
        };
        if !within_tolerance(total, amount) {
            return Err(ContractError::InvalidInput);
        }
        let mut invoice = self.take(grant_id, milestone_idx).unwrap();
        invoice.line_items = updated_items;
        invoice.subtotal = subtotal;
        invoice.total = total;
        invoice.status = InvoiceStatus::Submitted;
        invoice.submitted_at = now;
        invoice.notes = None;
        self.set(grant_id, milestone_idx, invoice);
        Ok(())
    }
}

} // verus!
