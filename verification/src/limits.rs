//! Hard bounds on the per-vault limits that a grid manager may configure.
use vstd::prelude::*;

verus! {

pub const MAX_GRID_COUNT: u32 = 100;

pub const MAX_ORDERS_PER_RECONCILE: u32 = 100;

pub const MAX_ACTIVE_ORDERS_PER_VAULT: u32 = 500;

/// The three limits are acceptable exactly when the grid count is between two
/// and `MAX_GRID_COUNT`, the reconcile batch is between one and
/// `MAX_ORDERS_PER_RECONCILE`, and the active-order cap is at least the grid
/// count and at most `MAX_ACTIVE_ORDERS_PER_VAULT`.
pub open spec fn vault_limits_ok(grid: u32, per_reconcile: u32, active: u32) -> bool {
    &&& 2 <= grid <= MAX_GRID_COUNT
    &&& 1 <= per_reconcile <= MAX_ORDERS_PER_RECONCILE
    &&& grid <= active <= MAX_ACTIVE_ORDERS_PER_VAULT
}

pub fn valid_vault_limits(max_grid_count: u32, max_orders_per_reconcile: u32, max_active_orders: u32) -> (r: bool)
    ensures
        r == vault_limits_ok(max_grid_count, max_orders_per_reconcile, max_active_orders),
{
    2 <= max_grid_count && max_grid_count <= MAX_GRID_COUNT && 1 <= max_orders_per_reconcile
        && max_orders_per_reconcile <= MAX_ORDERS_PER_RECONCILE && max_grid_count <= max_active_orders
        && max_active_orders <= MAX_ACTIVE_ORDERS_PER_VAULT
}

} // verus!
