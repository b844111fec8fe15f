use cl8y_dex_bots::limits::{
    valid_vault_limits, MAX_ACTIVE_ORDERS_PER_VAULT, MAX_GRID_COUNT, MAX_ORDERS_PER_RECONCILE,
};

#[test]
fn accepts_exact_vault_boundaries() {
    assert!(valid_vault_limits(2, 1, 2));
    assert!(valid_vault_limits(MAX_GRID_COUNT, MAX_ORDERS_PER_RECONCILE, MAX_ACTIVE_ORDERS_PER_VAULT));
}

#[test]
fn rejects_every_out_of_range_manager_limit() {
    assert!(!valid_vault_limits(1, 1, 2));
    assert!(!valid_vault_limits(MAX_GRID_COUNT + 1, 1, 101));
    assert!(!valid_vault_limits(2, 0, 2));
    assert!(!valid_vault_limits(2, MAX_ORDERS_PER_RECONCILE + 1, 2));
    assert!(!valid_vault_limits(3, 1, 2));
    assert!(!valid_vault_limits(2, 1, MAX_ACTIVE_ORDERS_PER_VAULT + 1,));
}

#[test]
fn accepts_an_interior_configuration() {
    assert!(valid_vault_limits(10, 50, 200));
}
