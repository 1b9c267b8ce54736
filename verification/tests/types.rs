use pevm::perpdex::{Operation, OperationResult, OrderStatus, OrderType, Side};

#[test]
fn test_operation_sizes() {
    // Ensure enums don't grow too large
    assert!(std::mem::size_of::<Operation>() <= 256);
    assert!(std::mem::size_of::<OperationResult>() <= 128);
}

#[test]
fn test_order_type_basics() {
    assert_eq!(OrderType::Limit, OrderType::Limit);
    assert_ne!(OrderType::Limit, OrderType::Market);
}

#[test]
fn test_side_basics() {
    assert_eq!(Side::Long, Side::Long);
    assert_ne!(Side::Long, Side::Short);
}

#[test]
fn order_status_variants_differ() {
    assert_ne!(OrderStatus::Open, OrderStatus::Filled);
    assert_ne!(OrderStatus::PartiallyFilled, OrderStatus::Cancelled);
    assert_eq!(OrderStatus::Expired, OrderStatus::Expired);
}
