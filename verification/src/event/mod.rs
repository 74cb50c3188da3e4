pub mod exploit_event;
pub mod modify_credits;
pub mod request_exploit;
pub mod request_purchase_unlock;
