use liminal_english_core::{
    ContentType, ContentUnlock, Entitlement, EntitlementReason, MonetizationConfig, Platform,
    Purchase, Subscription, SubscriptionStatus, SubscriptionTier,
};

#[test]
fn test_subscription_tiers() {
    assert!(!SubscriptionTier::Free.is_premium());
    assert!(SubscriptionTier::PremiumMonthly.is_premium());
    assert!(SubscriptionTier::PremiumYearly.is_premium());
    assert!(SubscriptionTier::Lifetime.is_premium());

    assert!(SubscriptionTier::Lifetime.priority() > SubscriptionTier::PremiumMonthly.priority());
    assert!(SubscriptionTier::PremiumMonthly.priority() > SubscriptionTier::Free.priority());
}

#[test]
fn test_free_subscription() {
    let sub = Subscription::new_free("user123".to_string());
    assert_eq!(sub.tier, SubscriptionTier::Free);
    assert_eq!(sub.status, SubscriptionStatus::Active);
    assert!(sub.is_active());
    assert!(!sub.has_premium_access());
}

const DAY_NANOS: i64 = 86_400_000_000_000;

fn now_nanos() -> i64 {
    chrono::Utc::now().timestamp_nanos_opt().unwrap()
}

#[test]
fn test_premium_subscription() {
    let mut sub = Subscription::new_free("user123".to_string());
    sub.tier = SubscriptionTier::PremiumMonthly;
    sub.status = SubscriptionStatus::Active;
    sub.expires_at = Some(now_nanos() + 30 * DAY_NANOS);

    assert!(sub.is_active());
    assert!(sub.has_premium_access());
}

#[test]
fn test_expired_subscription() {
    let mut sub = Subscription::new_free("user123".to_string());
    sub.tier = SubscriptionTier::PremiumMonthly;
    sub.expires_at = Some(now_nanos() - DAY_NANOS);

    assert!(!sub.is_active());
    assert!(!sub.has_premium_access());
}

#[test]
fn test_content_unlock() {
    let unlock = ContentUnlock::new(
        "user123".to_string(),
        ContentType::Role,
        "qa_engineer_abroad".to_string(),
        Some("purchase123".to_string()),
    );

    assert_eq!(unlock.user_id, "user123");
    assert_eq!(unlock.content_type, ContentType::Role);
    assert_eq!(unlock.content_id, "qa_engineer_abroad");
}

#[test]
fn test_entitlement_granted() {
    let ent = Entitlement::granted(EntitlementReason::FreeContent, None);
    assert!(ent.has_access);
    assert_eq!(ent.reason, EntitlementReason::FreeContent);
}

#[test]
fn test_entitlement_denied() {
    let ent = Entitlement::denied(EntitlementReason::RequiresPremium);
    assert!(!ent.has_access);
    assert_eq!(ent.reason, EntitlementReason::RequiresPremium);
}

#[test]
fn tier_priorities() {
    assert_eq!(SubscriptionTier::Free.priority(), 0);
    assert_eq!(SubscriptionTier::PremiumMonthly.priority(), 10);
    assert_eq!(SubscriptionTier::PremiumYearly.priority(), 10);
    assert_eq!(SubscriptionTier::Lifetime.priority(), 20);
}

#[test]
fn activity_at_fixed_times() {
    let mut sub = Subscription::new_free_at("s".to_string(), "u".to_string(), 0);
    sub.expires_at = Some(100);
    assert!(sub.is_active_at(99));
    assert!(!sub.is_active_at(100));
    sub.status = SubscriptionStatus::GracePeriod;
    assert!(!sub.is_active_at(0));
    sub.status = SubscriptionStatus::Cancelled;
    assert!(sub.is_active_at(0));
    assert!(!sub.has_premium_access_at(0));
    sub.tier = SubscriptionTier::Lifetime;
    assert!(sub.has_premium_access_at(0));
    sub.status = SubscriptionStatus::Expired;
    assert!(!sub.has_premium_access_at(0));
}

#[test]
fn purchase_starts_unverified() {
    let p = Purchase::new(
        "u".to_string(),
        "liminal_lifetime".to_string(),
        Platform::AppStore,
        "t-1".to_string(),
        999,
        "EUR".to_string(),
    );
    assert!(!p.verified);
    assert_eq!(p.price_cents, 999);
    assert_eq!(p.id.len(), 36);
    assert!(p.metadata.is_empty());
}

#[test]
fn monetization_defaults() {
    let c = MonetizationConfig::default();
    assert!(c.iap_enabled);
    assert_eq!(c.trial_days, 7);
    assert_eq!(c.grace_period_days, 3);
    assert_eq!(c.product_id(SubscriptionTier::PremiumYearly), Some("liminal_premium_yearly".to_string()));
    assert_eq!(c.product_id(SubscriptionTier::Lifetime), Some("liminal_lifetime".to_string()));
    assert_eq!(c.product_id(SubscriptionTier::Free), None);
}
