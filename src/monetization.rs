//! Subscription tiers, purchases, content unlocks and entitlement results.
//! Times are nanoseconds since the Unix epoch (UTC).

use vstd::prelude::*;

use crate::ambient::{new_uuid, now_nanos};

verus! {

/// Subscription tiers.
#[derive(Debug, Clone, Copy, PartialEq, Eq, Hash, Structural)]
pub enum SubscriptionTier {
    Free,
    PremiumMonthly,
    PremiumYearly,
    Lifetime,
}

impl SubscriptionTier {
    /// Every tier but `Free` includes the premium features.
    pub fn is_premium(&self) -> (r: bool)
        ensures
            r == (*self != SubscriptionTier::Free),
    {
        match self {
            SubscriptionTier::Free => false,
            _ => true,
        }
    }

    /// Access rank of the tier: higher means more access.
    pub fn priority(&self) -> (r: u8)
        ensures
            r == match *self {
                SubscriptionTier::Free => 0u8,
                SubscriptionTier::PremiumMonthly => 10u8,
                SubscriptionTier::PremiumYearly => 10u8,
                SubscriptionTier::Lifetime => 20u8,
            },
    {
        match self {
            SubscriptionTier::Free => 0,
            SubscriptionTier::PremiumMonthly => 10,
            SubscriptionTier::PremiumYearly => 10,
            SubscriptionTier::Lifetime => 20,
        }
    }
}

#[derive(Debug, Clone, Copy, PartialEq, Eq, Structural)]
pub enum SubscriptionStatus {
    Active,
    Expired,
    /// Cancelled, still valid until it expires.
    Cancelled,
    /// Grace period after a failed payment.
    GracePeriod,
    Trial,
}

/// Where a purchase was made.
#[derive(Debug, Clone, Copy, PartialEq, Eq, Structural)]
pub enum Platform {
    AppStore,
    PlayStore,
    Direct,
}

/// A user's subscription.
#[derive(Debug, Clone)]
pub struct Subscription {
    pub id: String,
    pub user_id: String,
    pub tier: SubscriptionTier,
    pub status: SubscriptionStatus,
    pub started_at: i64,
    pub expires_at: Option<i64>,
    pub cancelled_at: Option<i64>,
    pub platform: Platform,
    pub transaction_id: Option<String>,
}

/// A subscription is active at `now` when its status is active, trial or
/// cancelled and it has not expired by then.
pub open spec fn active_at(s: Subscription, now: int) -> bool {
    (s.status == SubscriptionStatus::Active || s.status == SubscriptionStatus::Trial || s.status
        == SubscriptionStatus::Cancelled) && match s.expires_at {
        Some(e) => now < e,
        None => true,
    }
}

/// Premium access at `now`: an active subscription of a premium tier.
pub open spec fn premium_at(s: Subscription, now: int) -> bool {
    active_at(s, now) && s.tier != SubscriptionTier::Free
}

impl Subscription {
    /// An active free subscription with the given identifier, started at `now`.
    pub fn new_free_at(id: String, user_id: String, now: i64) -> (r: Self)
        ensures
            r.id@ == id@,
            r.user_id@ == user_id@,
            r.tier == SubscriptionTier::Free,
            r.status == SubscriptionStatus::Active,
            r.started_at == now,
            r.expires_at is None,
            r.cancelled_at is None,
            r.platform == Platform::Direct,
            r.transaction_id is None,
    {
        Subscription {
            id,
            user_id,
            tier: SubscriptionTier::Free,
            status: SubscriptionStatus::Active,
            started_at: now,
            expires_at: None,
            cancelled_at: None,
            platform: Platform::Direct,
            transaction_id: None,
        }
    }

    /// An active free subscription with a fresh identifier, started now.
    pub fn new_free(user_id: String) -> (r: Self)
        ensures
            r.id@.len() == 36,
            r.user_id@ == user_id@,
            r.tier == SubscriptionTier::Free,
            r.status == SubscriptionStatus::Active,
            r.expires_at is None,
            r.cancelled_at is None,
            r.platform == Platform::Direct,
            r.transaction_id is None,
    {
        let id = new_uuid();
        let now = now_nanos();
        Self::new_free_at(id, user_id, now)
    }

    /// Whether the subscription is active at time `now`.
    pub fn is_active_at(&self, now: i64) -> (r: bool)
        ensures
            r == active_at(*self, now as int),
    {
        match self.status {
            SubscriptionStatus::Active | SubscriptionStatus::Trial
            | SubscriptionStatus::Cancelled => {},
            _ => {
                return false;
            },
        }
        match self.expires_at {
            Some(e) => now < e,
            None => true,
        }
    }

    /// Whether the subscription is active now.
    pub fn is_active(&self) -> (r: bool)
        ensures
            exists|now: i64| r == active_at(*self, now as int),
            self.expires_at is None ==> r == active_at(*self, 0),
    {
        let now = now_nanos();
        self.is_active_at(now)
    }

    /// Whether the subscription gives premium access at time `now`.
    pub fn has_premium_access_at(&self, now: i64) -> (r: bool)
        ensures
            r == premium_at(*self, now as int),
    {
        self.is_active_at(now) && self.tier.is_premium()
    }

    /// Whether the subscription gives premium access now.
    pub fn has_premium_access(&self) -> (r: bool)
        ensures
            exists|now: i64| r == premium_at(*self, now as int),
            self.tier == SubscriptionTier::Free ==> !r,
    {
        let now = now_nanos();
        let r = self.has_premium_access_at(now);
        r
    }
}

/// An in-app purchase. `metadata` maps keys to the JSON text of their values.
#[derive(Debug, Clone)]
pub struct Purchase {
    pub id: String,
    pub user_id: String,
    pub product_id: String,
    pub platform: Platform,
    pub transaction_id: String,
    pub purchased_at: i64,
    pub price_cents: i64,
    pub currency: String,
    pub verified: bool,
    pub metadata: Vec<(String, String)>,
}

impl Purchase {
    /// An unverified purchase with a fresh identifier, made now, and no metadata.
    pub fn new(
        user_id: String,
        product_id: String,
        platform: Platform,
        transaction_id: String,
        price_cents: i64,
        currency: String,
    ) -> (r: Self)
        ensures
            r.id@.len() == 36,
            r.user_id@ == user_id@,
            r.product_id@ == product_id@,
            r.platform == platform,
            r.transaction_id@ == transaction_id@,
            r.price_cents == price_cents,
            r.currency@ == currency@,
            !r.verified,
            r.metadata@.len() == 0,
    {
        Purchase {
            id: new_uuid(),
            user_id,
            product_id,
            platform,
            transaction_id,
            purchased_at: now_nanos(),
            price_cents,
            currency,
            verified: false,
            metadata: Vec::new(),
        }
    }
}

/// Access level of a piece of content.
#[derive(Debug, Clone, Copy, PartialEq, Eq, Structural)]
pub enum ContentAccess {
    Free,
    Premium,
    Unlockable,
}

/// Kinds of content that can be unlocked one by one.
#[derive(Debug, Clone, Copy, PartialEq, Eq, Structural)]
pub enum ContentType {
    Role,
    Scenario,
    VoicePack,
}

/// Record of one piece of content unlocked for a user.
#[derive(Debug, Clone)]
pub struct ContentUnlock {
    pub id: String,
    pub user_id: String,
    pub content_type: ContentType,
    pub content_id: String,
    pub unlocked_at: i64,
    pub purchase_id: Option<String>,
}

impl ContentUnlock {
    /// An unlock with a fresh identifier, made now.
    pub fn new(
        user_id: String,
        content_type: ContentType,
        content_id: String,
        purchase_id: Option<String>,
    ) -> (r: Self)
        ensures
            r.id@.len() == 36,
            r.user_id@ == user_id@,
            r.content_type == content_type,
            r.content_id@ == content_id@,
            r.purchase_id == purchase_id,
    {
        ContentUnlock {
            id: new_uuid(),
            user_id,
            content_type,
            content_id,
            unlocked_at: now_nanos(),
            purchase_id,
        }
    }
}

/// Why access was granted or denied.
#[derive(Debug, Clone, Copy, PartialEq, Eq, Structural)]
pub enum EntitlementReason {
    FreeContent,
    PremiumSubscription,
    IndividualUnlock,
    TrialAccess,
    RequiresPremium,
    RequiresUnlock,
    SubscriptionExpired,
}

/// Result of an access check.
#[derive(Debug, Clone)]
pub struct Entitlement {
    pub has_access: bool,
    pub reason: EntitlementReason,
    pub subscription: Option<Subscription>,
}

impl Entitlement {
    pub fn granted(reason: EntitlementReason, subscription: Option<Subscription>) -> (r: Self)
        ensures
            r.has_access,
            r.reason == reason,
            r.subscription == subscription,
    {
        Entitlement { has_access: true, reason, subscription }
    }

    pub fn denied(reason: EntitlementReason) -> (r: Self)
        ensures
            !r.has_access,
            r.reason == reason,
            r.subscription is None,
    {
        Entitlement { has_access: false, reason, subscription: None }
    }
}

/// Monetization settings. `product_ids` lists each tier at most once with
/// its store product identifier.
#[derive(Debug, Clone)]
pub struct MonetizationConfig {
    pub iap_enabled: bool,
    pub trial_days: u32,
    pub grace_period_days: u32,
    pub product_ids: Vec<(SubscriptionTier, String)>,
}

impl MonetizationConfig {
    /// The product identifier of `tier`, if one is configured.
    pub fn product_id(&self, tier: SubscriptionTier) -> (r: Option<String>)
        ensures
            r is Some <==> exists|i: int|
                0 <= i < self.product_ids@.len() && self.product_ids@[i].0 == tier,
            r matches Some(p) ==> exists|i: int|
                0 <= i < self.product_ids@.len() && self.product_ids@[i].0 == tier
                    && self.product_ids@[i].1@ == p@,
    {
        let mut i: usize = 0;
        while i < self.product_ids.len()
            invariant
                0 <= i <= self.product_ids.len(),
                forall|j: int| 0 <= j < i ==> self.product_ids@[j].0 != tier,
            decreases self.product_ids.len() - i,
        {
            if self.product_ids[i].0 == tier {
                return Some(self.product_ids[i].1.clone());
            }
            i += 1;
        }
        None
    }
}

impl Default for MonetizationConfig {
    fn default() -> (r: Self)
        ensures
            r.iap_enabled,
            r.trial_days == 7,
            r.grace_period_days == 3,
            r.product_ids@.len() == 3,
            r.product_ids@[0].0 == SubscriptionTier::PremiumMonthly,
            r.product_ids@[0].1@ == "liminal_premium_monthly"@,
            r.product_ids@[1].0 == SubscriptionTier::PremiumYearly,
            r.product_ids@[1].1@ == "liminal_premium_yearly"@,
            r.product_ids@[2].0 == SubscriptionTier::Lifetime,
            r.product_ids@[2].1@ == "liminal_lifetime"@,
    {
        let mut product_ids: Vec<(SubscriptionTier, String)> = Vec::new();
        product_ids.push((SubscriptionTier::PremiumMonthly, "liminal_premium_monthly".to_owned()));
        product_ids.push((SubscriptionTier::PremiumYearly, "liminal_premium_yearly".to_owned()));
        product_ids.push((SubscriptionTier::Lifetime, "liminal_lifetime".to_owned()));
        MonetizationConfig { iap_enabled: true, trial_days: 7, grace_period_days: 3, product_ids }
    }
}

} // verus!
