//! The user-profile and onboarding record store: keyed CRUD over plain
//! records.
//!
//! Records are keyed by account identity.  The host authenticates the user
//! before every mutating call and passes the current ledger timestamp in;
//! the store itself is a plain state value with verified lookup semantics.

use vstd::prelude::*;
use crate::account::Address;
use crate::ledger::{
    keys_unique, lookup, lemma_lookup_absent, lemma_lookup_at_index, lemma_lookup_remove,
    lemma_lookup_push_fresh, lemma_lookup_update,
};

verus! {

/// A user's profile record.
pub struct UserProfile {
    pub full_name: String,
    pub cpf: String,
    pub phone: String,
    pub wallet_address: Address,
    pub created_at: u64,
    pub updated_at: u64,
}

impl Clone for UserProfile {
    fn clone(&self) -> (r: Self)
        ensures
            r == *self,
    {
        UserProfile {
            full_name: self.full_name.clone(),
            cpf: self.cpf.clone(),
            phone: self.phone.clone(),
            wallet_address: self.wallet_address,
            created_at: self.created_at,
            updated_at: self.updated_at,
        }
    }
}

/// A user's onboarding progress flags.
#[derive(Clone, Copy, PartialEq, Eq, Structural, Debug)]
pub struct OnboardingData {
    pub personal_info_completed: bool,
    pub identity_verified: bool,
    pub security_verified: bool,
    pub account_created: bool,
    pub credit_application_submitted: bool,
}

/// Onboarding counts as complete once the first four steps are done; the
/// credit application is not required.
pub open spec fn spec_onboarding_complete(d: OnboardingData) -> bool {
    d.personal_info_completed && d.identity_verified && d.security_verified && d.account_created
}

/// The record store: one optional profile and one optional onboarding record
/// per account.
pub struct UserDataContract {
    pub profiles: Vec<(Address, UserProfile)>,
    pub onboarding: Vec<(Address, OnboardingData)>,
}

/// The index of `a`'s entry in a unique-keyed record list, if it has one.
fn find_key<V>(v: &Vec<(Address, V)>, a: Address) -> (r: Option<usize>)
    ensures
        match r {
            Some(i) => i < v@.len() && v@[i as int].0 == a,
            None => forall|i: int| 0 <= i < v@.len() ==> (#[trigger] v@[i]).0 != a,
        },
{
    let mut i: usize = 0;
    while i < v.len()
        invariant
            i <= v.len(),
            forall|j: int| 0 <= j < i ==> (#[trigger] v@[j]).0 != a,
        decreases v.len() - i,
    {
        if v[i].0 == a {
            return Some(i);
        }
        i = i + 1;
    }
    None
}

impl UserDataContract {
    /// Each account holds at most one record of each kind.
    pub open spec fn wf(self) -> bool {
        keys_unique(self.profiles@) && keys_unique(self.onboarding@)
    }

    /// The profile stored for `user`, if any.
    pub open spec fn spec_profile(self, user: Address) -> Option<UserProfile> {
        lookup(self.profiles@, user)
    }

    /// The onboarding record stored for `user`, if any.
    pub open spec fn spec_onboarding(self, user: Address) -> Option<OnboardingData> {
        lookup(self.onboarding@, user)
    }

    /// An empty record store.
    pub fn new() -> (r: UserDataContract)
        ensures
            r.wf(),
            forall|a: Address| r.spec_profile(a) is None,
            forall|a: Address| r.spec_onboarding(a) is None,
    {
        UserDataContract { profiles: Vec::new(), onboarding: Vec::new() }
    }

    /// Create or replace `user`'s profile.  Both timestamps are set to
    /// `now`, the ledger time the host read for this call.
    pub fn set_user_profile(
        &mut self,
        user: Address,
        full_name: String,
        cpf: String,
        phone: String,
        now: u64,
    )
        requires
            old(self).wf(),
        ensures
            final(self).wf(),
            final(self).spec_profile(user) == Some(
                UserProfile {
                    full_name,
                    cpf,
                    phone,
                    wallet_address: user,
                    created_at: now,
                    updated_at: now,
                },
            ),
            forall|a: Address|
                a != user ==> final(self).spec_profile(a) == old(self).spec_profile(a),
            final(self).onboarding@ == old(self).onboarding@,
    {
        let profile = UserProfile {
            full_name,
            cpf,
            phone,
            wallet_address: user,
            created_at: now,
            updated_at: now,
        };
        let ghost s0 = self.profiles@;
        match find_key(&self.profiles, user) {
            Some(i) => {
                self.profiles.set(i, (user, profile));
                proof {
                    assert forall|a: Address|
                        lookup(self.profiles@, a) == (if a == user {
                            lookup(self.profiles@, user)
                        } else {
                            lookup(s0, a)
                        }) && keys_unique(self.profiles@) by {
                        lemma_lookup_update(s0, i as int, self.profiles@[i as int].1, a);
                    }
                    lemma_lookup_at_index(self.profiles@, i as int);
                }
            },
            None => {
                proof {
                    lemma_lookup_absent(s0, user);
                }
                self.profiles.push((user, profile));
                proof {
                    assert forall|a: Address|
                        lookup(self.profiles@, a) == (if a == user {
                            lookup(self.profiles@, user)
                        } else {
                            lookup(s0, a)
                        }) && keys_unique(self.profiles@) by {
                        lemma_lookup_push_fresh(
                            s0,
                            user,
                            self.profiles@.last().1,
                            a,
                        );
                    }
                    lemma_lookup_at_index(self.profiles@, self.profiles@.len() - 1);
                }
            },
        }
    }

    /// The profile stored for `user`, if any.
    pub fn get_user_profile(&self, user: Address) -> (r: Option<UserProfile>)
        requires
            self.wf(),
        ensures
            r == self.spec_profile(user),
    {
        match find_key(&self.profiles, user) {
            Some(i) => {
                proof {
                    lemma_lookup_at_index(self.profiles@, i as int);
                }
                Some(self.profiles[i].1.clone())
            },
            None => {
                proof {
                    lemma_lookup_absent(self.profiles@, user);
                }
                None
            },
        }
    }

    /// Create or replace `user`'s onboarding record.
    pub fn update_onboarding_progress(
        &mut self,
        user: Address,
        personal_info_completed: bool,
        identity_verified: bool,
        security_verified: bool,
        account_created: bool,
        credit_application_submitted: bool,
    )
        requires
            old(self).wf(),
        ensures
            final(self).wf(),
            final(self).spec_onboarding(user) == Some(
                OnboardingData {
                    personal_info_completed,
                    identity_verified,
                    security_verified,
                    account_created,
                    credit_application_submitted,
                },
            ),
            forall|a: Address|
                a != user ==> final(self).spec_onboarding(a) == old(self).spec_onboarding(a),
            final(self).profiles@ == old(self).profiles@,
    {
        let data = OnboardingData {
            personal_info_completed,
            identity_verified,
            security_verified,
            account_created,
            credit_application_submitted,
        };
        let ghost s0 = self.onboarding@;
        match find_key(&self.onboarding, user) {
            Some(i) => {
                self.onboarding.set(i, (user, data));
                proof {
                    assert forall|a: Address|
                        lookup(self.onboarding@, a) == (if a == user {
                            Some(data)
                        } else {
                            lookup(s0, a)
                        }) && keys_unique(self.onboarding@) by {
                        lemma_lookup_update(s0, i as int, data, a);
                    }
                }
            },
            None => {
                proof {
                    lemma_lookup_absent(s0, user);
                }
                self.onboarding.push((user, data));
                proof {
                    assert forall|a: Address|
                        lookup(self.onboarding@, a) == (if a == user {
                            Some(data)
                        } else {
                            lookup(s0, a)
                        }) && keys_unique(self.onboarding@) by {
                        lemma_lookup_push_fresh(s0, user, data, a);
                    }
                }
            },
        }
    }

    /// The onboarding record stored for `user`, if any.
    pub fn get_onboarding_progress(&self, user: Address) -> (r: Option<OnboardingData>)
        requires
            self.wf(),
        ensures
            r == self.spec_onboarding(user),
    {
        match find_key(&self.onboarding, user) {
            Some(i) => {
                proof {
                    lemma_lookup_at_index(self.onboarding@, i as int);
                }
                Some(self.onboarding[i].1)
            },
            None => {
                proof {
                    lemma_lookup_absent(self.onboarding@, user);
                }
                None
            },
        }
    }

    /// Whether `user` has completed every required onboarding step.
    pub fn is_onboarding_complete(&self, user: Address) -> (r: bool)
        requires
            self.wf(),
        ensures
            r == (match self.spec_onboarding(user) {
                Some(d) => spec_onboarding_complete(d),
                None => false,
            }),
    {
        match self.get_onboarding_progress(user) {
            Some(data) => data.personal_info_completed && data.identity_verified
                && data.security_verified && data.account_created,
            None => false,
        }
    }

    /// Remove both of `user`'s records, if present.
    pub fn remove_user_data(&mut self, user: Address)
        requires
            old(self).wf(),
        ensures
            final(self).wf(),
            final(self).spec_profile(user) is None,
            final(self).spec_onboarding(user) is None,
            forall|a: Address|
                a != user ==> final(self).spec_profile(a) == old(self).spec_profile(a),
            forall|a: Address|
                a != user ==> final(self).spec_onboarding(a) == old(self).spec_onboarding(a),
    {
        let ghost p0 = self.profiles@;
        match find_key(&self.profiles, user) {
            Some(i) => {
                let _ = self.profiles.remove(i);
                proof {
                    assert forall|a: Address|
                        lookup(self.profiles@, a) == (if a == user {
                            None::<UserProfile>
                        } else {
                            lookup(p0, a)
                        }) && keys_unique(self.profiles@) by {
                        lemma_lookup_remove(p0, i as int, a);
                    }
                }
            },
            None => {
                proof {
                    lemma_lookup_absent(p0, user);
                }
            },
        }
        let ghost o0 = self.onboarding@;
        match find_key(&self.onboarding, user) {
            Some(i) => {
                let _ = self.onboarding.remove(i);
                proof {
                    assert forall|a: Address|
                        lookup(self.onboarding@, a) == (if a == user {
                            None::<OnboardingData>
                        } else {
                            lookup(o0, a)
                        }) && keys_unique(self.onboarding@) by {
                        lemma_lookup_remove(o0, i as int, a);
                    }
                }
            },
            None => {
                proof {
                    lemma_lookup_absent(o0, user);
                }
            },
        }
    }
}

} // verus!
