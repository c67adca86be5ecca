//! The member-listing endpoint's logic.

use vstd::prelude::*;

use vstd::std_specs::convert::FromSpec;

use crate::model::User;
use crate::response::ApiError;

verus! {

/// The public face of an account: everything except its credentials and
/// contact details.
#[derive(Clone, Debug)]
pub struct PublicUser {
    pub first_name: String,
    pub last_name: String,
    pub id: i32,
}

impl vstd::std_specs::convert::FromSpecImpl<User> for PublicUser {
    open spec fn obeys_from_spec() -> bool {
        true
    }

    open spec fn from_spec(user: User) -> Self {
        PublicUser { first_name: user.first_name, last_name: user.last_name, id: user.id }
    }
}

impl From<User> for PublicUser {
    fn from(user: User) -> (r: Self) {
        PublicUser { first_name: user.first_name, last_name: user.last_name, id: user.id }
    }
}

/// What loading every account from the store can come to.
#[derive(Clone, Debug)]
pub enum LoadUsersOutcome {
    Records(Vec<User>),
    StoreError(String),
}

/// Turn the store's answer into the endpoint's outcome: each record is
/// reduced to its public face, and a store failure is reported as a
/// database error with its detail.
pub fn list(outcome: LoadUsersOutcome) -> (r: Result<Vec<PublicUser>, ApiError>)
    ensures
        match outcome {
            LoadUsersOutcome::Records(users) => match r {
                Ok(public) => public@.len() == users@.len() && forall|i: int|
                    0 <= i < users@.len() ==> #[trigger] public@[i] == PublicUser::from_spec(
                        users@[i],
                    ),
                Err(_) => false,
            },
            LoadUsersOutcome::StoreError(detail) => match r {
                Ok(_) => false,
                Err(e) => e matches ApiError::DatabaseError(m) && m@ == detail@,
            },
        },
{
    match outcome {
        LoadUsersOutcome::Records(users) => {
            let ghost all = users@;
            let total: usize = users.len();
            proof {
                assert(all.len() == total);
            }
            let mut public: Vec<PublicUser> = Vec::new();
            let mut users = users;
            let mut taken: usize = 0;
            while users.len() > 0
                invariant
                    all.len() <= usize::MAX,
                    taken + users@.len() == all.len(),
                    users@ =~= all.skip(taken as int),
                    public@.len() == taken,
                    forall|i: int|
                        0 <= i < taken ==> #[trigger] public@[i] == PublicUser::from_spec(all[i]),
                decreases users@.len(),
            {
                let user = users.remove(0);
                proof {
                    assert(user == all[taken as int]);
                    assert(users@ =~= all.skip(taken as int + 1));
                }
                public.push(PublicUser::from(user));
                taken += 1;
            }
            Ok(public)
        },
        LoadUsersOutcome::StoreError(detail) => Err(ApiError::DatabaseError(detail)),
    }
}

} // verus!
