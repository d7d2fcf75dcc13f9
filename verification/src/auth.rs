use vstd::prelude::*;
use crate::dup::clone_opt_string;
use crate::outside::{chars_to_string, str_to_chars};

verus! {

/// Organisation roles, from weakest to strongest: owners may do
/// whatever admins may, admins whatever members may.
#[derive(Clone, Copy, Debug, PartialEq, Eq, Structural)]
pub enum UserRole {
    User,
    Admin,
    Owner,
}

/// The strength of a role, for comparisons.
pub open spec fn spec_role_rank(r: UserRole) -> int {
    match r {
        UserRole::User => 0,
        UserRole::Admin => 1,
        UserRole::Owner => 2,
    }
}

/// The role a stored role number decodes to: 2 is an owner, 1 an
/// admin, anything else a plain member.
pub open spec fn spec_role_of_number(n: i32) -> UserRole {
    if n >= 2 {
        UserRole::Owner
    } else if n == 1 {
        UserRole::Admin
    } else {
        UserRole::User
    }
}

/// Decodes a stored role number.
pub fn role_from_number(n: i32) -> (r: UserRole)
    ensures
        r == spec_role_of_number(n),
{
    if n >= 2 {
        UserRole::Owner
    } else if n == 1 {
        UserRole::Admin
    } else {
        UserRole::User
    }
}

/// A signed-in user as the middleware sees one: the identity and the
/// organisations it belongs to, each with a stored role number.
#[derive(Clone, Debug)]
pub struct SlimUser {
    pub id: u128,
    pub user_orgs: Vec<(u128, i32)>,
}

/// The first membership of the user in the organisation, or -1.
pub open spec fn spec_org_membership_idx(orgs: Seq<(u128, i32)>, org_id: u128) -> int
    decreases orgs.len(),
{
    if orgs.len() == 0 {
        -1
    } else if orgs[0].0 == org_id {
        0int
    } else {
        let r = spec_org_membership_idx(orgs.skip(1), org_id);
        if r == -1 {
            -1
        } else {
            r + 1
        }
    }
}

/// The role the user holds in the organisation, if any.
pub open spec fn spec_role_for_org(user: SlimUser, org_id: u128) -> Option<UserRole> {
    let i = spec_org_membership_idx(user.user_orgs@, org_id);
    if i == -1 {
        None
    } else {
        Some(spec_role_of_number(user.user_orgs@[i].1))
    }
}

/// The role the user holds in the organisation: that of its first
/// membership there, or none.
pub fn get_role_for_org(user: &SlimUser, org_id: u128) -> (r: Option<UserRole>)
    ensures
        r == spec_role_for_org(*user, org_id),
{
    let ghost orgs = user.user_orgs@;
    let mut k: usize = 0;
    while k < user.user_orgs.len()
        invariant
            k <= orgs.len(),
            orgs == user.user_orgs@,
            forall|l: int| 0 <= l < k ==> (#[trigger] orgs[l]).0 != org_id,
        decreases orgs.len() - k,
    {
        let (oid, role_number) = user.user_orgs[k];
        if oid == org_id {
            proof {
                lemma_org_membership_first(orgs, org_id, k as int);
            }
            return Some(role_from_number(role_number));
        }
        k = k + 1;
    }
    proof {
        lemma_org_membership_none(orgs, org_id);
    }
    None
}

proof fn lemma_org_membership_first(orgs: Seq<(u128, i32)>, org_id: u128, i: int)
    requires
        0 <= i < orgs.len(),
        orgs[i].0 == org_id,
        forall|l: int| 0 <= l < i ==> (#[trigger] orgs[l]).0 != org_id,
    ensures
        spec_org_membership_idx(orgs, org_id) == i,
    decreases orgs.len(),
{
    if orgs[0].0 == org_id {
        assert(i == 0);
    } else {
        let tail = orgs.skip(1);
        assert(tail[i - 1] == orgs[i]);
        assert forall|l: int| 0 <= l < i - 1 implies (#[trigger] tail[l]).0 != org_id by {
            assert(tail[l] == orgs[l + 1]);
        }
        lemma_org_membership_first(tail, org_id, i - 1);
    }
}

proof fn lemma_org_membership_none(orgs: Seq<(u128, i32)>, org_id: u128)
    requires
        forall|l: int| 0 <= l < orgs.len() ==> (#[trigger] orgs[l]).0 != org_id,
    ensures
        spec_org_membership_idx(orgs, org_id) == -1,
    decreases orgs.len(),
{
    if orgs.len() > 0 {
        let tail = orgs.skip(1);
        assert forall|l: int| 0 <= l < tail.len() implies (#[trigger] tail[l]).0 != org_id by {
            assert(tail[l] == orgs[l + 1]);
        }
        lemma_org_membership_none(tail, org_id);
    }
}

/// Whether the user owns the organisation.
pub fn verify_owner(user: &SlimUser, org_id: u128) -> (r: bool)
    ensures
        r == (spec_role_for_org(*user, org_id) is Some && spec_role_rank(
            spec_role_for_org(*user, org_id)->0,
        ) >= spec_role_rank(UserRole::Owner)),
{
    match get_role_for_org(user, org_id) {
        Some(UserRole::Owner) => true,
        _ => false,
    }
}

/// Whether the user administers the organisation.
pub fn verify_admin(user: &SlimUser, org_id: u128) -> (r: bool)
    ensures
        r == (spec_role_for_org(*user, org_id) is Some && spec_role_rank(
            spec_role_for_org(*user, org_id)->0,
        ) >= spec_role_rank(UserRole::Admin)),
{
    match get_role_for_org(user, org_id) {
        Some(UserRole::Owner) => true,
        Some(UserRole::Admin) => true,
        _ => false,
    }
}

/// Whether the user belongs to the organisation at all.
pub fn verify_member(user: &SlimUser, org_id: u128) -> (r: bool)
    ensures
        r == (spec_role_for_org(*user, org_id) is Some),
{
    match get_role_for_org(user, org_id) {
        Some(_) => true,
        None => false,
    }
}

/// The headers the middleware reads, as plain optional values.
pub struct RequestHeaders {
    pub authorization: Option<String>,
    pub x_api_key: Option<String>,
    pub tr_dataset: Option<String>,
    pub x_dataset: Option<String>,
    pub tr_organization: Option<String>,
    pub x_organization: Option<String>,
}

/// A header value with a "Bearer " prefix stripped.
pub open spec fn spec_strip_bearer(s: Seq<char>) -> Seq<char> {
    if s.len() >= 7 && s.subrange(0, 7) == "Bearer "@ {
        s.subrange(7, s.len() as int)
    } else {
        s
    }
}

fn strip_bearer(s: &String) -> (r: String)
    ensures
        r@ == spec_strip_bearer(s@),
{
    proof {
        reveal_strlit("Bearer ");
    }
    let cs: Vec<char> = str_to_chars(s.as_str());
    let prefix: bool = if cs.len() >= 7 {
        cs[0] == 'B' && cs[1] == 'e' && cs[2] == 'a' && cs[3] == 'r' && cs[4] == 'e' && cs[5]
            == 'r' && cs[6] == ' '
    } else {
        false
    };
    proof {
        if cs@.len() >= 7 {
            assert("Bearer "@.len() == 7);
            if cs@[0] == 'B' && cs@[1] == 'e' && cs@[2] == 'a' && cs@[3] == 'r' && cs@[4] == 'e'
                && cs@[5] == 'r' && cs@[6] == ' ' {
                assert(cs@.subrange(0, 7) =~= "Bearer "@);
            } else {
                if cs@.subrange(0, 7) == "Bearer "@ {
                    assert(forall|i: int|
                        0 <= i < 7 ==> #[trigger] cs@.subrange(0, 7)[i] == cs@[i]);
                    assert("Bearer "@ =~= seq!['B', 'e', 'a', 'r', 'e', 'r', ' ']);
                    assert(cs@[0] == 'B' && cs@[1] == 'e' && cs@[2] == 'a' && cs@[3] == 'r'
                        && cs@[4] == 'e' && cs@[5] == 'r' && cs@[6] == ' ');
                    assert(false);
                }
            }
        }
    }
    if prefix {
        let mut rest: Vec<char> = Vec::new();
        let mut k: usize = 7;
        while k < cs.len()
            invariant
                7 <= k <= cs@.len(),
                cs@ == s@,
                rest@ =~= cs@.subrange(7, k as int),
            decreases cs@.len() - k,
        {
            rest.push(cs[k]);
            assert(rest@ =~= cs@.subrange(7, k + 1));
            k = k + 1;
        }
        assert(rest@ =~= cs@.subrange(7, cs@.len() as int));
        chars_to_string(rest)
    } else {
        let r = s.clone();
        r
    }
}

/// The API key of a request: the Authorization header (its "Bearer "
/// prefix stripped) when present, else the x-api-key header (likewise
/// stripped), else nothing.
pub fn get_api_key_from_headers(headers: &RequestHeaders) -> (r: Option<String>)
    ensures
        headers.authorization is Some ==> r is Some && r->0@ == spec_strip_bearer(
            headers.authorization->0@,
        ),
        headers.authorization is None && headers.x_api_key is Some ==> r is Some && r->0@
            == spec_strip_bearer(headers.x_api_key->0@),
        headers.authorization is None && headers.x_api_key is None ==> r is None,
{
    match &headers.authorization {
        Some(v) => Some(strip_bearer(v)),
        None => match &headers.x_api_key {
            Some(v) => Some(strip_bearer(v)),
            None => None,
        },
    }
}

/// The dataset a request names: the TR-Dataset header, else the
/// x-dataset header, else nothing.
pub fn get_dataset_id_from_headers(headers: &RequestHeaders) -> (r: Option<String>)
    ensures
        headers.tr_dataset is Some ==> r == headers.tr_dataset,
        headers.tr_dataset is None ==> r == headers.x_dataset,
{
    match &headers.tr_dataset {
        Some(v) => Some(v.clone()),
        None => clone_opt_string(&headers.x_dataset),
    }
}

/// The organisation a request names: the TR-Organization header, else
/// the x-organization header, else nothing.
pub fn get_org_id_from_headers(headers: &RequestHeaders) -> (r: Option<String>)
    ensures
        headers.tr_organization is Some ==> r == headers.tr_organization,
        headers.tr_organization is None ==> r == headers.x_organization,
{
    match &headers.tr_organization {
        Some(v) => Some(v.clone()),
        None => clone_opt_string(&headers.x_organization),
    }
}

/// What the middleware decides for one request.
#[derive(Clone, Copy, Debug, PartialEq, Eq, Structural)]
pub enum AuthDecision {
    /// No organisation context: the request is forwarded untouched.
    Forward,
    /// The user acts in the organisation with this role.
    ForwardWithRole(UserRole),
    /// The API key is scoped away from this organisation or dataset.
    Unauthorized,
    /// The user does not belong to the organisation.
    Forbidden,
}

/// Builds the authentication middleware.
pub struct AuthMiddlewareFactory;

/// The decision core of the authentication middleware.  The
/// surrounding service resolves the request's user, API key scopes and
/// dataset, and forwards or rejects the request as decided here.
pub struct AuthenticationMiddleware;

impl AuthMiddlewareFactory {
    /// Wraps a service: hands out the middleware's decision core.
    pub fn new_transform(&self) -> (r: AuthenticationMiddleware)
        ensures
            r is AuthenticationMiddleware,
    {
        AuthenticationMiddleware
    }
}

impl AuthenticationMiddleware {
    /// Decides one request, given what the lookups resolved: the
    /// signed-in user (if any), the API key's organisation and dataset
    /// scopes (if a key was used), and the dataset's organisation (or
    /// the bare organisation header).  A scoped key that does not list
    /// the resolved organisation or dataset is unauthorized; without
    /// any organisation context the request passes through; a user
    /// outside the organisation is forbidden; otherwise the user's
    /// role in the organisation is attached.
    pub fn call(
        &self,
        user: Option<&SlimUser>,
        api_key_org_ids: Option<&Vec<u128>>,
        api_key_dataset_ids: Option<&Vec<u128>>,
        resolved_dataset: Option<(u128, u128)>,
        org_header: Option<u128>,
    ) -> (r: AuthDecision)
        ensures
            r == spec_auth_decision(
                (match user {
                    Some(u) => Some(*u),
                    None => None,
                }),
                (match api_key_org_ids {
                    Some(v) => Some(v@),
                    None => None,
                }),
                (match api_key_dataset_ids {
                    Some(v) => Some(v@),
                    None => None,
                }),
                resolved_dataset,
                org_header,
            ),
    {
        let org_id: u128 = match resolved_dataset {
            Some((dataset_id, dataset_org)) => {
                match api_key_org_ids {
                    Some(scope) => {
                        if scope.len() > 0 && !crate::store::contains_id(scope, dataset_org) {
                            return AuthDecision::Unauthorized;
                        }
                    },
                    None => {},
                }
                match api_key_dataset_ids {
                    Some(scope) => {
                        if scope.len() > 0 && !crate::store::contains_id(scope, dataset_id) {
                            return AuthDecision::Unauthorized;
                        }
                    },
                    None => {},
                }
                dataset_org
            },
            None => {
                match org_header {
                    Some(o) => o,
                    None => {
                        return AuthDecision::Forward;
                    },
                }
            },
        };
        match user {
            Some(u) => {
                match get_role_for_org(u, org_id) {
                    Some(role) => AuthDecision::ForwardWithRole(role),
                    None => AuthDecision::Forbidden,
                }
            },
            None => AuthDecision::Forward,
        }
    }
}

/// The middleware's decision, as a function of what the lookups
/// resolved.
pub open spec fn spec_auth_decision(
    user: Option<SlimUser>,
    api_key_org_ids: Option<Seq<u128>>,
    api_key_dataset_ids: Option<Seq<u128>>,
    resolved_dataset: Option<(u128, u128)>,
    org_header: Option<u128>,
) -> AuthDecision {
    if resolved_dataset is Some {
        let dataset_id = (resolved_dataset->0).0;
        let dataset_org = (resolved_dataset->0).1;
        if api_key_org_ids is Some && api_key_org_ids->0.len() > 0 && !api_key_org_ids->0.contains(
            dataset_org,
        ) {
            AuthDecision::Unauthorized
        } else if api_key_dataset_ids is Some && api_key_dataset_ids->0.len() > 0
            && !api_key_dataset_ids->0.contains(dataset_id) {
            AuthDecision::Unauthorized
        } else {
            spec_org_decision(user, dataset_org)
        }
    } else if org_header is Some {
        spec_org_decision(user, org_header->0)
    } else {
        AuthDecision::Forward
    }
}

/// The user-role part of the decision, once the organisation is known.
pub open spec fn spec_org_decision(user: Option<SlimUser>, org_id: u128) -> AuthDecision {
    match user {
        Some(u) => match spec_role_for_org(u, org_id) {
            Some(role) => AuthDecision::ForwardWithRole(role),
            None => AuthDecision::Forbidden,
        },
        None => AuthDecision::Forward,
    }
}

} // verus!
