//! The authentication protocol and enterprise binding, over a nonce store and
//! a directory of identity and enterprise records.
use vstd::prelude::*;
use crate::address::{ascii_lower, is_address_text, is_valid_address_format, normalize_address, ADDRESS_TEXT_LEN};
use crate::directory::{opt_view, Directory, Identity};
use crate::nonce::{is_uuid_v4_text, nonce_text_of, NonceStore, NONCE_BYTES};
use crate::session::{hs256_token, issue_token, role_name_of, SESSION_VALIDITY_SECS};
use crate::signer::{recover_address, recovery_of_text, RecoveryError};

verus! {

/// Every way a request can fail.
#[derive(Debug, Clone, Copy, PartialEq, Eq, Structural)]
pub enum AuthError {
    /// The challenge is unknown, already used or expired.
    NonceNotFound,
    /// The signature text is not a well-formed signature.
    InvalidSignatureFormat,
    /// No signer could be recovered from the signature.
    InvalidSignature,
    /// An address does not have the `0x` prefix and 42 bytes.
    InvalidAddress,
    /// No enterprise has the given address.
    EnterpriseNotFound,
    /// The authenticated identity has no record.
    UserNotFound,
    /// The session token could not be minted.
    TokenGeneration,
}

impl AuthError {
    /// The transport status that reports this error.
    pub fn status_code(&self) -> (r: u16)
        ensures
            r == match *self {
                AuthError::NonceNotFound | AuthError::InvalidSignatureFormat | AuthError::InvalidAddress => 400u16,
                AuthError::InvalidSignature => 401u16,
                AuthError::EnterpriseNotFound => 404u16,
                AuthError::UserNotFound | AuthError::TokenGeneration => 500u16,
            },
    {
        match *self {
            AuthError::NonceNotFound | AuthError::InvalidSignatureFormat | AuthError::InvalidAddress => 400,
            AuthError::InvalidSignature => 401,
            AuthError::EnterpriseNotFound => 404,
            AuthError::UserNotFound | AuthError::TokenGeneration => 500,
        }
    }
}

/// A request for a challenge by a wallet.
pub struct ChallengeRequest {
    pub address: String,
}

/// A challenge: the nonce to sign and the id to answer it under.
pub struct ChallengeResponse {
    pub nonce: String,
    pub request_id: String,
}

/// The answer to a challenge.
pub struct LoginRequest {
    pub request_id: String,
    pub signature: String,
}

/// A session: its token and the wallet it was issued to.
pub struct LoginResponse {
    pub token: String,
    pub wallet_address: String,
}

/// A request to bind the caller to an enterprise.
pub struct BindEnterpriseRequest {
    pub enterprise_address: String,
}

/// The enterprise an identity is bound to, as far as it still resolves.
pub struct EnterpriseInfoResponse {
    pub is_enterprise_bound: bool,
    pub enterprise_name: Option<String>,
    pub enterprise_address: Option<String>,
    pub enterprise_id: Option<String>,
}

/// Issues a challenge to a wallet address of the right shape; any other
/// address is refused and the store is left alone.
pub fn challenge(store: &mut NonceStore, req: &ChallengeRequest) -> (r: Result<ChallengeResponse, AuthError>)
    ensures
        r is Err <==> !is_address_text(req.address@),
        r is Err ==> r == Err::<ChallengeResponse, AuthError>(AuthError::InvalidAddress) && *final(store) == *old(store),
        r is Ok ==> {
            let c = r->Ok_0;
            &&& c.request_id@.len() == 36
            &&& is_uuid_v4_text(c.request_id@)
            &&& exists|b: Seq<u8>| b.len() == NONCE_BYTES && c.nonce@ == nonce_text_of(b)
            &&& final(store).entries().submap_of(old(store).entries().insert(c.request_id@, c.nonce@))
        },
{
    if !is_valid_address_format(req.address.as_str()) {
        return Err(AuthError::InvalidAddress);
    }
    let (request_id, nonce) = store.issue();
    Ok(ChallengeResponse { nonce, request_id })
}

/// How a directory may change when a login provisions address `a`: the
/// identity exists afterwards, and is new only if it was absent before.
pub open spec fn provisioned(d0: Directory, d1: Directory, a: Seq<char>) -> bool {
    &&& d1.wf()
    &&& d1.has_user(a)
    &&& d1.enterprises() == d0.enterprises()
    &&& d0.has_user(a) ==> d1.users() == d0.users()
    &&& !d0.has_user(a) ==> {
        &&& d1.users().drop_last() == d0.users()
        &&& d1.user(a).role == crate::session::Role::Investor
        &&& d1.user(a).enterprise_id is None
    }
}

/// What answering a challenge whose nonce is `nonce` with `signature` does:
/// each recovery failure has its own error and leaves the directory alone; a
/// recovered signer is provisioned and, unless the clock is out of range,
/// receives a token for its record that expires one day after issue.
pub open spec fn login_post(
    d0: Directory,
    d1: Directory,
    secret: Seq<u8>,
    nonce: Seq<char>,
    signature: Seq<char>,
    r: Result<LoginResponse, AuthError>,
) -> bool {
    let rec = recovery_of_text(signature, nonce);
    &&& d1.wf()
    &&& (rec == Err::<Seq<char>, RecoveryError>(RecoveryError::Malformed)
        <==> r == Err::<LoginResponse, AuthError>(AuthError::InvalidSignatureFormat))
    &&& (rec == Err::<Seq<char>, RecoveryError>(RecoveryError::Unrecoverable)
        <==> r == Err::<LoginResponse, AuthError>(AuthError::InvalidSignature))
    &&& r is Err ==> r == Err::<LoginResponse, AuthError>(AuthError::InvalidSignatureFormat)
        || r == Err::<LoginResponse, AuthError>(AuthError::InvalidSignature)
        || r == Err::<LoginResponse, AuthError>(AuthError::TokenGeneration)
    &&& rec is Err ==> d1 == d0
    &&& rec is Ok ==> {
        let a = rec->Ok_0;
        let u = d1.user(a);
        &&& provisioned(d0, d1, a)
        &&& a.len() == ADDRESS_TEXT_LEN
        &&& (r == Err::<LoginResponse, AuthError>(AuthError::TokenGeneration) || {
            &&& r is Ok
            &&& r->Ok_0.wallet_address@ == a
            &&& exists|now: int| r->Ok_0.token@
                == #[trigger] hs256_token(a, now + SESSION_VALIDITY_SECS, u.id@, role_name_of(u.role), secret)
        })
    }
}

/// Answers a challenge whose nonce has been retrieved: the signer recovered
/// from the signature over the nonce is the identity; its record is found or
/// created, and a token is minted for it.
pub fn login_with_nonce(dir: &mut Directory, secret: &[u8], nonce: &String, signature: &String) -> (r: Result<LoginResponse, AuthError>)
    requires
        old(dir).wf(),
    ensures
        login_post(*old(dir), *final(dir), secret@, nonce@, signature@, r),
{
    let address = match recover_address(nonce.as_str(), signature.as_str()) {
        Ok(a) => a,
        Err(RecoveryError::Malformed) => return Err(AuthError::InvalidSignatureFormat),
        Err(RecoveryError::Unrecoverable) => return Err(AuthError::InvalidSignature),
    };
    let ghost d0 = *dir;
    let i = dir.resolve_or_create(&address);
    proof {
        dir.lemma_user_unique(i as int, address@);
        assert(provisioned(d0, *dir, address@));
    }
    let user: &Identity = dir.user_record(i);
    match issue_token(&address, &user.id, user.role, secret) {
        Ok(token) => Ok(LoginResponse { token, wallet_address: address }),
        Err(_) => Err(AuthError::TokenGeneration),
    }
}

/// Answers a challenge.  The challenge is used up whatever the outcome; an
/// unknown or expired one is reported as such, a retrieved nonce is handed on
/// to `login_with_nonce`.
pub fn login(store: &mut NonceStore, dir: &mut Directory, secret: &[u8], req: &LoginRequest) -> (r: Result<LoginResponse, AuthError>)
    requires
        old(dir).wf(),
    ensures
        final(dir).wf(),
        final(store).entries().submap_of(old(store).entries()),
        !final(store).entries().contains_key(req.request_id@),
        !old(store).entries().contains_key(req.request_id@) ==> r == Err::<LoginResponse, AuthError>(AuthError::NonceNotFound),
        r == Err::<LoginResponse, AuthError>(AuthError::NonceNotFound) ==> *final(dir) == *old(dir),
        r != Err::<LoginResponse, AuthError>(AuthError::NonceNotFound) ==> {
            &&& old(store).entries().contains_key(req.request_id@)
            &&& login_post(*old(dir), *final(dir), secret@, old(store).entries()[req.request_id@], req.signature@, r)
        },
{
    let nonce = match store.take(&req.request_id) {
        Some(n) => n,
        None => return Err(AuthError::NonceNotFound),
    };
    login_with_nonce(dir, secret, &nonce, &req.signature)
}

/// What binding the identity `user` to the enterprise at address `ent` does.
/// Both addresses are compared in normalised form.
pub open spec fn bind_post(d0: Directory, user: Seq<char>, ent: Seq<char>, d1: Directory, r: Result<(), AuthError>) -> bool {
    let ua = ascii_lower(user);
    let ea = ascii_lower(ent);
    &&& d1.wf()
    &&& d1.enterprises() == d0.enterprises()
    &&& (!is_address_text(ent) <==> r == Err::<(), AuthError>(AuthError::InvalidAddress))
    &&& (is_address_text(ent) && !d0.has_enterprise_address(ea) <==> r == Err::<(), AuthError>(AuthError::EnterpriseNotFound))
    &&& (is_address_text(ent) && d0.has_enterprise_address(ea) && !d0.has_user(ua)
        <==> r == Err::<(), AuthError>(AuthError::UserNotFound))
    &&& r is Err ==> r == Err::<(), AuthError>(AuthError::InvalidAddress)
        || r == Err::<(), AuthError>(AuthError::EnterpriseNotFound)
        || r == Err::<(), AuthError>(AuthError::UserNotFound)
    &&& r is Err ==> d1.users() == d0.users()
    &&& r is Ok ==> {
        &&& d1.has_user(ua)
        &&& d1.binding(ua) == Some(d0.enterprise_by_address(ea).id@)
        &&& d1.users().len() == d0.users().len()
        &&& forall|i: int| 0 <= i < d0.users().len() ==> {
            let u0 = #[trigger] d0.users()[i];
            let u1 = d1.users()[i];
            &&& u1.id == u0.id
            &&& u1.wallet_address == u0.wallet_address
            &&& u1.role == u0.role
            &&& u0.wallet_address@ != ua ==> u1 == u0
        }
    }
}

/// Binds the authenticated identity at `user_address` to the enterprise whose
/// address the request names, replacing any earlier binding.
pub fn bind_enterprise(dir: &mut Directory, user_address: &String, req: &BindEnterpriseRequest) -> (r: Result<(), AuthError>)
    requires
        old(dir).wf(),
    ensures
        bind_post(*old(dir), user_address@, req.enterprise_address@, *final(dir), r),
{
    if !is_valid_address_format(req.enterprise_address.as_str()) {
        return Err(AuthError::InvalidAddress);
    }
    let ea = normalize_address(req.enterprise_address.as_str());
    let ei = match dir.find_enterprise_by_address(&ea) {
        Some(ei) => ei,
        None => return Err(AuthError::EnterpriseNotFound),
    };
    proof {
        dir.lemma_enterprise_address_unique(ei as int, ea@);
    }
    let enterprise_id = dir.enterprise_record(ei).id.clone();
    let ua = normalize_address(user_address.as_str());
    let ghost d0 = *dir;
    if dir.set_enterprise(&ua, &enterprise_id) {
        proof {
            let ui = choose|k: int| d0.user_at(k, ua@);
            assert(d0.users()[ui].wallet_address@ == ua@);
            assert(dir.user_at(ui, ua@));
            dir.lemma_user_unique(ui, ua@);
            assert(opt_view(dir.users()[ui].enterprise_id) == Some(enterprise_id@));
            assert(dir.binding(ua@) == Some(enterprise_id@));
        }
        Ok(())
    } else {
        Err(AuthError::UserNotFound)
    }
}

/// What the enterprise information of the identity `user` reports.
pub open spec fn info_post(d: Directory, user: Seq<char>, r: Result<EnterpriseInfoResponse, AuthError>) -> bool {
    let ua = ascii_lower(user);
    &&& (r is Err <==> !d.has_user(ua))
    &&& r is Err ==> r == Err::<EnterpriseInfoResponse, AuthError>(AuthError::UserNotFound)
    &&& r is Ok ==> {
        let resp = r->Ok_0;
        match d.binding(ua) {
            None => {
                &&& !resp.is_enterprise_bound
                &&& resp.enterprise_name is None
                &&& resp.enterprise_address is None
                &&& resp.enterprise_id is None
            },
            Some(eid) => {
                &&& resp.is_enterprise_bound
                &&& d.has_enterprise_id(eid) ==> {
                    &&& opt_view(resp.enterprise_id) == Some(eid)
                    &&& opt_view(resp.enterprise_name) == Some(d.enterprise_by_id(eid).name@)
                    &&& opt_view(resp.enterprise_address) == Some(d.enterprise_by_id(eid).wallet_address@)
                }
                &&& !d.has_enterprise_id(eid) ==> {
                    &&& resp.enterprise_id is None
                    &&& resp.enterprise_name is None
                    &&& resp.enterprise_address is None
                }
            },
        }
    }
}

/// The binding of the authenticated identity at `user_address`: not bound,
/// bound to an enterprise that resolves, or bound to one that no longer does.
pub fn get_enterprise_info(dir: &Directory, user_address: &String) -> (r: Result<EnterpriseInfoResponse, AuthError>)
    requires
        dir.wf(),
    ensures
        info_post(*dir, user_address@, r),
{
    let ua = normalize_address(user_address.as_str());
    let ui = match dir.find_user(&ua) {
        Some(ui) => ui,
        None => return Err(AuthError::UserNotFound),
    };
    proof {
        dir.lemma_user_unique(ui as int, ua@);
    }
    let user = dir.user_record(ui);
    match &user.enterprise_id {
        None => Ok(EnterpriseInfoResponse {
            is_enterprise_bound: false,
            enterprise_name: None,
            enterprise_address: None,
            enterprise_id: None,
        }),
        Some(eid) => match dir.find_enterprise_by_id(eid) {
            Some(ei) => {
                proof {
                    dir.lemma_enterprise_id_unique(ei as int, eid@);
                }
                let e = dir.enterprise_record(ei);
                Ok(EnterpriseInfoResponse {
                    is_enterprise_bound: true,
                    enterprise_name: Some(e.name.clone()),
                    enterprise_address: Some(e.wallet_address.clone()),
                    enterprise_id: Some(eid.clone()),
                })
            },
            None => Ok(EnterpriseInfoResponse {
                is_enterprise_bound: true,
                enterprise_name: None,
                enterprise_address: None,
                enterprise_id: None,
            }),
        },
    }
}

/// Binding one identity twice, to two enterprises, leaves exactly the second
/// binding in effect, and the enterprise information reports it at once.
pub proof fn lemma_rebind_keeps_last(
    d0: Directory,
    d1: Directory,
    d2: Directory,
    user: Seq<char>,
    first: Seq<char>,
    second: Seq<char>,
    r1: Result<(), AuthError>,
    r2: Result<(), AuthError>,
    info: Result<EnterpriseInfoResponse, AuthError>,
)
    requires
        d0.wf(),
        bind_post(d0, user, first, d1, r1),
        r1 is Ok,
        bind_post(d1, user, second, d2, r2),
        r2 is Ok,
        info_post(d2, user, info),
    ensures
        d2.binding(ascii_lower(user)) == Some(d0.enterprise_by_address(ascii_lower(second)).id@),
        info is Ok,
        info->Ok_0.is_enterprise_bound,
        opt_view(info->Ok_0.enterprise_id) == Some(d0.enterprise_by_address(ascii_lower(second)).id@),
        opt_view(info->Ok_0.enterprise_name) == Some(d0.enterprise_by_address(ascii_lower(second)).name@),
        opt_view(info->Ok_0.enterprise_address) == Some(ascii_lower(second)),
{
    let ea = ascii_lower(second);
    let i = choose|i: int| d1.enterprise_address_at(i, ea);
    d1.lemma_enterprise_address_unique(i, ea);
    assert(d0.enterprise_address_at(i, ea));
    d0.lemma_enterprise_address_unique(i, ea);
    let eid = d0.enterprises()[i].id@;
    assert(d2.enterprise_id_at(i, eid));
    d2.lemma_enterprise_id_unique(i, eid);
}

/// An identity whose enterprise is deleted after binding is still reported as
/// bound, with every enterprise field empty.
pub proof fn lemma_dangling_binding(
    d0: Directory,
    d1: Directory,
    d2: Directory,
    user: Seq<char>,
    ent: Seq<char>,
    r: Result<(), AuthError>,
    info: Result<EnterpriseInfoResponse, AuthError>,
)
    requires
        d0.wf(),
        bind_post(d0, user, ent, d1, r),
        r is Ok,
        d2.wf(),
        d2.users() == d1.users(),
        !d2.has_enterprise_id(d0.enterprise_by_address(ascii_lower(ent)).id@),
        info_post(d2, user, info),
    ensures
        info is Ok,
        info->Ok_0.is_enterprise_bound,
        info->Ok_0.enterprise_id is None,
        info->Ok_0.enterprise_name is None,
        info->Ok_0.enterprise_address is None,
{
    let ua = ascii_lower(user);
    let i = choose|i: int| d1.user_at(i, ua);
    d1.lemma_user_unique(i, ua);
    assert(d2.user_at(i, ua));
    d2.lemma_user_unique(i, ua);
}

/// Binding with two enterprise addresses that differ only in letter case (and
/// are both well formed or both not) gives the same outcome and the same
/// binding.
pub proof fn lemma_bind_ignores_case(
    d0: Directory,
    d1: Directory,
    d2: Directory,
    user: Seq<char>,
    e1: Seq<char>,
    e2: Seq<char>,
    r1: Result<(), AuthError>,
    r2: Result<(), AuthError>,
)
    requires
        d0.wf(),
        bind_post(d0, user, e1, d1, r1),
        bind_post(d0, user, e2, d2, r2),
        ascii_lower(e1) == ascii_lower(e2),
        is_address_text(e1) == is_address_text(e2),
    ensures
        r1 == r2,
        r1 is Ok ==> d1.binding(ascii_lower(user)) == d2.binding(ascii_lower(user)),
{
    match r1 {
        Ok(()) => {
            assert(r2 is Ok);
            assert(r1->Ok_0 == r2->Ok_0);
            assert(r1 =~= r2);
        },
        Err(e) => {
            assert(r2 == Err::<(), AuthError>(e));
        },
    }
}

} // verus!
