//! Session decisions: what the login and catalog-sync responses mean, and
//! which session cookies are still worth keeping.
//!
//! The HTTP exchange itself happens outside the engine; it hands in the
//! response fields as plain values and takes plain decisions back.

use vstd::prelude::*;

verus! {

/// The status label a successful storefront response carries.
pub open spec fn success_label() -> Seq<u8> {
    seq![115u8, 117u8, 99u8, 99u8, 101u8, 115u8, 115u8]
}

/// The label the user-lookup field carries when the account was found.
pub open spec fn true_label() -> Seq<u8> {
    seq![116u8, 114u8, 117u8, 101u8]
}

/// The bytes of the success status label.
pub fn success_bytes() -> (r: Vec<u8>)
    ensures
        r@ == success_label(),
{
    let mut v: Vec<u8> = Vec::new();
    v.push(115);
    v.push(117);
    v.push(99);
    v.push(99);
    v.push(101);
    v.push(115);
    v.push(115);
    assert(v@ =~= success_label());
    v
}

/// The bytes of the account-found label.
pub fn true_bytes() -> (r: Vec<u8>)
    ensures
        r@ == true_label(),
{
    let mut v: Vec<u8> = Vec::new();
    v.push(116);
    v.push(114);
    v.push(117);
    v.push(101);
    assert(v@ =~= true_label());
    v
}

/// A login response is accepted exactly when its status is the success
/// label; any other status fails with the response's own message.
pub fn login_accepted(status: &[u8]) -> (r: bool)
    ensures
        r <==> status@ == success_label(),
{
    let expected = success_bytes();
    crate::verify::bytes_eq(status, expected.as_slice())
}

/// A user-info response yields a session exactly when its status is the
/// success label and its user-found field is the true label; anything else
/// means the caller is not signed in.
pub fn sync_accepted(status: &[u8], user_found: &[u8]) -> (r: bool)
    ensures
        r <==> (status@ == success_label() && user_found@ == true_label()),
{
    let expected_status = success_bytes();
    let expected_found = true_bytes();
    let a = crate::verify::bytes_eq(status, expected_status.as_slice());
    let b = crate::verify::bytes_eq(user_found, expected_found.as_slice());
    a && b
}

/// One cookie of the response, with its expiry as Unix seconds if it has
/// one.
#[derive(Clone, Debug)]
pub struct CookieRecord {
    /// The cookie line as the response carried it.
    pub cookie: Vec<u8>,
    /// Expiry instant in Unix seconds, if the cookie has one.
    pub expires: Option<i64>,
}

/// The cookies worth persisting at instant `now`: exactly those with an
/// expiry strictly in the future, in order. Session cookies without an
/// expiry are dropped.
pub open spec fn fresh_spec(cs: Seq<CookieRecord>, now: i64) -> Seq<Seq<u8>>
    decreases cs.len(),
{
    if cs.len() == 0 {
        Seq::empty()
    } else {
        let prev = fresh_spec(cs.drop_last(), now);
        match cs.last().expires {
            Some(t) => if t > now {
                prev.push(cs.last().cookie@)
            } else {
                prev
            },
            None => prev,
        }
    }
}

/// Keep exactly the cookies that are unexpired at instant `now`.
#[verifier::loop_isolation(false)]
pub fn fresh_cookies(cs: &Vec<CookieRecord>, now: i64) -> (r: Vec<Vec<u8>>)
    ensures
        r@.map_values(|c: Vec<u8>| c@) == fresh_spec(cs@, now),
{
    let mut out: Vec<Vec<u8>> = Vec::new();
    let mut i: usize = 0;
    assert(cs@.take(0) =~= Seq::<CookieRecord>::empty());
    assert(out@.map_values(|c: Vec<u8>| c@) =~= Seq::<Seq<u8>>::empty());
    while i < cs.len()
        invariant
            i <= cs.len(),
            out@.map_values(|c: Vec<u8>| c@) == fresh_spec(cs@.take(i as int), now),
        decreases cs.len() - i,
    {
        let ghost old_models = out@.map_values(|c: Vec<u8>| c@);
        proof {
            assert(cs@.take(i as int + 1).drop_last() =~= cs@.take(i as int));
            assert(cs@.take(i as int + 1).last() == cs@[i as int]);
        }
        match cs[i].expires {
            Some(t) => {
                if t > now {
                    let kept = cs[i].cookie.clone();
                    out.push(kept);
                    assert(out@.map_values(|c: Vec<u8>| c@)
                        =~= old_models.push(cs@[i as int].cookie@));
                }
            },
            None => {},
        }
        i += 1;
    }
    assert(cs@.take(cs@.len() as int) =~= cs@);
    out
}

/// Relies on time::OffsetDateTime::now_utc: the current instant as Unix
/// seconds. Nothing can be promised of the clock's value.
#[verifier::external_body]
fn now_unix() -> i64 {
    time::OffsetDateTime::now_utc().unix_timestamp()
}

/// Keep exactly the cookies unexpired at the instant of the call: whatever
/// the clock read, the result is the fresh set for that instant.
pub fn current_fresh_cookies(cs: &Vec<CookieRecord>) -> (r: Vec<Vec<u8>>)
    ensures
        exists|now: i64| r@.map_values(|c: Vec<u8>| c@) == fresh_spec(cs@, now),
{
    let now = now_unix();
    let out = fresh_cookies(cs, now);
    assert(out@.map_values(|c: Vec<u8>| c@) == fresh_spec(cs@, now));
    out
}

} // verus!
