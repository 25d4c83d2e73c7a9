//! Under which names things are stored, and which secrets are kept.
use vstd::prelude::*;
use vstd::utf8::decode_utf8;
use vstd::utf8::valid_utf8;

use crate::blobs::concurrency;
use crate::guest::utf8_error;
use crate::numerals::unsigned_number;
use crate::order::keep;
use crate::persistence::kept_secrets;
use crate::persistence::opt_to_32;
use crate::persistence::secrets_error;
use crate::persistence::source_name;
use crate::persistence::status_name;
use crate::persistence::to_32;
use crate::persistence::DecisionStatus;
use crate::persistence::OpenedView;
use crate::trajectory::TrajectorySource;

verus! {

/// Sources and decisions are stored each under a name of its own.
pub proof fn lemma_stored_names(
    s: TrajectorySource,
    t: TrajectorySource,
    d: DecisionStatus,
    e: DecisionStatus,
)
    ensures
        source_name(s) == source_name(t) ==> s == t,
        status_name(d) == status_name(e) ==> d == e,
        source_name(TrajectorySource::Entity) == "Entity"@,
        source_name(TrajectorySource::Platform) == "Platform"@,
        source_name(TrajectorySource::Authz) == "Authz"@,
        status_name(DecisionStatus::Pending) == "pending"@,
        status_name(DecisionStatus::Approved) == "approved"@,
        status_name(DecisionStatus::Denied) == "denied"@,
        status_name(DecisionStatus::Expired) == "expired"@,
{
    lemma_names_differ();
}

/// The test for secrets that could be decrypted.
pub open spec fn is_open() -> spec_fn(OpenedView) -> bool {
    |s: OpenedView| s.plaintext is Some
}

/// The secret was decrypted and is no text.
pub open spec fn is_garbled(s: OpenedView) -> bool {
    s.plaintext is Some && !valid_utf8(s.plaintext->0)
}

/// The secrets that could be decrypted are kept, each with its name, up to the first
/// that is no text; that one is told, and where there is none nothing is.
pub proof fn lemma_secrets_are_kept(s: Seq<OpenedView>, n: int)
    requires
        0 <= n <= s.len(),
        forall|i: int| 0 <= i < n ==> !is_garbled(#[trigger] s[i]),
        n < s.len() ==> is_garbled(s[n]),
    ensures
        ({
            let k = keep(s.take(n), is_open());
            &&& kept_secrets(s).len() == k.len()
            &&& forall|i: int|
                0 <= i < k.len() ==> #[trigger] kept_secrets(s)[i] == (
                    k[i].key_name,
                    decode_utf8(k[i].plaintext->0),
                )
        }),
        n == s.len() ==> secrets_error(s) is None,
        n < s.len() ==> secrets_error(s) == Some(
            "secret "@ + s[n].key_name + " is not valid UTF-8: "@ + utf8_error(s[n].plaintext->0),
        ),
    decreases n,
{
    if n > 0 {
        let t = s.drop_first();
        assert(!is_garbled(s[0]));
        assert forall|i: int| 0 <= i < n - 1 implies !is_garbled(#[trigger] t[i]) by {
            assert(t[i] == s[i + 1]);
        }
        if n < s.len() {
            assert(t[n - 1] == s[n]);
        }
        lemma_secrets_are_kept(t, n - 1);
        lemma_keep_first(s.take(n), is_open());
        assert(s.take(n).drop_first() =~= t.take(n - 1));
        assert(s.take(n)[0] == s[0]);
        let k = keep(s.take(n), is_open());
        let kt = keep(t.take(n - 1), is_open());
        assert forall|i: int| 0 <= i < k.len() implies #[trigger] kept_secrets(s)[i] == (
            k[i].key_name,
            decode_utf8(k[i].plaintext->0),
        ) by {
            if is_open()(s[0]) {
                if i > 0 {
                    assert(k[i] == kt[i - 1]);
                    assert(kept_secrets(s)[i] == kept_secrets(t)[i - 1]);
                }
            }
        }
    }
}

proof fn lemma_keep_first<A>(s: Seq<A>, f: spec_fn(A) -> bool)
    requires
        s.len() > 0,
    ensures
        keep(s, f) == if f(s[0]) {
            seq![s[0]] + keep(s.drop_first(), f)
        } else {
            keep(s.drop_first(), f)
        },
    decreases s.len(),
{
    let r = s.drop_first();
    if s.len() == 1 {
        assert(s.drop_last() =~= Seq::<A>::empty());
        assert(keep(s.drop_last(), f) =~= Seq::<A>::empty());
        assert(r =~= Seq::<A>::empty());
        assert(keep(r, f) =~= Seq::<A>::empty());
        assert(s.last() == s[0]);
        if f(s[0]) {
            assert(keep(s, f) =~= seq![s[0]] + keep(r, f));
        }
    } else {
        let front = s.drop_last();
        lemma_keep_first(front, f);
        assert(front.drop_first() =~= r.drop_last());
        assert(front[0] == s[0]);
        assert(r.last() == s.last());
        if f(s[0]) {
            assert(keep(s, f) =~= seq![s[0]] + keep(r, f));
        } else {
            assert(keep(s, f) =~= keep(r, f));
        }
    }
}

/// A number that fits 32 bits is read back as it is; others are wrapped round.
pub proof fn lemma_numbers_are_narrowed(n: i64)
    ensures
        i32::MIN <= n <= i32::MAX ==> to_32(n) == n,
        (n - to_32(n)) % 0x1_0000_0000 == 0,
        opt_to_32(Some(n)) == Some(to_32(n)),
        opt_to_32(None) is None,
{
    let m = (n as int) % 0x1_0000_0000;
    let q = (n as int) / 0x1_0000_0000;
    assert(n == q * 0x1_0000_0000 + m) by (nonlinear_arith)
        requires
            m == (n as int) % 0x1_0000_0000,
            q == (n as int) / 0x1_0000_0000,
    ;
    assert(n - to_32(n) == q * 0x1_0000_0000 || n - to_32(n) == (q + 1) * 0x1_0000_0000)
        by (nonlinear_arith)
        requires
            n == q * 0x1_0000_0000 + m,
            to_32(n) == m || to_32(n) == m - 0x1_0000_0000,
    ;
}

/// Blobs are read and written as many at once as is set, where that is a number above
/// zero.
pub proof fn lemma_blobs_at_once(set: Option<Seq<char>>)
    ensures
        set is Some && unsigned_number(set->0) is Some && unsigned_number(set->0)->0 > 0
            ==> concurrency(set) == unsigned_number(set->0)->0,
        set is None || unsigned_number(set->0) is None || unsigned_number(set->0)->0 == 0
            ==> concurrency(set) == 32,
{
}

proof fn lemma_names_differ()
    ensures
        "Entity"@ != "Platform"@,
        "Entity"@ != "Authz"@,
        "Entity"@ != "pending"@,
        "Entity"@ != "approved"@,
        "Entity"@ != "denied"@,
        "Entity"@ != "expired"@,
        "Platform"@ != "Authz"@,
        "Platform"@ != "pending"@,
        "Platform"@ != "approved"@,
        "Platform"@ != "denied"@,
        "Platform"@ != "expired"@,
        "Authz"@ != "pending"@,
        "Authz"@ != "approved"@,
        "Authz"@ != "denied"@,
        "Authz"@ != "expired"@,
        "pending"@ != "approved"@,
        "pending"@ != "denied"@,
        "pending"@ != "expired"@,
        "approved"@ != "denied"@,
        "approved"@ != "expired"@,
        "denied"@ != "expired"@,
{
    reveal_strlit("Entity");
    reveal_strlit("Platform");
    reveal_strlit("Authz");
    reveal_strlit("pending");
    reveal_strlit("approved");
    reveal_strlit("denied");
    reveal_strlit("expired");
    assert("Entity"@.len() == 6);
    assert("Platform"@.len() == 8);
    assert("Authz"@.len() == 5);
    assert("pending"@.len() == 7);
    assert("approved"@.len() == 8);
    assert("denied"@.len() == 6);
    assert("expired"@.len() == 7);
    assert("Entity"@[0] == 'E');
    assert("denied"@[0] == 'd');
    assert("Platform"@[0] == 'P');
    assert("approved"@[0] == 'a');
    assert("pending"@[0] == 'p');
    assert("expired"@[0] == 'e');
}

} // verus!
