//! Restoring an identity on a fresh device: a new ECDSA P-256 operational key
//! under a random id, a certificate it signs for itself, and the recovery key's
//! word for it.

use crate::bridge::identity_core::{
    identity_error, naming_error, with_identity, IdentityCore, LoadedSigner,
};
use crate::bridge::types::{ErrorView, NdnError, NdnRecoveredIdentity};
use crate::text;
use vstd::prelude::*;

verus! {

/// Length of a random key id.
pub const KEY_ID_LEN: usize = 8;

/// Length of the seed that an operational key is made from.
pub const SEED_LEN: usize = 32;

/// Ten years in nanoseconds: the validity of the restored key's certificate.
pub const TEN_YEARS_NS: u64 = 315_360_000_000_000_000;

/// `getrandom::Error`.
#[verifier::external_type_specification]
#[verifier::external_body]
pub struct ExRandomError(getrandom::Error);

/// `getrandom::getrandom` on a buffer of `len` bytes: where it succeeds it has
/// filled all of them. Nothing is said of which bytes come.
#[verifier::external_body]
fn random_bytes(len: usize) -> (bytes: Result<Vec<u8>, getrandom::Error>)
    ensures
        bytes matches Ok(filled) ==> filled@.len() == len,
{
    let mut buffer = vec![0u8; len];
    getrandom::getrandom(&mut buffer)?;
    Ok(buffer)
}

/// The message of a `getrandom::Error`, from its `Display`. It depends on the
/// operating system, so nothing is said of it.
#[verifier::external_body]
fn random_error_text(error: getrandom::Error) -> String {
    error.to_string()
}

/// Whether an error says that there is no randomness to be had.
pub open spec fn is_rng_error(error: ErrorView) -> bool {
    exists|why: Seq<char>| error == #[trigger] identity_error("rng: "@ + why)
}

/// A lack of randomness is told as an identity error whose message starts with
/// `rng: `.
pub proof fn law_rng_errors_say_so(error: ErrorView)
    ensures
        is_rng_error(error) <==> (error matches ErrorView::Identity { msg } && msg.len() >= 5
            && msg.take(5) == seq!['r', 'n', 'g', ':', ' ']),
{
    reveal_strlit("rng: ");
    assert("rng: "@ =~= seq!['r', 'n', 'g', ':', ' ']);
    if is_rng_error(error) {
        let why = choose|why: Seq<char>| error == #[trigger] identity_error("rng: "@ + why);
        assert(("rng: "@ + why).take(5) =~= "rng: "@);
    }
    if let ErrorView::Identity { msg } = error {
        if msg.len() >= 5 && msg.take(5) == "rng: "@ {
            assert(msg =~= "rng: "@ + msg.skip(5));
            assert(error == identity_error("rng: "@ + msg.skip(5)));
        }
    }
}

fn draw(len: usize) -> (bytes: Result<Vec<u8>, NdnError>)
    ensures
        match bytes {
            Ok(filled) => filled@.len() == len,
            Err(error) => is_rng_error(error@),
        },
{
    match random_bytes(len) {
        Ok(filled) => Ok(filled),
        Err(error) => {
            let why: String = random_error_text(error);
            let msg: String = text::concat("rng: ", why.as_str());
            let error: NdnError = NdnError::identity(msg.as_str());
            assert(error@ == identity_error("rng: "@ + why@));
            Err(error)
        },
    }
}

/// The name of the key with this id.
pub open spec fn key_text_of(identity: Seq<char>, key_id: Seq<u8>) -> Seq<char> {
    identity + "/KEY/"@ + text::hex(key_id)
}

/// The name of the key with this id, as a URI.
pub fn key_text(identity: &str, key_id: &Vec<u8>) -> (name: String)
    ensures
        name@ == key_text_of(identity@, key_id@),
        name@ == identity@ + "/KEY/"@ + text::hex(key_id@),
{
    let id: String = text::hex_encode(key_id.as_slice());
    text::concat3(identity, "/KEY/", id.as_str())
}

/// The name of the certificate that a restored key signs for itself.
pub fn cert_text(key_name: &str) -> (name: String)
    ensures
        name@ == key_name@ + "/self/v=1"@,
{
    text::concat(key_name, "/self/v=1")
}

/// The seed of the operational key, once its name was built.
pub fn operational_seed(key_parses: bool) -> (seed: Result<Vec<u8>, NdnError>)
    ensures
        match seed {
            Ok(bytes) => key_parses && bytes@.len() == SEED_LEN && bytes@.len() == 32,
            Err(error) => if key_parses {
                is_rng_error(error@)
            } else {
                error@ == identity_error("could not build key name"@)
            },
        },
{
    if !key_parses {
        return Err(NdnError::identity("could not build key name"));
    }
    draw(SEED_LEN)
}

/// What the restored key's certificate is made from.
pub struct RestoredCert {
    /// The private key, to be sealed.
    pub pkcs8: Vec<u8>,
    pub public_key: Vec<u8>,
    pub not_before_ns: u64,
    pub not_after_ns: u64,
}

/// The first thing that is wrong with a restored key.
pub open spec fn restored_key_error(
    pkcs8: Result<Vec<u8>, String>,
    public_key: Option<Vec<u8>>,
    cert_parses: bool,
    clock: Result<u64, String>,
) -> Option<ErrorView> {
    if pkcs8 is Err {
        Some(identity_error("pkcs8: "@ + pkcs8->Err_0@))
    } else if public_key is None {
        Some(identity_error("operational key exposes no public key"@))
    } else if !cert_parses {
        Some(identity_error("could not build cert name"@))
    } else if clock is Err {
        Some(identity_error(clock->Err_0@))
    } else {
        None
    }
}

/// What the restored key's certificate is made from: the encoded key, its
/// public key, whether its certificate's name is one, and the time in
/// nanoseconds.
pub fn restored_cert(
    pkcs8: Result<Vec<u8>, String>,
    public_key: Option<Vec<u8>>,
    cert_parses: bool,
    clock: Result<u64, String>,
) -> (cert: Result<RestoredCert, NdnError>)
    requires
        clock matches Ok(now_ns) ==> now_ns + TEN_YEARS_NS <= u64::MAX,
    ensures
        match restored_key_error(pkcs8, public_key, cert_parses, clock) {
            Some(error) => cert is Err && cert->Err_0@ == error,
            None => {
                &&& cert is Ok
                &&& cert->Ok_0.pkcs8 == pkcs8->Ok_0
                &&& cert->Ok_0.public_key == public_key->0
                &&& cert->Ok_0.not_before_ns == clock->Ok_0
                &&& cert->Ok_0.not_after_ns == clock->Ok_0 + TEN_YEARS_NS
            },
        },
        cert is Ok <==> pkcs8 is Ok && public_key is Some && cert_parses && clock is Ok,
        cert matches Ok(made) ==> {
            &&& pkcs8 == Ok::<Vec<u8>, String>(made.pkcs8)
            &&& public_key == Some(made.public_key)
            &&& clock == Ok::<u64, String>(made.not_before_ns)
            &&& made.not_after_ns - made.not_before_ns == 10 * 365 * 24 * 3600 * 1_000_000_000
        },
        cert matches Err(error) ==> error@ == (ErrorView::Identity {
            msg: match (pkcs8, public_key) {
                (Err(why), _) => "pkcs8: "@ + why@,
                (_, None) => "operational key exposes no public key"@,
                (_, _) => if cert_parses {
                    clock->Err_0@
                } else {
                    "could not build cert name"@
                },
            },
        }),
{
    match pkcs8 {
        Err(why) => {
            let msg: String = text::concat("pkcs8: ", why.as_str());
            Err(NdnError::identity(msg.as_str()))
        },
        Ok(pkcs8) => match public_key {
            None => Err(NdnError::identity("operational key exposes no public key")),
            Some(public_key) => {
                if !cert_parses {
                    return Err(NdnError::identity("could not build cert name"));
                }
                match clock {
                    Err(why) => Err(NdnError::identity(why.as_str())),
                    Ok(now_ns) => Ok(
                        RestoredCert {
                            pkcs8,
                            public_key,
                            not_before_ns: now_ns,
                            not_after_ns: now_ns + TEN_YEARS_NS,
                        },
                    ),
                }
            },
        },
    }
}

/// What came of the last steps of a restore, in their order.
pub struct RestoreOutcome {
    /// The certificate that the key signed for itself.
    pub certified: Result<Vec<u8>, String>,
    /// The bundle with the recovery appended.
    pub recovered: Result<Vec<u8>, String>,
    /// The bag with the certificate and the sealed key.
    pub sealed: Result<Vec<u8>, String>,
}

/// The first thing that went wrong in the last steps of a restore.
pub open spec fn restore_error(outcome: RestoreOutcome) -> Option<ErrorView> {
    if outcome.certified is Err {
        Some(identity_error(outcome.certified->Err_0@))
    } else if outcome.recovered is Err {
        Some(identity_error(outcome.recovered->Err_0@))
    } else if outcome.sealed is Err {
        Some(identity_error("safebag: "@ + outcome.sealed->Err_0@))
    } else {
        None
    }
}

impl<S, C> IdentityCore<S, C> {
    /// A fresh random key name under `identity`, as a URI. `parses` tells
    /// whether that is a name.
    pub fn restored_key_text(&self, identity: &str, parses: bool) -> (name: Result<
        String,
        NdnError,
    >)
        ensures
            match naming_error(self@.enabled, identity@, parses) {
                Some(error) => name is Err && name->Err_0@ == error,
                None => match name {
                    Ok(built) => exists|key_id: Seq<u8>|
                        key_id.len() == KEY_ID_LEN && key_id.len() == 8 && built@
                            == #[trigger] key_text_of(identity@, key_id),
                    Err(error) => is_rng_error(error@),
                },
            },
    {
        if !self.is_enabled() {
            return Err(NdnError::identity("identity feature not enabled in this build"));
        }
        if !parses {
            return Err(NdnError::invalid_name(identity));
        }
        match draw(KEY_ID_LEN) {
            Err(error) => Err(error),
            Ok(key_id) => Ok(key_text(identity, &key_id)),
        }
    }

    /// Ends a restore: loads the new key and hands back what to persist, its
    /// certificate inside the bag. Where a step failed, whatever was loaded
    /// before stays.
    pub fn restore_with(
        &mut self,
        outcome: RestoreOutcome,
        signer: LoadedSigner<S>,
        key_name: String,
        cert_name: String,
    ) -> (restored: Result<NdnRecoveredIdentity, NdnError>)
        ensures
            match restore_error(outcome) {
                Some(error) => restored is Err && restored->Err_0@ == error && final(self)@
                    == old(self)@,
                None => {
                    &&& restored is Ok
                    &&& restored->Ok_0.key_name == key_name
                    &&& restored->Ok_0.cert_name == cert_name
                    &&& restored->Ok_0.safebag == outcome.sealed->Ok_0
                    &&& restored->Ok_0.bundle == outcome.recovered->Ok_0
                    &&& final(self)@ == with_identity(old(self)@, signer@, None)
                },
            },
            restored is Ok <==> outcome.certified is Ok && outcome.recovered is Ok
                && outcome.sealed is Ok,
            restored matches Err(error) ==> error@ == (ErrorView::Identity {
                msg: match (outcome.certified, outcome.recovered, outcome.sealed) {
                    (Err(why), _, _) => why@,
                    (_, Err(why), _) => why@,
                    (_, _, sealed) => "safebag: "@ + sealed->Err_0@,
                },
            }),
    {
        match outcome.certified {
            Err(why) => Err(NdnError::identity(why.as_str())),
            Ok(_) => match outcome.recovered {
                Err(why) => Err(NdnError::identity(why.as_str())),
                Ok(bundle) => match outcome.sealed {
                    Err(why) => {
                        let msg: String = text::concat("safebag: ", why.as_str());
                        Err(NdnError::identity(msg.as_str()))
                    },
                    Ok(safebag) => {
                        self.set_identity(signer);
                        Ok(NdnRecoveredIdentity { key_name, cert_name, safebag, bundle })
                    },
                },
            },
        }
    }
}

} // verus!
