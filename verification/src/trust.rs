//! Trust roots: the signers whose signatures count.
use crate::crypto::{
    base64_message, ed25519_key, ed25519_weak, is_public_key, is_weak_key, prefixed_digest,
};
use crate::error::{first_refusal, refusal, refuse_unless, Error};
use crate::plan_approval::{text_refusal, validate_text};
use crate::signature_verification::{
    decode_key, exact_bytes, exact_refusal, key_id, lemma_signer_with, signer_with, SignerModel,
};
use crate::text::same;
use vstd::prelude::*;

verus! {

pub const TRUST_ROOT_VERSION: u32 = 1;

/// The signers whose signatures count.
#[derive(Debug, PartialEq, Eq)]
pub struct TrustRoots {
    pub version: u32,
    pub signers: Vec<TrustedSigner>,
}

/// A signer whose signatures count.
#[derive(Debug, PartialEq, Eq)]
pub struct TrustedSigner {
    pub key_id: String,
    pub identity: String,
    pub public_key: String,
}

impl View for TrustedSigner {
    type V = SignerModel;

    open spec fn view(&self) -> SignerModel {
        SignerModel {
            key_id: self.key_id@,
            identity: self.identity@,
            public_key: self.public_key@,
        }
    }
}

/// What trusted signers say, in order.
pub open spec fn signer_models(list: Seq<TrustedSigner>) -> Seq<SignerModel> {
    list.map_values(|item: TrustedSigner| item@)
}

/// An earlier signer has the key or the identity of another.
pub open spec fn signer_taken(earlier: Seq<SignerModel>, signer: SignerModel) -> bool {
    exists|i: int|
        0 <= i < earlier.len() && ((#[trigger] earlier[i]).key_id == signer.key_id
            || earlier[i].identity == signer.identity)
}

/// Why a signer cannot be trusted behind the earlier ones of a list.
pub open spec fn signer_refusal(
    subject: Seq<char>,
    earlier: Seq<SignerModel>,
    signer: SignerModel,
) -> Option<Seq<char>> {
    let identity = text_refusal("trusted signer identity"@, signer.identity);
    let decoding = exact_refusal("trusted signer public key"@, signer.public_key, 32, "32"@);
    let key = base64_message(signer.public_key)->0;
    if identity is Some {
        identity
    } else if decoding is Some {
        decoding
    } else if !ed25519_key(key) {
        Some("invalid Ed25519 public key"@)
    } else if ed25519_weak(key) {
        Some(subject + " public key is weak and cannot be trusted"@)
    } else if signer.key_id != prefixed_digest(key) {
        Some("trusted signer key id "@ + signer.key_id + " does not match its public key"@)
    } else if signer_taken(earlier, signer) {
        Some(subject + " trust roots contain duplicate keys or identities"@)
    } else {
        None
    }
}

/// Why a list of signers cannot be trusted: the refusal of the first that
/// cannot.
pub open spec fn signers_refusal(subject: Seq<char>, signers: Seq<SignerModel>) -> Option<Seq<char>>
    decreases signers.len(),
{
    if signers.len() == 0 {
        None
    } else {
        first_refusal(
            signers_refusal(subject, signers.drop_last()),
            signer_refusal(subject, signers.drop_last(), signers.last()),
        )
    }
}

/// Why trust roots cannot be used.
pub open spec fn roots_refusal(
    subject: Seq<char>,
    version: u32,
    signers: Seq<SignerModel>,
) -> Option<Seq<char>> {
    first_refusal(
        refuse_unless(
            version == TRUST_ROOT_VERSION && signers.len() > 0,
            subject + " trust roots must use version 1 and contain at least one signer"@,
        ),
        signers_refusal(subject, signers),
    )
}

proof fn lemma_signers_stop(subject: Seq<char>, signers: Seq<SignerModel>, at: int)
    requires
        0 <= at < signers.len(),
        signers_refusal(subject, signers.take(at + 1)) is Some,
    ensures
        signers_refusal(subject, signers) == signers_refusal(subject, signers.take(at + 1)),
    decreases signers.len() - at,
{
    if at + 1 == signers.len() {
        assert(signers.take(at + 1) =~= signers);
    } else {
        assert(signers.take(at + 2).drop_last() =~= signers.take(at + 1));
        lemma_signers_stop(subject, signers, at + 1);
    }
}

proof fn lemma_signers_each(subject: Seq<char>, signers: Seq<SignerModel>, i: int)
    requires
        0 <= i < signers.len(),
        signers_refusal(subject, signers) is None,
    ensures
        signer_refusal(subject, signers.take(i), signers[i]) is None,
    decreases signers.len(),
{
    if i + 1 == signers.len() {
        assert(signers.take(i) =~= signers.drop_last());
    } else {
        lemma_signers_each(subject, signers.drop_last(), i);
        assert(signers.drop_last().take(i) =~= signers.take(i));
    }
}

proof fn lemma_signer_found(signers: Seq<SignerModel>, key_id: Seq<char>)
    requires
        signer_with(signers, key_id) is Some,
    ensures
        signer_with(signers, key_id)->0.key_id == key_id,
        signers.contains(signer_with(signers, key_id)->0),
    decreases signers.len(),
{
    if signers[0].key_id == key_id {
        assert(signers.contains(signers[0]));
    } else {
        lemma_signer_found(signers.drop_first(), key_id);
        let found = signer_with(signers, key_id)->0;
        let at = signers.drop_first().index_of(found);
        assert(signers[at + 1] == found);
    }
}

/// A signer of usable trust roots has a strong key whose digest is its key
/// id.
pub proof fn trusted_signers_have_strong_keys(
    subject: Seq<char>,
    version: u32,
    signers: Seq<SignerModel>,
    key_id: Seq<char>,
)
    requires
        roots_refusal(subject, version, signers) is None,
        signer_with(signers, key_id) is Some,
    ensures
        ({
            let signer = signer_with(signers, key_id)->0;
            let key = exact_bytes(signer.public_key, 32);
            &&& signer.key_id == key_id
            &&& key is Some
            &&& ed25519_key(key->0)
            &&& !ed25519_weak(key->0)
            &&& prefixed_digest(key->0) == key_id
        }),
{
    lemma_signer_found(signers, key_id);
    let at = signers.index_of(signer_with(signers, key_id)->0);
    lemma_signers_each(subject, signers, at);
}

impl TrustRoots {
    /// Accept trust roots: the supported version, at least one signer, and
    /// every signer a distinct identity with a distinct strong key whose id
    /// is the digest of the key.
    pub fn validate(&self, subject: &str) -> (result: Result<(), Error>)
        ensures
            refusal(result) == roots_refusal(
                subject@,
                self.version,
                signer_models(self.signers@),
            ),
    {
        let ghost models = signer_models(self.signers@);
        if self.version != TRUST_ROOT_VERSION || self.signers.len() == 0 {
            let mut message = subject.to_owned();
            message.append(" trust roots must use version 1 and contain at least one signer");
            return Err(Error::new(message));
        }
        let mut i: usize = 0;
        assert(models.take(0) =~= Seq::<SignerModel>::empty());
        while i < self.signers.len()
            invariant
                i <= self.signers.len(),
                models == signer_models(self.signers@),
                self.version == TRUST_ROOT_VERSION,
                self.signers.len() > 0,
                signers_refusal(subject@, models.take(i as int)) is None,
            decreases self.signers.len() - i,
        {
            let signer = &self.signers[i];
            assert(models[i as int] == signer@);
            assert(models.take(i + 1).drop_last() =~= models.take(i as int));
            assert(models.take(i + 1).last() == signer@);
            match self.check_signer(subject, i) {
                Err(error) => {
                    proof {
                        lemma_signers_stop(subject@, models, i as int);
                    }
                    return Err(error);
                },
                Ok(_) => {},
            }
            i = i + 1;
        }
        assert(models.take(i as int) =~= models);
        Ok(())
    }

    fn check_signer(&self, subject: &str, at: usize) -> (result: Result<(), Error>)
        requires
            at < self.signers.len(),
        ensures
            refusal(result) == signer_refusal(
                subject@,
                signer_models(self.signers@).take(at as int),
                self.signers@[at as int]@,
            ),
    {
        let ghost earlier = signer_models(self.signers@).take(at as int);
        let signer = &self.signers[at];
        match validate_text("trusted signer identity", signer.identity.as_str()) {
            Err(error) => return Err(error),
            Ok(_) => {},
        }
        let public = match decode_key("trusted signer public key", signer.public_key.as_str()) {
            Err(error) => return Err(error),
            Ok(bytes) => bytes,
        };
        if !is_public_key(&public) {
            return Err(Error::fixed("invalid Ed25519 public key"));
        }
        if is_weak_key(&public) {
            let mut message = subject.to_owned();
            message.append(" public key is weak and cannot be trusted");
            return Err(Error::new(message));
        }
        let derived = key_id(public.as_slice());
        if !same(&signer.key_id, &derived) {
            let mut message = "trusted signer key id ".to_owned();
            message.append(signer.key_id.as_str());
            message.append(" does not match its public key");
            return Err(Error::new(message));
        }
        let mut i: usize = 0;
        while i < at
            invariant
                i <= at,
                at < self.signers.len(),
                signer@ == self.signers@[at as int]@,
                earlier == signer_models(self.signers@).take(at as int),
                forall|k: int|
                    0 <= k < i ==> (#[trigger] earlier[k]).key_id != signer@.key_id
                        && earlier[k].identity != signer@.identity,
                signer_refusal(subject@, earlier, signer@) == (if signer_taken(earlier, signer@) {
                    Some(subject@ + " trust roots contain duplicate keys or identities"@)
                } else {
                    None
                }),
            decreases at - i,
        {
            assert(earlier[i as int] == self.signers@[i as int]@);
            if same(&self.signers[i].key_id, &signer.key_id) || same(
                &self.signers[i].identity,
                &signer.identity,
            ) {
                assert(signer_taken(earlier, signer@));
                let mut message = subject.to_owned();
                message.append(" trust roots contain duplicate keys or identities");
                return Err(Error::new(message));
            }
            i = i + 1;
        }
        assert(!signer_taken(earlier, signer@));
        Ok(())
    }

    /// The signer with a key id, where there is one.
    pub fn signer(&self, key_id: &str) -> (found: Option<&TrustedSigner>)
        ensures
            match found {
                Some(signer) => signer_with(signer_models(self.signers@), key_id@) == Some(signer@),
                None => signer_with(signer_models(self.signers@), key_id@) is None,
            },
    {
        let ghost models = signer_models(self.signers@);
        let mut i: usize = 0;
        while i < self.signers.len()
            invariant
                i <= self.signers.len(),
                models == signer_models(self.signers@),
                forall|k: int| 0 <= k < i ==> (#[trigger] models[k]).key_id != key_id@,
            decreases self.signers.len() - i,
        {
            assert(models[i as int] == self.signers@[i as int]@);
            if same(&self.signers[i].key_id, key_id) {
                proof {
                    lemma_signer_with(models, key_id@, i as int);
                }
                return Some(&self.signers[i]);
            }
            i = i + 1;
        }
        proof {
            lemma_signer_with(models, key_id@, i as int);
        }
        None
    }
}

/// What is asked of one signer: an identity in canonical form, and a strong key
/// whose digest is the key id.
pub open spec fn sound_signer(signer: SignerModel) -> bool {
    &&& crate::plan_approval::canonical_text(signer.identity)
    &&& base64_message(signer.public_key) matches Some(key) && key.len() == 32 && ed25519_key(key)
        && !ed25519_weak(key) && signer.key_id == prefixed_digest(key)
}

proof fn lemma_signers_sound(subject: Seq<char>, signers: Seq<SignerModel>)
    ensures
        signers_refusal(subject, signers) is None <==> {
            &&& forall|i: int| 0 <= i < signers.len() ==> sound_signer(#[trigger] signers[i])
            &&& forall|i: int, j: int|
                0 <= i < j < signers.len() ==> (#[trigger] signers[i]).key_id != (
                #[trigger] signers[j]).key_id && signers[i].identity != signers[j].identity
        },
    decreases signers.len(),
{
    if signers.len() > 0 {
        let front = signers.drop_last();
        let last = signers.len() - 1;
        lemma_signers_sound(subject, front);
        assert(forall|i: int| 0 <= i < last ==> front[i] == signers[i]);
        let sound = forall|i: int| 0 <= i < signers.len() ==> sound_signer(#[trigger] signers[i]);
        let distinct = forall|i: int, j: int|
            0 <= i < j < signers.len() ==> (#[trigger] signers[i]).key_id != (
            #[trigger] signers[j]).key_id && signers[i].identity != signers[j].identity;
        if signers_refusal(subject, signers) is None {
            assert(sound) by {
                assert forall|i: int| 0 <= i < signers.len() implies sound_signer(
                    #[trigger] signers[i],
                ) by {
                    if i < last {
                        assert(sound_signer(front[i]));
                    }
                }
            }
            assert(distinct) by {
                assert forall|i: int, j: int| 0 <= i < j < signers.len() implies (
                #[trigger] signers[i]).key_id != (#[trigger] signers[j]).key_id
                    && signers[i].identity != signers[j].identity by {
                    if j < last {
                        assert(front[i].key_id != front[j].key_id && front[i].identity
                            != front[j].identity);
                    } else {
                        assert(!signer_taken(front, signers[last]));
                        assert(front[i] == signers[i]);
                    }
                }
            }
        }
        if sound && distinct {
            assert forall|i: int, j: int| 0 <= i < j < front.len() implies (
            #[trigger] front[i]).key_id != (#[trigger] front[j]).key_id && front[i].identity
                != front[j].identity by {
                assert(signers[i].key_id != signers[j].key_id);
            }
            assert(sound_signer(signers[last]));
            if signer_taken(front, signers[last]) {
                let i = choose|i: int|
                    0 <= i < front.len() && ((#[trigger] front[i]).key_id == signers[last].key_id
                        || front[i].identity == signers[last].identity);
                assert(signers[i] == front[i]);
                assert(signers[i].key_id != signers[last].key_id);
            }
        }
    }
}

/// Trust roots are accepted if and only if they use the first version, hold at
/// least one signer, every signer is sound, and no two share a key or an
/// identity.
pub proof fn accepted_trust_roots(roots: &TrustRoots, subject: &str, result: Result<(), Error>)
    requires
        call_ensures(TrustRoots::validate, (roots, subject), result),
    ensures
        result is Ok <==> {
            &&& roots.version == 1
            &&& roots.signers@.len() > 0
            &&& forall|i: int|
                0 <= i < roots.signers@.len() ==> sound_signer((#[trigger] roots.signers@[i])@)
            &&& forall|i: int, j: int|
                0 <= i < j < roots.signers@.len() ==> (#[trigger] roots.signers@[i]).key_id@ != (
                #[trigger] roots.signers@[j]).key_id@ && roots.signers@[i].identity@
                    != roots.signers@[j].identity@
        },
{
    let models = signer_models(roots.signers@);
    lemma_signers_sound(subject@, models);
    assert(forall|i: int| 0 <= i < models.len() ==> models[i] == roots.signers@[i]@);
    if result is Ok {
        assert forall|i: int| 0 <= i < roots.signers@.len() implies sound_signer(
            (#[trigger] roots.signers@[i])@,
        ) by {
            assert(sound_signer(models[i]));
        }
        assert forall|i: int, j: int| 0 <= i < j < roots.signers@.len() implies (
        #[trigger] roots.signers@[i]).key_id@ != (#[trigger] roots.signers@[j]).key_id@
            && roots.signers@[i].identity@ != roots.signers@[j].identity@ by {
            assert(models[i].key_id != models[j].key_id && models[i].identity
                != models[j].identity);
        }
    } else if roots.version == 1 && roots.signers@.len() > 0 {
        if forall|i: int| 0 <= i < models.len() ==> sound_signer(#[trigger] models[i]) {
            let (i, j) = choose|i: int, j: int|
                0 <= i < j < models.len() && !((#[trigger] models[i]).key_id != (
                #[trigger] models[j]).key_id && models[i].identity != models[j].identity);
            assert(models[i] == roots.signers@[i]@);
            assert(models[j] == roots.signers@[j]@);
        } else {
            let i = choose|i: int| 0 <= i < models.len() && !sound_signer(#[trigger] models[i]);
            assert(models[i] == roots.signers@[i]@);
        }
    }
}

proof fn lemma_signer_missing(signers: Seq<SignerModel>, key_id: Seq<char>, i: int)
    requires
        signer_with(signers, key_id) is None,
        0 <= i < signers.len(),
    ensures
        signers[i].key_id != key_id,
    decreases signers.len(),
{
    if i > 0 {
        assert(signers.drop_first()[i - 1] == signers[i]);
        lemma_signer_missing(signers.drop_first(), key_id, i - 1);
    }
}

/// A signer is found by its key id if and only if the roots hold one with it.
pub proof fn signers_are_found_by_key(
    roots: &TrustRoots,
    key_id: &str,
    found: Option<&TrustedSigner>,
)
    requires
        call_ensures(TrustRoots::signer, (roots, key_id), found),
    ensures
        found is Some <==> exists|i: int|
            0 <= i < roots.signers@.len() && (#[trigger] roots.signers@[i]).key_id@ == key_id@,
        found matches Some(signer) ==> signer.key_id@ == key_id@ && exists|i: int|
            0 <= i < roots.signers@.len() && (#[trigger] roots.signers@[i])@ == signer@,
{
    let models = signer_models(roots.signers@);
    assert(forall|i: int| 0 <= i < models.len() ==> models[i] == roots.signers@[i]@);
    if found is Some {
        lemma_signer_found(models, key_id@);
        let i = choose|i: int| 0 <= i < models.len() && models[i] == found->0@;
        assert(roots.signers@[i]@ == found->0@);
    } else {
        assert forall|i: int| 0 <= i < roots.signers@.len() implies (
        #[trigger] roots.signers@[i]).key_id@ != key_id@ by {
            lemma_signer_missing(models, key_id@, i);
        }
    }
}

} // verus!
