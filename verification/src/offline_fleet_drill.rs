//! A drill of offline upgrades and rollbacks.
//!
//! One signed release is exported for each of the isolated environments and
//! applied there without the hub; half of them roll back. What the hub knows
//! after the receipts are imported has to match what the environments hold.
use crate::crypto::{base64_encode, base64_text, ed25519_public, prefixed_digest, SigningKey};
use crate::environment::{EnvironmentInspectReport, StoredEnvironment};
use crate::error::{first_refusal, refusal, refuse_unless, Error};
use crate::signature_verification::{key_id, SignerModel};
use crate::text::{
    copy_opt, decimal, decimal_text, join, joined, opt_text, quote, quoted, same, texts, zero_pad,
    zero_padded,
};
use crate::text_map::{group_text_values, text_at, text_values, TextMap};
use crate::trust::{signer_models, TrustRoots, TrustedSigner, TRUST_ROOT_VERSION};
use vstd::prelude::*;

verus! {

/// How many environments take part.
pub const SPOKE_COUNT: usize = 50;

/// How many of them roll back.
pub const ROLLBACK_COUNT: usize = 25;

/// The version before the upgrade.
pub const PRIOR_VERSION: &'static str = "1.0.0";

/// The version of the upgrade.
pub const UPGRADE_VERSION: &'static str = "1.1.0";

/// What a drill came to.
#[derive(Debug, PartialEq, Eq)]
pub struct DrillReport {
    pub upgraded: Vec<String>,
    pub rolled_back: Vec<String>,
    pub spoke_deployed: TextMap<String>,
    pub hub_deployed: TextMap<String>,
}

/// The name of an environment of the drill.
pub open spec fn spoke_text(index: int) -> Seq<char> {
    "spoke-"@ + zero_padded(index as nat, 2)
}

/// The name of an environment of the drill.
pub fn spoke_name(index: usize) -> (name: String)
    ensures
        name@ == spoke_text(index as int),
{
    let mut name = "spoke-".to_owned();
    name.append(zero_pad(index as u64, 2).as_str());
    name
}

/// The names of the environments from one place up to another.
pub open spec fn spoke_texts(from: int, to: int) -> Seq<Seq<char>> {
    Seq::new(
        if to >= from {
            (to - from) as nat
        } else {
            0
        },
        |i: int| spoke_text(from + i),
    )
}

/// The names of the environments from one place up to another.
pub fn spoke_names(from: usize, to: usize) -> (names: Vec<String>)
    requires
        from <= to,
    ensures
        texts(names@) == spoke_texts(from as int, to as int),
{
    let mut names: Vec<String> = Vec::new();
    let mut index: usize = from;
    let ghost all = spoke_texts(from as int, to as int);
    assert(texts(names@) =~= all.take(0));
    while index < to
        invariant
            from <= index <= to,
            all == spoke_texts(from as int, to as int),
            texts(names@) == all.take(index - from),
        decreases to - index,
    {
        let ghost before = names@;
        names.push(spoke_name(index));
        assert(texts(names@) =~= texts(before).push(all[index - from]));
        assert(texts(names@) =~= all.take(index - from + 1));
        index = index + 1;
    }
    assert(texts(names@) =~= all);
    names
}

/// The entries of a map as they are shown.
pub open spec fn shown_entries(map: TextMap<String>) -> Seq<Seq<char>> {
    map.keys().map_values(|key: Seq<char>| quoted(key) + ": "@ + quoted(map@[key]@))
}

/// A map as it is shown.
pub open spec fn shown_map(map: TextMap<String>) -> Seq<char> {
    "{"@ + joined(shown_entries(map), ", "@) + "}"@
}

/// Show a map.
pub fn show_map(map: &TextMap<String>) -> (text: String)
    ensures
        text@ == shown_map(*map),
{
    let count = map.len();
    let ghost all = shown_entries(*map);
    let mut entries: Vec<String> = Vec::new();
    let mut i: usize = 0;
    assert(texts(entries@) =~= all.take(0));
    while i < count
        invariant
            i <= count,
            count == map.keys().len(),
            all == shown_entries(*map),
            texts(entries@) == all.take(i as int),
        decreases count - i,
    {
        let mut entry = quote(map.key_at(i).as_str());
        entry.append(": ");
        entry.append(quote(map.value_at(i).as_str()).as_str());
        let ghost before = entries@;
        entries.push(entry);
        assert(texts(entries@) =~= texts(before).push(all[i as int]));
        assert(texts(entries@) =~= all.take(i + 1));
        i = i + 1;
    }
    assert(texts(entries@) =~= all);
    let mut text = "{".to_owned();
    text.append(join(&entries, ", ").as_str());
    text.append("}");
    text
}

/// Two maps of texts hold the same.
pub fn same_maps(left: &TextMap<String>, right: &TextMap<String>) -> (answer: bool)
    ensures
        answer == (text_values(left@) == text_values(right@)),
{
    let ghost a = text_values(left@);
    let ghost b = text_values(right@);
    if !covers(left, right) {
        return false;
    }
    if !covers(right, left) {
        return false;
    }
    assert(a =~= b);
    true
}

fn covers(left: &TextMap<String>, right: &TextMap<String>) -> (answer: bool)
    ensures
        answer == (forall|key: Seq<char>| #[trigger]
            text_values(left@).contains_key(key) ==> text_values(right@).contains_key(key)
                && text_values(right@)[key] == text_values(left@)[key]),
{
    let count = left.len();
    let ghost keys = left.keys();
    let ghost a = text_values(left@);
    let ghost b = text_values(right@);
    let mut i: usize = 0;
    while i < count
        invariant
            i <= count,
            count == keys.len(),
            keys == left.keys(),
            a == text_values(left@),
            b == text_values(right@),
            forall|k: int|
                0 <= k < i ==> b.contains_key(#[trigger] keys[k]) && b[keys[k]] == a[keys[k]],
        decreases count - i,
    {
        let key = left.key_at(i);
        let value = left.value_at(i);
        assert(a.contains_key(keys[i as int]));
        assert(a[keys[i as int]] == value@);
        match right.get(key.as_str()) {
            None => {
                assert(!b.contains_key(keys[i as int]));
                return false;
            },
            Some(other) => {
                if !same(other, value) {
                    assert(b[keys[i as int]] != a[keys[i as int]]);
                    return false;
                }
            },
        }
        i = i + 1;
    }
    proof {
        left.lemma_keys();
        assert forall|key: Seq<char>| #[trigger] a.contains_key(key) implies b.contains_key(key)
            && b[key] == a[key] by {
            assert(keys.contains(key));
            let k = keys.index_of(key);
            assert(keys[k] == key);
        }
    }
    true
}

/// The first environment, from one place up to another, that does not hold a
/// version.
pub open spec fn first_off(
    deployed: Map<Seq<char>, Seq<char>>,
    version: Seq<char>,
    from: int,
    to: int,
) -> Option<int>
    decreases to - from,
{
    if from >= to {
        None
    } else {
        let before = first_off(deployed, version, from, to - 1);
        let name = spoke_text(to - 1);
        if before is Some {
            before
        } else if deployed.contains_key(name) && deployed[name] == version {
            None
        } else {
            Some(to - 1)
        }
    }
}

proof fn lemma_first_off_stop(
    deployed: Map<Seq<char>, Seq<char>>,
    version: Seq<char>,
    from: int,
    at: int,
    to: int,
)
    requires
        from <= at <= to,
        first_off(deployed, version, from, at) is Some,
    ensures
        first_off(deployed, version, from, to) == first_off(deployed, version, from, at),
    decreases to - at,
{
    if at < to {
        lemma_first_off_stop(deployed, version, from, at, to - 1);
    }
}

fn find_off(deployed: &TextMap<String>, version: &str, from: usize, to: usize) -> (found: Option<
    usize,
>)
    requires
        from <= to,
    ensures
        match found {
            Some(at) => from <= at < to && first_off(
                text_values(deployed@),
                version@,
                from as int,
                to as int,
            ) == Some(at as int),
            None => first_off(text_values(deployed@), version@, from as int, to as int) is None,
        },
{
    let ghost map = text_values(deployed@);
    let mut at: usize = from;
    assert(first_off(map, version@, from as int, from as int) is None);
    while at < to
        invariant
            from <= at <= to,
            map == text_values(deployed@),
            first_off(map, version@, from as int, at as int) is None,
        decreases to - at,
    {
        let name = spoke_name(at);
        let holds = match deployed.get(name.as_str()) {
            None => false,
            Some(value) => same(value, version),
        };
        if !holds {
            proof {
                assert(first_off(map, version@, from as int, at + 1) == Some(at as int));
                lemma_first_off_stop(map, version@, from as int, at + 1, to as int);
            }
            return Some(at);
        }
        assert(first_off(map, version@, from as int, at + 1) is None);
        at = at + 1;
    }
    None
}

/// Why the posture of the fleet does not match the drill.
pub open spec fn posture_refusal(current: usize, behind: usize) -> Option<Seq<char>> {
    refuse_unless(
        behind == ROLLBACK_COUNT && current == SPOKE_COUNT - ROLLBACK_COUNT,
        "hub fleet posture current="@ + decimal(current as nat) + " behind="@ + decimal(
            behind as nat,
        ) + " expected current="@ + decimal((SPOKE_COUNT - ROLLBACK_COUNT) as nat) + " behind="@
            + decimal(ROLLBACK_COUNT as nat),
    )
}

/// Why a drill failed, by what the environments hold, what the hub knows and
/// how the fleet stands.
pub open spec fn drill_refusal(
    spokes: TextMap<String>,
    hub: TextMap<String>,
    current: usize,
    behind: usize,
) -> Option<Seq<char>> {
    let held = text_values(spokes@);
    let stale = first_off(held, UPGRADE_VERSION@, ROLLBACK_COUNT as int, SPOKE_COUNT as int);
    let stuck = first_off(held, PRIOR_VERSION@, 0, ROLLBACK_COUNT as int);
    if posture_refusal(current, behind) is Some {
        posture_refusal(current, behind)
    } else if held != text_values(hub@) {
        Some(
            "hub fleet status does not match spoke evidence: spoke="@ + shown_map(spokes)
                + " hub="@ + shown_map(hub),
        )
    } else if stale is Some {
        Some(
            "upgraded spoke "@ + spoke_text(stale->0) + " should remain on 1.1.0, got "@
                + shown_map(spokes),
        )
    } else if stuck is Some {
        Some(
            "rolled-back spoke "@ + spoke_text(stuck->0) + " should return to 1.0.0, got "@
                + shown_map(spokes),
        )
    } else {
        None
    }
}

/// Settle a drill.
pub fn settle_drill(
    spoke_deployed: TextMap<String>,
    hub_deployed: TextMap<String>,
    current: usize,
    behind: usize,
) -> (result: Result<DrillReport, Error>)
    ensures
        refusal(result) == drill_refusal(spoke_deployed, hub_deployed, current, behind),
        result matches Ok(report) ==> {
            &&& texts(report.upgraded@) == spoke_texts(
                ROLLBACK_COUNT as int,
                SPOKE_COUNT as int,
            )
            &&& texts(report.rolled_back@) == spoke_texts(0, ROLLBACK_COUNT as int)
            &&& report.spoke_deployed == spoke_deployed
            &&& report.hub_deployed == hub_deployed
        },
{
    if behind != ROLLBACK_COUNT || current != SPOKE_COUNT - ROLLBACK_COUNT {
        let mut message = "hub fleet posture current=".to_owned();
        message.append(decimal_text(current as u64).as_str());
        message.append(" behind=");
        message.append(decimal_text(behind as u64).as_str());
        message.append(" expected current=");
        message.append(decimal_text((SPOKE_COUNT - ROLLBACK_COUNT) as u64).as_str());
        message.append(" behind=");
        message.append(decimal_text(ROLLBACK_COUNT as u64).as_str());
        return Err(Error::new(message));
    }
    if !same_maps(&spoke_deployed, &hub_deployed) {
        let mut message = "hub fleet status does not match spoke evidence: spoke=".to_owned();
        message.append(show_map(&spoke_deployed).as_str());
        message.append(" hub=");
        message.append(show_map(&hub_deployed).as_str());
        return Err(Error::new(message));
    }
    match find_off(&spoke_deployed, UPGRADE_VERSION, ROLLBACK_COUNT, SPOKE_COUNT) {
        None => {},
        Some(at) => {
            let mut message = "upgraded spoke ".to_owned();
            message.append(spoke_name(at).as_str());
            message.append(" should remain on 1.1.0, got ");
            message.append(show_map(&spoke_deployed).as_str());
            return Err(Error::new(message));
        },
    }
    match find_off(&spoke_deployed, PRIOR_VERSION, 0, ROLLBACK_COUNT) {
        None => {},
        Some(at) => {
            let mut message = "rolled-back spoke ".to_owned();
            message.append(spoke_name(at).as_str());
            message.append(" should return to 1.0.0, got ");
            message.append(show_map(&spoke_deployed).as_str());
            return Err(Error::new(message));
        },
    }
    Ok(
        DrillReport {
            upgraded: spoke_names(ROLLBACK_COUNT, SPOKE_COUNT),
            rolled_back: spoke_names(0, ROLLBACK_COUNT),
            spoke_deployed,
            hub_deployed,
        },
    )
}

/// How an environment stands in an upgrade.
#[derive(Debug, Clone, Copy, PartialEq, Eq, Structural)]
pub enum SpokeStatus {
    /// It waits for a bundle.
    Interrupted,
    /// The upgrade was applied.
    Applied,
    /// Anything else.
    Other,
}

/// An environment in an upgrade.
#[derive(Debug, PartialEq, Eq)]
pub struct UpgradeSpoke {
    pub name: String,
    pub plan_id: Option<String>,
    pub status: SpokeStatus,
    /// A bundle was bound to it.
    pub isolated: bool,
}

/// The first environment that waits for a bundle.
pub open spec fn first_interrupted(spokes: Seq<UpgradeSpoke>) -> Option<UpgradeSpoke>
    decreases spokes.len(),
{
    if spokes.len() == 0 {
        None
    } else {
        let before = first_interrupted(spokes.drop_last());
        if before is Some {
            before
        } else if spokes.last().status == SpokeStatus::Interrupted {
            Some(spokes.last())
        } else {
            None
        }
    }
}

proof fn lemma_interrupted_stop(spokes: Seq<UpgradeSpoke>, count: int)
    requires
        0 <= count <= spokes.len(),
        first_interrupted(spokes.take(count)) is Some,
    ensures
        first_interrupted(spokes) == first_interrupted(spokes.take(count)),
    decreases spokes.len() - count,
{
    if count < spokes.len() {
        assert(spokes.take(count + 1).drop_last() =~= spokes.take(count));
        lemma_interrupted_stop(spokes, count + 1);
    } else {
        assert(spokes.take(count) =~= spokes);
    }
}

/// Why the next bundle cannot be exported.
pub open spec fn export_refusal(spokes: Seq<UpgradeSpoke>) -> Option<Seq<char>> {
    match first_interrupted(spokes) {
        None => Some("upgrade did not interrupt an isolated spoke"@),
        Some(spoke) => refuse_unless(
            spoke.plan_id is Some,
            "isolated spoke "@ + spoke.name@ + " has no plan"@,
        ),
    }
}

/// The name and the plan of the environment that the next bundle is for.
pub fn interrupted_spoke(spokes: &Vec<UpgradeSpoke>) -> (result: Result<(String, String), Error>)
    ensures
        refusal(result) == export_refusal(spokes@),
        result matches Ok((name, plan_id)) ==> {
            &&& name@ == first_interrupted(spokes@)->0.name@
            &&& Some(plan_id@) == opt_text(first_interrupted(spokes@)->0.plan_id)
        },
{
    let mut i: usize = 0;
    assert(spokes@.take(0) =~= Seq::<UpgradeSpoke>::empty());
    while i < spokes.len()
        invariant
            i <= spokes.len(),
            first_interrupted(spokes@.take(i as int)) is None,
        decreases spokes.len() - i,
    {
        proof {
            assert(spokes@.take(i + 1).drop_last() =~= spokes@.take(i as int));
            assert(spokes@.take(i + 1).last() == spokes@[i as int]);
        }
        if spokes[i].status == SpokeStatus::Interrupted {
            proof {
                lemma_interrupted_stop(spokes@, i + 1);
            }
            return match copy_opt(&spokes[i].plan_id) {
                Some(plan_id) => Ok((spokes[i].name.clone(), plan_id)),
                None => {
                    let mut message = "isolated spoke ".to_owned();
                    message.append(spokes[i].name.as_str());
                    message.append(" has no plan");
                    Err(Error::new(message))
                },
            };
        }
        i = i + 1;
    }
    assert(spokes@.take(spokes@.len() as int) =~= spokes@);
    Err(Error::fixed("upgrade did not interrupt an isolated spoke"))
}

/// Check that every environment applied the upgrade. `shown` is the upgrade as
/// it is shown.
pub fn check_applied(spokes: &Vec<UpgradeSpoke>, shown: &str) -> (result: Result<(), Error>)
    ensures
        refusal(result) == refuse_unless(
            forall|i: int|
                0 <= i < spokes@.len() ==> (#[trigger] spokes@[i]).status == SpokeStatus::Applied,
            "expected every spoke to apply from the bundle, got "@ + shown@,
        ),
{
    let mut i: usize = 0;
    while i < spokes.len()
        invariant
            i <= spokes.len(),
            forall|k: int|
                0 <= k < i ==> (#[trigger] spokes@[k]).status == SpokeStatus::Applied,
        decreases spokes.len() - i,
    {
        if spokes[i].status != SpokeStatus::Applied {
            let mut message = "expected every spoke to apply from the bundle, got ".to_owned();
            message.append(shown);
            return Err(Error::new(message));
        }
        i = i + 1;
    }
    Ok(())
}

/// The place of the first environment of a name.
pub open spec fn spoke_at(spokes: Seq<UpgradeSpoke>, name: Seq<char>) -> Option<int>
    decreases spokes.len(),
{
    if spokes.len() == 0 {
        None
    } else {
        let before = spoke_at(spokes.drop_last(), name);
        if before is Some {
            before
        } else if spokes.last().name@ == name {
            Some(spokes.len() - 1)
        } else {
            None
        }
    }
}

proof fn lemma_spoke_stop(spokes: Seq<UpgradeSpoke>, name: Seq<char>, count: int)
    requires
        0 <= count <= spokes.len(),
        spoke_at(spokes.take(count), name) is Some,
    ensures
        spoke_at(spokes, name) == spoke_at(spokes.take(count), name),
    decreases spokes.len() - count,
{
    if count < spokes.len() {
        assert(spokes.take(count + 1).drop_last() =~= spokes.take(count));
        lemma_spoke_stop(spokes, name, count + 1);
    } else {
        assert(spokes.take(count) =~= spokes);
    }
}

/// Why an upgrade is refused after a bundle was bound once more.
pub open spec fn replay_refusal(spokes: Seq<UpgradeSpoke>, name: Seq<char>) -> Option<Seq<char>> {
    match spoke_at(spokes, name) {
        None => Some("missing spoke "@ + name + " after replay"@),
        Some(at) => refuse_unless(
            spokes[at].isolated,
            "re-importing the same bundle dropped isolated evidence"@,
        ),
    }
}

/// Check an upgrade after the bundle of an environment was bound once more.
pub fn check_replay(spokes: &Vec<UpgradeSpoke>, name: &str) -> (result: Result<(), Error>)
    ensures
        refusal(result) == replay_refusal(spokes@, name@),
{
    let mut i: usize = 0;
    assert(spokes@.take(0) =~= Seq::<UpgradeSpoke>::empty());
    while i < spokes.len()
        invariant
            i <= spokes.len(),
            spoke_at(spokes@.take(i as int), name@) is None,
        decreases spokes.len() - i,
    {
        proof {
            assert(spokes@.take(i + 1).drop_last() =~= spokes@.take(i as int));
            assert(spokes@.take(i + 1).last() == spokes@[i as int]);
        }
        if same(&spokes[i].name, name) {
            proof {
                lemma_spoke_stop(spokes@, name@, i + 1);
            }
            if spokes[i].isolated {
                return Ok(());
            }
            return Err(Error::fixed("re-importing the same bundle dropped isolated evidence"));
        }
        i = i + 1;
    }
    assert(spokes@.take(spokes@.len() as int) =~= spokes@);
    let mut message = "missing spoke ".to_owned();
    message.append(name);
    message.append(" after replay");
    Err(Error::new(message))
}

/// The version that the hub knows of an environment: that of its first
/// subscription to the product.
pub open spec fn hub_text(report: EnvironmentInspectReport, count: nat) -> Option<Seq<char>>
    decreases count,
{
    if count == 0 {
        None
    } else {
        let before = hub_text(report, (count - 1) as nat);
        let seen = exists|i: int|
            0 <= i < count - 1 && (#[trigger] report.subscriptions@[i]).product@ == "edge-app"@;
        if seen {
            before
        } else if report.subscriptions@[count - 1].product@ == "edge-app"@ {
            opt_text(report.subscriptions@[count - 1].deployed)
        } else {
            None
        }
    }
}

proof fn lemma_hub_stop(report: EnvironmentInspectReport, at: int, count: nat)
    requires
        0 <= at < count <= report.subscriptions@.len(),
        report.subscriptions@[at].product@ == "edge-app"@,
    ensures
        hub_text(report, count) == hub_text(report, (at + 1) as nat),
    decreases count,
{
    if at < count - 1 {
        lemma_hub_stop(report, at, (count - 1) as nat);
    }
}

/// The version that the hub knows of an environment of the drill.
pub fn hub_version(name: &str, report: &EnvironmentInspectReport) -> (result: Result<
    String,
    Error,
>)
    ensures
        refusal(result) == refuse_unless(
            hub_text(*report, report.subscriptions@.len()) is Some,
            "hub inspect for "@ + name@ + " has no deployed edge-app"@,
        ),
        result matches Ok(version) ==> Some(version@) == hub_text(
            *report,
            report.subscriptions@.len(),
        ),
{
    let mut i: usize = 0;
    let mut found: Option<String> = None;
    let mut seen = false;
    while i < report.subscriptions.len() && !seen
        invariant
            i <= report.subscriptions.len(),
            seen ==> i > 0 && report.subscriptions@[i - 1].product@ == "edge-app"@,
            !seen ==> forall|k: int|
                0 <= k < i ==> (#[trigger] report.subscriptions@[k]).product@ != "edge-app"@,
            opt_text(found) == hub_text(*report, i as nat),
        decreases report.subscriptions.len() - i,
    {
        let subscription = &report.subscriptions[i];
        if same(&subscription.product, "edge-app") {
            found = copy_opt(&subscription.deployed);
            seen = true;
        }
        i = i + 1;
    }
    proof {
        if seen {
            lemma_hub_stop(*report, i - 1, report.subscriptions@.len());
        }
    }
    match found {
        Some(version) => Ok(version),
        None => {
            let mut message = "hub inspect for ".to_owned();
            message.append(name);
            message.append(" has no deployed edge-app");
            Err(Error::new(message))
        },
    }
}

/// The trusted signer of a secret key.
pub open spec fn signer_of(secret: Seq<u8>, identity: Seq<char>) -> SignerModel {
    SignerModel {
        key_id: prefixed_digest(ed25519_public(secret)),
        identity,
        public_key: base64_text(ed25519_public(secret)),
    }
}

fn trusted_signer(key: &SigningKey, identity: &str) -> (signer: TrustedSigner)
    ensures
        signer@ == signer_of(key@, identity@),
{
    let public = key.public_key();
    TrustedSigner {
        key_id: key_id(&public),
        identity: identity.to_owned(),
        public_key: base64_encode(&public),
    }
}

/// The trust roots of a drill: the exporter of its bundles and the runtime
/// that signs its receipts.
pub fn isolated_trust_roots(exporter: &SigningKey, runtime: &SigningKey) -> (roots: TrustRoots)
    ensures
        roots.version == TRUST_ROOT_VERSION,
        signer_models(roots.signers@) == seq![
            signer_of(exporter@, "exporter"@),
            signer_of(runtime@, "airgap-runtime"@),
        ],
{
    let mut signers: Vec<TrustedSigner> = Vec::new();
    signers.push(trusted_signer(exporter, "exporter"));
    signers.push(trusted_signer(runtime, "airgap-runtime"));
    assert(signer_models(signers@) =~= seq![
        signer_of(exporter@, "exporter"@),
        signer_of(runtime@, "airgap-runtime"@),
    ]);
    TrustRoots { version: TRUST_ROOT_VERSION, signers }
}

/// The version that an environment of the drill holds, from its properties.
pub fn spoke_version(name: &str, properties: &TextMap<String>) -> (result: Result<String, Error>)
    ensures
        refusal(result) == refuse_unless(
            text_at(properties@, "deployed.edge-app"@) is Some,
            "spoke "@ + name@ + " has no local deployed.edge-app evidence"@,
        ),
        result matches Ok(version) ==> Some(version@) == text_at(
            properties@,
            "deployed.edge-app"@,
        ),
{
    match properties.text("deployed.edge-app") {
        None => {
            let mut message = "spoke ".to_owned();
            message.append(name);
            message.append(" has no local deployed.edge-app evidence");
            Err(Error::new(message))
        },
        Some(version) => Ok(version.to_owned()),
    }
}

/// A drill that succeeded left each environment on the version that it belongs
/// on, and the hub knows it.
pub proof fn settled_drill_is_consistent(
    spokes: TextMap<String>,
    hub: TextMap<String>,
    current: usize,
    behind: usize,
    at: int,
)
    requires
        drill_refusal(spokes, hub, current, behind) is None,
        0 <= at < SPOKE_COUNT,
    ensures
        text_values(hub@).contains_key(spoke_text(at)),
        text_values(hub@)[spoke_text(at)] == (if at < ROLLBACK_COUNT {
            PRIOR_VERSION@
        } else {
            UPGRADE_VERSION@
        }),
        text_values(spokes@) == text_values(hub@),
{
    let held = text_values(spokes@);
    if at < ROLLBACK_COUNT {
        lemma_none_off(held, PRIOR_VERSION@, 0, ROLLBACK_COUNT as int, at);
    } else {
        lemma_none_off(held, UPGRADE_VERSION@, ROLLBACK_COUNT as int, SPOKE_COUNT as int, at);
    }
}

proof fn lemma_none_off(
    deployed: Map<Seq<char>, Seq<char>>,
    version: Seq<char>,
    from: int,
    to: int,
    at: int,
)
    requires
        first_off(deployed, version, from, to) is None,
        from <= at < to,
    ensures
        deployed.contains_key(spoke_text(at)),
        deployed[spoke_text(at)] == version,
    decreases to - from,
{
    if at < to - 1 {
        lemma_none_off(deployed, version, from, to - 1, at);
    }
}

/// Why the environments of the drill are refused: the first that holds no
/// version.
pub open spec fn evidence_refusal(list: Seq<StoredEnvironment>) -> Option<Seq<char>>
    decreases list.len(),
{
    if list.len() == 0 {
        None
    } else {
        first_refusal(
            evidence_refusal(list.drop_last()),
            refuse_unless(
                text_at(list.last().properties@, "deployed.edge-app"@) is Some,
                "spoke "@ + list.last().name@ + " has no local deployed.edge-app evidence"@,
            ),
        )
    }
}

/// The versions that the environments of the drill hold, by their names.
pub open spec fn versions_held(list: Seq<StoredEnvironment>) -> Map<Seq<char>, Seq<char>>
    decreases list.len(),
{
    if list.len() == 0 {
        Map::empty()
    } else {
        versions_held(list.drop_last()).insert(
            list.last().name@,
            text_at(list.last().properties@, "deployed.edge-app"@)->0,
        )
    }
}

proof fn lemma_evidence_stop(list: Seq<StoredEnvironment>, count: int)
    requires
        0 <= count <= list.len(),
        evidence_refusal(list.take(count)) is Some,
    ensures
        evidence_refusal(list) == evidence_refusal(list.take(count)),
    decreases list.len() - count,
{
    if count < list.len() {
        assert(list.take(count + 1).drop_last() =~= list.take(count));
        lemma_evidence_stop(list, count + 1);
    } else {
        assert(list.take(count) =~= list);
    }
}

/// The versions that the environments of the drill hold.
pub fn spoke_versions(spokes: &Vec<StoredEnvironment>) -> (result: Result<TextMap<String>, Error>)
    ensures
        refusal(result) == evidence_refusal(spokes@),
        result matches Ok(versions) ==> text_values(versions@) == versions_held(spokes@),
{
    broadcast use group_text_values;

    let mut versions: TextMap<String> = TextMap::new();
    let mut i: usize = 0;
    assert(spokes@.take(0) =~= Seq::<StoredEnvironment>::empty());
    while i < spokes.len()
        invariant
            i <= spokes.len(),
            evidence_refusal(spokes@.take(i as int)) is None,
            text_values(versions@) == versions_held(spokes@.take(i as int)),
        decreases spokes.len() - i,
    {
        let spoke = &spokes[i];
        assert(spokes@.take(i + 1).drop_last() =~= spokes@.take(i as int));
        match spoke_version(spoke.name.as_str(), &spoke.properties) {
            Err(error) => {
                proof {
                    lemma_evidence_stop(spokes@, i + 1);
                }
                return Err(error);
            },
            Ok(version) => versions.insert(spoke.name.clone(), version),
        }
        i = i + 1;
    }
    assert(spokes@.take(spokes@.len() as int) =~= spokes@);
    Ok(versions)
}

/// Why what the hub knows of the environments of the drill is refused: the
/// first without a version.
pub open spec fn hub_refusal(
    names: Seq<String>,
    reports: Seq<EnvironmentInspectReport>,
    count: nat,
) -> Option<Seq<char>>
    decreases count,
{
    if count == 0 {
        None
    } else {
        let report = reports[count - 1];
        first_refusal(
            hub_refusal(names, reports, (count - 1) as nat),
            refuse_unless(
                hub_text(report, report.subscriptions@.len()) is Some,
                "hub inspect for "@ + names[count - 1]@ + " has no deployed edge-app"@,
            ),
        )
    }
}

/// The versions that the hub knows of the environments of the drill.
pub open spec fn hub_known(
    names: Seq<String>,
    reports: Seq<EnvironmentInspectReport>,
    count: nat,
) -> Map<Seq<char>, Seq<char>>
    decreases count,
{
    if count == 0 {
        Map::empty()
    } else {
        let report = reports[count - 1];
        hub_known(names, reports, (count - 1) as nat).insert(
            names[count - 1]@,
            hub_text(report, report.subscriptions@.len())->0,
        )
    }
}

proof fn lemma_hub_refused(
    names: Seq<String>,
    reports: Seq<EnvironmentInspectReport>,
    at: nat,
    count: nat,
)
    requires
        at <= count,
        hub_refusal(names, reports, at) is Some,
    ensures
        hub_refusal(names, reports, count) == hub_refusal(names, reports, at),
    decreases count,
{
    if at < count {
        lemma_hub_refused(names, reports, at, (count - 1) as nat);
    }
}

/// The versions that the hub knows of the environments of the drill, each
/// with what operators see of it there.
pub fn hub_versions(names: &Vec<String>, reports: &Vec<EnvironmentInspectReport>) -> (result: Result<
    TextMap<String>,
    Error,
>)
    requires
        names@.len() == reports@.len(),
    ensures
        refusal(result) == hub_refusal(names@, reports@, names@.len()),
        result matches Ok(versions) ==> text_values(versions@) == hub_known(
            names@,
            reports@,
            names@.len(),
        ),
{
    broadcast use group_text_values;

    let mut versions: TextMap<String> = TextMap::new();
    let mut i: usize = 0;
    while i < names.len()
        invariant
            i <= names.len(),
            names@.len() == reports@.len(),
            hub_refusal(names@, reports@, i as nat) is None,
            text_values(versions@) == hub_known(names@, reports@, i as nat),
        decreases names.len() - i,
    {
        match hub_version(names[i].as_str(), &reports[i]) {
            Err(error) => {
                proof {
                    lemma_hub_refused(names@, reports@, (i + 1) as nat, names@.len());
                }
                return Err(error);
            },
            Ok(version) => versions.insert(names[i].clone(), version),
        }
        i = i + 1;
    }
    Ok(versions)
}

proof fn lemma_all_on(
    deployed: Map<Seq<char>, Seq<char>>,
    version: Seq<char>,
    from: int,
    to: int,
)
    requires
        forall|at: int|
            from <= at < to ==> deployed.contains_key(#[trigger] spoke_text(at))
                && deployed[spoke_text(at)] == version,
    ensures
        first_off(deployed, version, from, to) is None,
    decreases to - from,
{
    if from < to {
        lemma_all_on(deployed, version, from, to - 1);
        assert(deployed.contains_key(spoke_text(to - 1)));
    }
}

/// A drill succeeds if and only if the fleet shows 25 environments current and 25
/// behind, the hub knows what the environments hold, the first 25 of them are
/// back on the prior version, and the others on the upgrade.
pub proof fn successful_drills(
    spoke_deployed: TextMap<String>,
    hub_deployed: TextMap<String>,
    current: usize,
    behind: usize,
    result: Result<DrillReport, Error>,
)
    requires
        call_ensures(settle_drill, (spoke_deployed, hub_deployed, current, behind), result),
    ensures
        result is Ok <==> {
            let held = text_values(spoke_deployed@);
            &&& current == 25
            &&& behind == 25
            &&& held == text_values(hub_deployed@)
            &&& forall|at: int|
                0 <= at < 25 ==> held.contains_key(#[trigger] spoke_text(at))
                    && held[spoke_text(at)] == "1.0.0"@
            &&& forall|at: int|
                25 <= at < 50 ==> held.contains_key(#[trigger] spoke_text(at))
                    && held[spoke_text(at)] == "1.1.0"@
        },
        result matches Ok(report) ==> report.upgraded@.len() == 25 && report.rolled_back@.len()
            == 25 && report.spoke_deployed == spoke_deployed && report.hub_deployed
            == hub_deployed,
        result matches Ok(report) ==> forall|i: int|
            0 <= i < 25 ==> (#[trigger] report.rolled_back@[i])@ == spoke_text(i)
                && report.upgraded@[i]@ == spoke_text(25 + i),
{
    let held = text_values(spoke_deployed@);
    if result is Ok {
        assert forall|at: int| 0 <= at < 25 implies held.contains_key(#[trigger] spoke_text(at))
            && held[spoke_text(at)] == "1.0.0"@ by {
            lemma_none_off(held, PRIOR_VERSION@, 0, 25, at);
        }
        assert forall|at: int| 25 <= at < 50 implies held.contains_key(#[trigger] spoke_text(at))
            && held[spoke_text(at)] == "1.1.0"@ by {
            lemma_none_off(held, UPGRADE_VERSION@, 25, 50, at);
        }
        let report = result->Ok_0;
        assert(texts(report.upgraded@).len() == report.upgraded@.len());
        assert(texts(report.rolled_back@).len() == report.rolled_back@.len());
        assert forall|i: int| 0 <= i < 25 implies (#[trigger] report.rolled_back@[i])@
            == spoke_text(i) && report.upgraded@[i]@ == spoke_text(25 + i) by {
            assert(texts(report.rolled_back@)[i] == spoke_texts(0, 25)[i]);
            assert(texts(report.upgraded@)[i] == spoke_texts(25, 50)[i]);
        }
    }
    if (forall|at: int|
        0 <= at < 25 ==> held.contains_key(#[trigger] spoke_text(at)) && held[spoke_text(at)]
            == "1.0.0"@) && (forall|at: int|
        25 <= at < 50 ==> held.contains_key(#[trigger] spoke_text(at)) && held[spoke_text(at)]
            == "1.1.0"@) {
        lemma_all_on(held, PRIOR_VERSION@, 0, 25);
        lemma_all_on(held, UPGRADE_VERSION@, 25, 50);
    }
}

proof fn lemma_first_interrupted(spokes: Seq<UpgradeSpoke>, at: int)
    requires
        0 <= at < spokes.len(),
        spokes[at].status == SpokeStatus::Interrupted,
        forall|k: int| 0 <= k < at ==> (#[trigger] spokes[k]).status != SpokeStatus::Interrupted,
    ensures
        first_interrupted(spokes) == Some(spokes[at]),
    decreases spokes.len(),
{
    if at < spokes.len() - 1 {
        lemma_first_interrupted(spokes.drop_last(), at);
    } else {
        lemma_none_interrupted(spokes.drop_last());
    }
}

proof fn lemma_none_interrupted(spokes: Seq<UpgradeSpoke>)
    requires
        forall|k: int|
            0 <= k < spokes.len() ==> (#[trigger] spokes[k]).status != SpokeStatus::Interrupted,
    ensures
        first_interrupted(spokes) is None,
    decreases spokes.len(),
{
    if spokes.len() > 0 {
        lemma_none_interrupted(spokes.drop_last());
        assert(spokes[spokes.len() - 1].status != SpokeStatus::Interrupted);
    }
}

/// The next bundle is for the first environment that waits for one, and for its
/// plan; without such an environment, or without its plan, none is exported.
pub proof fn next_bundle_is_for_the_first_waiting(
    spokes: &Vec<UpgradeSpoke>,
    result: Result<(String, String), Error>,
    at: int,
)
    requires
        call_ensures(interrupted_spoke, (spokes,), result),
    ensures
        (forall|k: int|
            0 <= k < spokes@.len() ==> (#[trigger] spokes@[k]).status != SpokeStatus::Interrupted)
            ==> result is Err,
        0 <= at < spokes@.len() && spokes@[at].status == SpokeStatus::Interrupted && (forall|k: int|
            0 <= k < at ==> (#[trigger] spokes@[k]).status != SpokeStatus::Interrupted) ==> {
            &&& result is Ok <==> spokes@[at].plan_id is Some
            &&& result matches Ok((name, plan_id)) ==> name@ == spokes@[at].name@ && plan_id@
                == spokes@[at].plan_id->0@
        },
{
    if forall|k: int|
        0 <= k < spokes@.len() ==> (#[trigger] spokes@[k]).status != SpokeStatus::Interrupted {
        lemma_none_interrupted(spokes@);
    }
    if 0 <= at < spokes@.len() && spokes@[at].status == SpokeStatus::Interrupted && (forall|k: int|
        0 <= k < at ==> (#[trigger] spokes@[k]).status != SpokeStatus::Interrupted) {
        lemma_first_interrupted(spokes@, at);
    }
}

/// An upgrade is complete if and only if every environment applied it.
pub proof fn complete_upgrades(
    spokes: &Vec<UpgradeSpoke>,
    shown: &str,
    result: Result<(), Error>,
)
    requires
        call_ensures(check_applied, (spokes, shown), result),
    ensures
        result is Err <==> exists|i: int|
            0 <= i < spokes@.len() && (#[trigger] spokes@[i]).status != SpokeStatus::Applied,
{
}

proof fn lemma_spoke_found(spokes: Seq<UpgradeSpoke>, name: Seq<char>)
    ensures
        match spoke_at(spokes, name) {
            Some(at) => 0 <= at < spokes.len() && spokes[at].name@ == name && forall|k: int|
                0 <= k < at ==> (#[trigger] spokes[k]).name@ != name,
            None => forall|k: int| 0 <= k < spokes.len() ==> (#[trigger] spokes[k]).name@ != name,
        },
    decreases spokes.len(),
{
    if spokes.len() > 0 {
        let front = spokes.drop_last();
        lemma_spoke_found(front, name);
        assert(forall|k: int| 0 <= k < front.len() ==> front[k] == spokes[k]);
    }
}

/// A replay is accepted if and only if the environment is still there and still
/// set apart.
pub proof fn accepted_replays(
    spokes: &Vec<UpgradeSpoke>,
    name: &str,
    result: Result<(), Error>,
    at: int,
)
    requires
        call_ensures(check_replay, (spokes, name), result),
    ensures
        (forall|k: int| 0 <= k < spokes@.len() ==> (#[trigger] spokes@[k]).name@ != name@)
            ==> result is Err,
        0 <= at < spokes@.len() && spokes@[at].name@ == name@ && (forall|k: int|
            0 <= k < at ==> (#[trigger] spokes@[k]).name@ != name@) ==> (result is Ok
            <==> spokes@[at].isolated),
{
    lemma_spoke_found(spokes@, name@);
    if 0 <= at < spokes@.len() && spokes@[at].name@ == name@ && (forall|k: int|
        0 <= k < at ==> (#[trigger] spokes@[k]).name@ != name@) {
        let found = spoke_at(spokes@, name@)->0;
        if found < at {
            assert(spokes@[found].name@ != name@);
        }
    }
}

/// The hub knows the deployed version of the first subscription to the product,
/// and refuses an environment without one.
pub proof fn hub_knows_the_first_subscription(
    name: &str,
    report: &EnvironmentInspectReport,
    result: Result<String, Error>,
    at: int,
)
    requires
        call_ensures(hub_version, (name, report), result),
        0 <= at < report.subscriptions@.len(),
        report.subscriptions@[at].product@ == "edge-app"@,
        forall|k: int|
            0 <= k < at ==> (#[trigger] report.subscriptions@[k]).product@ != "edge-app"@,
    ensures
        result is Ok <==> report.subscriptions@[at].deployed is Some,
        result matches Ok(version) ==> version@ == report.subscriptions@[at].deployed->0@,
{
    lemma_hub_stop(*report, at, report.subscriptions@.len());
}

proof fn lemma_evidence_each(list: Seq<StoredEnvironment>)
    ensures
        evidence_refusal(list) is None <==> forall|i: int|
            0 <= i < list.len() ==> text_at(
                (#[trigger] list[i]).properties@,
                "deployed.edge-app"@,
            ) is Some,
    decreases list.len(),
{
    if list.len() > 0 {
        let front = list.drop_last();
        lemma_evidence_each(front);
        assert(forall|i: int| 0 <= i < front.len() ==> front[i] == list[i]);
        if evidence_refusal(list) is None {
            assert forall|i: int| 0 <= i < list.len() implies text_at(
                (#[trigger] list[i]).properties@,
                "deployed.edge-app"@,
            ) is Some by {
                if i < front.len() {
                    assert(text_at(front[i].properties@, "deployed.edge-app"@) is Some);
                }
            }
        }
    }
}

proof fn lemma_version_held(list: Seq<StoredEnvironment>, i: int)
    requires
        0 <= i < list.len(),
        forall|k: int| i < k < list.len() ==> (#[trigger] list[k]).name@ != list[i].name@,
    ensures
        versions_held(list).contains_key(list[i].name@),
        versions_held(list)[list[i].name@] == text_at(
            list[i].properties@,
            "deployed.edge-app"@,
        )->0,
    decreases list.len(),
{
    if i < list.len() - 1 {
        lemma_version_held(list.drop_last(), i);
        assert(list[list.len() - 1].name@ != list[i].name@);
    }
}

/// The versions of the environments are read if and only if each holds one, and
/// each is read under its name.
pub proof fn held_versions_are_read(
    spokes: &Vec<StoredEnvironment>,
    result: Result<TextMap<String>, Error>,
    i: int,
)
    requires
        call_ensures(spoke_versions, (spokes,), result),
        0 <= i < spokes@.len(),
        forall|k: int| i < k < spokes@.len() ==> (#[trigger] spokes@[k]).name@ != spokes@[i].name@,
    ensures
        result is Ok <==> forall|k: int|
            0 <= k < spokes@.len() ==> text_at(
                (#[trigger] spokes@[k]).properties@,
                "deployed.edge-app"@,
            ) is Some,
        result matches Ok(versions) ==> text_at(versions@, spokes@[i].name@) == text_at(
            spokes@[i].properties@,
            "deployed.edge-app"@,
        ),
{
    lemma_evidence_each(spokes@);
    lemma_version_held(spokes@, i);
    if result is Ok {
        assert(text_values(result->Ok_0@).contains_key(spokes@[i].name@));
        assert(text_at(spokes@[i].properties@, "deployed.edge-app"@) is Some);
    }
}

/// The roots of a drill trust its exporter and its runtime, each by its own key.
pub proof fn drills_trust_two_signers(
    exporter: &SigningKey,
    runtime: &SigningKey,
    roots: TrustRoots,
)
    requires
        call_ensures(isolated_trust_roots, (exporter, runtime), roots),
    ensures
        roots.version == 1,
        roots.signers@.len() == 2,
        roots.signers@[0].identity@ == "exporter"@,
        roots.signers@[0].key_id@ == prefixed_digest(ed25519_public(exporter@)),
        roots.signers@[0].public_key@ == base64_text(ed25519_public(exporter@)),
        roots.signers@[1].identity@ == "airgap-runtime"@,
        roots.signers@[1].key_id@ == prefixed_digest(ed25519_public(runtime@)),
        roots.signers@[1].public_key@ == base64_text(ed25519_public(runtime@)),
{
    let models = signer_models(roots.signers@);
    assert(models.len() == roots.signers@.len());
    assert(models[0] == roots.signers@[0]@);
    assert(models[1] == roots.signers@[1]@);
}

/// Two maps are the same if and only if they hold the same texts under the same
/// keys.
pub proof fn equal_maps(left: &TextMap<String>, right: &TextMap<String>, answer: bool)
    requires
        call_ensures(same_maps, (left, right), answer),
    ensures
        answer <==> forall|key: Seq<char>| #[trigger]
            text_at(left@, key) == text_at(right@, key),
{
    let a = text_values(left@);
    let b = text_values(right@);
    if answer {
        assert forall|key: Seq<char>| #[trigger] text_at(left@, key) == text_at(right@, key) by {
            assert(a.contains_key(key) == b.contains_key(key));
            if a.contains_key(key) {
                assert(a[key] == b[key]);
            }
        }
    }
    if forall|key: Seq<char>| #[trigger] text_at(left@, key) == text_at(right@, key) {
        assert forall|key: Seq<char>| #[trigger] a.contains_key(key) == b.contains_key(key) by {
            assert(text_at(left@, key) == text_at(right@, key));
        }
        assert forall|key: Seq<char>| a.contains_key(key) implies #[trigger] a[key] == b[key] by {
            assert(text_at(left@, key) == text_at(right@, key));
        }
        assert(a.dom() =~= b.dom());
        assert(a =~= b);
    }
}

/// The spokes of a drill are named by their numbers in two digits, in order,
/// and the numbers tell them apart.
pub proof fn spokes_are_numbered(from: usize, to: usize, at: int, names: Vec<String>, name: String)
    requires
        from <= to,
        call_ensures(spoke_names, (from, to), names),
        0 <= at < to - from,
        call_ensures(spoke_name, ((from + at) as usize,), name),
    ensures
        names@.len() == to - from,
        names@[at]@ == name@,
        name@.len() >= 8,
        name@.take(6) == "spoke-"@,
{
    reveal_strlit("spoke-");
    let list = texts(names@);
    assert(list.len() == to - from);
    assert(list[at] == names@[at]@);
    assert(list[at] == spoke_text(from + at));
    crate::text::lemma_decimal_reads_back((from + at) as nat);
    assert(name@.take(6) =~= "spoke-"@);
}

} // verus!
